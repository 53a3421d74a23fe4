//! The typed request, response and event shapes of the host's sub-APIs.
//!
//! Every shape here is flat data; the knowledge about it lives in its
//! [`DynCodec`] implementation, which fixes its dynamic encoding field by
//! field and proves the round trip. Optional fields are omitted from
//! encodings when absent, and accept host `null` and `undefined` as absent
//! when decoding.

use crate::codec::DynCodec;
use crate::codec::absent;
use crate::codec::bool_value;
use crate::codec::bytes_value;
use crate::codec::double_list_value;
use crate::codec::float_array_value;
use crate::codec::get_bool_field;
use crate::codec::get_bytes_field;
use crate::codec::get_float_array_field;
use crate::codec::get_opt_bool_field;
use crate::codec::get_opt_double_list_field;
use crate::codec::get_opt_text_field;
use crate::codec::get_opt_text_list_field;
use crate::codec::get_opt_u32_field;
use crate::codec::get_text_field;
use crate::codec::get_text_list_field;
use crate::codec::decode_list;
use crate::codec::encode_list;
use crate::codec::lemma_list_round_trip;
use crate::codec::lemma_push_opt_get;
use crate::codec::list_decodable;
use crate::codec::list_decodes_to;
use crate::codec::list_enc;
use crate::codec::opt_bool_match;
use crate::codec::opt_bool_ok;
use crate::codec::opt_bool_spec;
use crate::codec::get_opt_bytes_field;
use crate::codec::opt_bytes_match;
use crate::codec::opt_bytes_ok;
use crate::codec::opt_bytes_spec;
use crate::codec::opt_double_list_match;
use crate::codec::opt_double_list_ok;
use crate::codec::opt_double_list_spec;
use crate::codec::opt_text_list_match;
use crate::codec::opt_text_list_ok;
use crate::codec::opt_text_list_spec;
use crate::codec::opt_text_match;
use crate::codec::opt_text_ok;
use crate::codec::opt_text_spec;
use crate::codec::opt_u32_match;
use crate::codec::opt_u32_ok;
use crate::codec::opt_u32_spec;
use crate::codec::push_opt;
use crate::codec::require_field;
use crate::codec::string_value;
use crate::codec::text_value;
use crate::codec::text_list_decodable;
use crate::codec::text_list_value;
use crate::codec::texts_view;
use crate::codec::u32_value;
use crate::dynamic::DynSpec;
use crate::dynamic::DynamicValue;
use crate::dynamic::dyn_fields_view;
use crate::dynamic::lemma_obj_get_push;
use crate::dynamic::obj_get;
use crate::error::MarshalError;
use vstd::prelude::*;

verus! {

/// Result of an operation that yields a generated identifier.
#[derive(Debug, Clone, PartialEq)]
pub struct IdResult {
    pub id: String,
}

impl DynCodec for IdResult {
    open spec fn enc_wf(&self) -> bool {
        true
    }

    open spec fn enc(&self) -> DynSpec {
        DynSpec::Obj(seq![("id"@, DynSpec::Text(self.id@))])
    }

    open spec fn decodable(v: DynSpec) -> bool {
        v matches DynSpec::Obj(fs) && obj_get(fs, "id"@) matches Some(d) && d is Text
    }

    open spec fn decodes_to(v: DynSpec, t: Self) -> bool {
        v matches DynSpec::Obj(fs) && obj_get(fs, "id"@) == Some(DynSpec::Text(t.id@))
    }

    proof fn lemma_round_trip(&self) {
        let fs = seq![("id"@, DynSpec::Text(self.id@))];
        assert(obj_get(fs, "id"@) == Some(DynSpec::Text(self.id@)));
    }

    fn encode_dyn(&self) -> (r: Result<DynamicValue, MarshalError>) {
        let mut fields: Vec<(String, DynamicValue)> = Vec::new();
        proof {
            assert(dyn_fields_view(fields@) =~= Seq::<(Seq<char>, DynSpec)>::empty());
        }
        crate::codec::push_field(&mut fields, "id", string_value(&self.id));
        let d = DynamicValue::Object(fields);
        proof {
            assert(d@ =~~= self.enc());
        }
        Ok(d)
    }

    fn decode_dyn(v: &DynamicValue) -> (r: Result<Self, MarshalError>) {
        let fields = v.as_object()?;
        let id = get_text_field(fields, "id")?;
        Ok(IdResult { id })
    }
}

/// Removes a previously added scene object by its identifier.
#[derive(Debug, Clone, PartialEq)]
pub struct RemoveRequest {
    pub id: String,
}

impl DynCodec for RemoveRequest {
    open spec fn enc_wf(&self) -> bool {
        true
    }

    open spec fn enc(&self) -> DynSpec {
        DynSpec::Obj(seq![("id"@, DynSpec::Text(self.id@))])
    }

    open spec fn decodable(v: DynSpec) -> bool {
        v matches DynSpec::Obj(fs) && obj_get(fs, "id"@) matches Some(d) && d is Text
    }

    open spec fn decodes_to(v: DynSpec, t: Self) -> bool {
        v matches DynSpec::Obj(fs) && obj_get(fs, "id"@) == Some(DynSpec::Text(t.id@))
    }

    proof fn lemma_round_trip(&self) {
        let fs = seq![("id"@, DynSpec::Text(self.id@))];
        assert(obj_get(fs, "id"@) == Some(DynSpec::Text(self.id@)));
    }

    fn encode_dyn(&self) -> (r: Result<DynamicValue, MarshalError>) {
        let mut fields: Vec<(String, DynamicValue)> = Vec::new();
        proof {
            assert(dyn_fields_view(fields@) =~= Seq::<(Seq<char>, DynSpec)>::empty());
        }
        crate::codec::push_field(&mut fields, "id", string_value(&self.id));
        let d = DynamicValue::Object(fields);
        proof {
            assert(d@ =~~= self.enc());
        }
        Ok(d)
    }

    fn decode_dyn(v: &DynamicValue) -> (r: Result<Self, MarshalError>) {
        let fields = v.as_object()?;
        let id = get_text_field(fields, "id")?;
        Ok(RemoveRequest { id })
    }
}

/// Asks the host to capture a screenshot of the current camera view.
#[derive(Debug, Clone, PartialEq)]
pub struct CameraCaptureRequest {
    pub width: Option<u32>,
    pub height: Option<u32>,
}

impl DynCodec for CameraCaptureRequest {
    open spec fn enc_wf(&self) -> bool {
        true
    }

    open spec fn enc(&self) -> DynSpec {
        DynSpec::Obj(
            push_opt(
                push_opt(Seq::empty(), "width"@, opt_u32_spec(self.width)),
                "height"@,
                opt_u32_spec(self.height),
            ),
        )
    }

    open spec fn decodable(v: DynSpec) -> bool {
        &&& v matches DynSpec::Obj(fs)
        &&& opt_u32_ok(obj_get(fs, "width"@))
        &&& opt_u32_ok(obj_get(fs, "height"@))
    }

    open spec fn decodes_to(v: DynSpec, t: Self) -> bool {
        &&& v matches DynSpec::Obj(fs)
        &&& opt_u32_match(obj_get(fs, "width"@), t.width)
        &&& opt_u32_match(obj_get(fs, "height"@), t.height)
    }

    proof fn lemma_round_trip(&self) {
        let s0 = Seq::<(Seq<char>, DynSpec)>::empty();
        let s1 = push_opt(s0, "width"@, opt_u32_spec(self.width));
        let s2 = push_opt(s1, "height"@, opt_u32_spec(self.height));
        reveal_strlit("width");
        reveal_strlit("height");
        assert("width"@.len() == 5);
        assert("height"@.len() == 6);
        assert("width"@ != "height"@);
        assert(obj_get(s0, "width"@) is None);
        assert(obj_get(s0, "height"@) is None);
        lemma_push_opt_get(s0, "width"@, opt_u32_spec(self.width), "width"@);
        lemma_push_opt_get(s0, "width"@, opt_u32_spec(self.width), "height"@);
        lemma_push_opt_get(s1, "height"@, opt_u32_spec(self.height), "width"@);
        lemma_push_opt_get(s1, "height"@, opt_u32_spec(self.height), "height"@);
        assert(obj_get(s2, "width"@) == opt_u32_spec(self.width));
        assert(obj_get(s2, "height"@) == opt_u32_spec(self.height));
        assert forall|other: Self|
            Self::decodes_to(self.enc(), other) implies other.enc() == self.enc() by {
            assert(other.width == self.width);
            assert(other.height == self.height);
        }
    }

    fn encode_dyn(&self) -> (r: Result<DynamicValue, MarshalError>) {
        let mut fields: Vec<(String, DynamicValue)> = Vec::new();
        proof {
            assert(dyn_fields_view(fields@) =~= Seq::<(Seq<char>, DynSpec)>::empty());
        }
        if let Some(n) = self.width {
            crate::codec::push_field(&mut fields, "width", u32_value(n));
        }
        if let Some(n) = self.height {
            crate::codec::push_field(&mut fields, "height", u32_value(n));
        }
        let d = DynamicValue::Object(fields);
        proof {
            assert(d@ =~~= self.enc());
        }
        Ok(d)
    }

    fn decode_dyn(v: &DynamicValue) -> (r: Result<Self, MarshalError>) {
        let fields = v.as_object()?;
        let width = get_opt_u32_field(fields, "width")?;
        let height = get_opt_u32_field(fields, "height")?;
        Ok(CameraCaptureRequest { width, height })
    }
}

/// Event delivered when the set of selected elements changes. On the wire
/// this event is the bare array of selected paths, not an object.
#[derive(Debug, Clone, PartialEq)]
pub struct SelectionChangeEvent {
    pub paths: Vec<String>,
}

impl DynCodec for SelectionChangeEvent {
    open spec fn enc_wf(&self) -> bool {
        true
    }

    open spec fn enc(&self) -> DynSpec {
        DynSpec::Arr(texts_view(self.paths@))
    }

    open spec fn decodable(v: DynSpec) -> bool {
        text_list_decodable(v)
    }

    open spec fn decodes_to(v: DynSpec, t: Self) -> bool {
        v == DynSpec::Arr(texts_view(t.paths@))
    }

    proof fn lemma_round_trip(&self) {
        assert forall|other: Self|
            Self::decodes_to(self.enc(), other) implies other.enc() == self.enc() by {
            assert(texts_view(other.paths@) == texts_view(self.paths@));
        }
    }

    fn encode_dyn(&self) -> (r: Result<DynamicValue, MarshalError>) {
        Ok(text_list_value(&self.paths))
    }

    fn decode_dyn(v: &DynamicValue) -> (r: Result<Self, MarshalError>) {
        let paths = v.to_text_list()?;
        Ok(SelectionChangeEvent { paths })
    }
}


/// Element path result.
#[derive(Debug, Clone, PartialEq)]
pub struct PathResult {
    pub path: String,
}

impl DynCodec for PathResult {
    open spec fn enc_wf(&self) -> bool {
        true
    }

    open spec fn enc(&self) -> DynSpec {
        DynSpec::Obj(seq![("path"@, DynSpec::Text(self.path@))])
    }

    open spec fn decodable(v: DynSpec) -> bool {
        v matches DynSpec::Obj(fs) && obj_get(fs, "path"@) matches Some(d) && d is Text
    }

    open spec fn decodes_to(v: DynSpec, t: Self) -> bool {
        v matches DynSpec::Obj(fs) && obj_get(fs, "path"@) == Some(DynSpec::Text(t.path@))
    }

    proof fn lemma_round_trip(&self) {
        let fs = seq![("path"@, DynSpec::Text(self.path@))];
        assert(obj_get(fs, "path"@) == Some(DynSpec::Text(self.path@)));
    }

    fn encode_dyn(&self) -> (r: Result<DynamicValue, MarshalError>) {
        let mut fields: Vec<(String, DynamicValue)> = Vec::new();
        proof {
            assert(dyn_fields_view(fields@) =~= Seq::<(Seq<char>, DynSpec)>::empty());
        }
        crate::codec::push_field(&mut fields, "path", string_value(&self.path));
        let d = DynamicValue::Object(fields);
        proof {
            assert(d@ =~~= self.enc());
        }
        Ok(d)
    }

    fn decode_dyn(v: &DynamicValue) -> (r: Result<Self, MarshalError>) {
        let fields = v.as_object()?;
        let path = get_text_field(fields, "path")?;
        Ok(PathResult { path })
    }
}

/// Element URN result.
#[derive(Debug, Clone, PartialEq)]
pub struct UrnResult {
    pub urn: String,
}

impl DynCodec for UrnResult {
    open spec fn enc_wf(&self) -> bool {
        true
    }

    open spec fn enc(&self) -> DynSpec {
        DynSpec::Obj(seq![("urn"@, DynSpec::Text(self.urn@))])
    }

    open spec fn decodable(v: DynSpec) -> bool {
        v matches DynSpec::Obj(fs) && obj_get(fs, "urn"@) matches Some(d) && d is Text
    }

    open spec fn decodes_to(v: DynSpec, t: Self) -> bool {
        v matches DynSpec::Obj(fs) && obj_get(fs, "urn"@) == Some(DynSpec::Text(t.urn@))
    }

    proof fn lemma_round_trip(&self) {
        let fs = seq![("urn"@, DynSpec::Text(self.urn@))];
        assert(obj_get(fs, "urn"@) == Some(DynSpec::Text(self.urn@)));
    }

    fn encode_dyn(&self) -> (r: Result<DynamicValue, MarshalError>) {
        let mut fields: Vec<(String, DynamicValue)> = Vec::new();
        proof {
            assert(dyn_fields_view(fields@) =~= Seq::<(Seq<char>, DynSpec)>::empty());
        }
        crate::codec::push_field(&mut fields, "urn", string_value(&self.urn));
        let d = DynamicValue::Object(fields);
        proof {
            assert(d@ =~~= self.enc());
        }
        Ok(d)
    }

    fn decode_dyn(v: &DynamicValue) -> (r: Result<Self, MarshalError>) {
        let fields = v.as_object()?;
        let urn = get_text_field(fields, "urn")?;
        Ok(UrnResult { urn })
    }
}

/// Sets the sun study date.
#[derive(Debug, Clone, PartialEq)]
pub struct SunDateRequest {
    pub date: String,
}

impl DynCodec for SunDateRequest {
    open spec fn enc_wf(&self) -> bool {
        true
    }

    open spec fn enc(&self) -> DynSpec {
        DynSpec::Obj(seq![("date"@, DynSpec::Text(self.date@))])
    }

    open spec fn decodable(v: DynSpec) -> bool {
        v matches DynSpec::Obj(fs) && obj_get(fs, "date"@) matches Some(d) && d is Text
    }

    open spec fn decodes_to(v: DynSpec, t: Self) -> bool {
        v matches DynSpec::Obj(fs) && obj_get(fs, "date"@) == Some(DynSpec::Text(t.date@))
    }

    proof fn lemma_round_trip(&self) {
        let fs = seq![("date"@, DynSpec::Text(self.date@))];
        assert(obj_get(fs, "date"@) == Some(DynSpec::Text(self.date@)));
    }

    fn encode_dyn(&self) -> (r: Result<DynamicValue, MarshalError>) {
        let mut fields: Vec<(String, DynamicValue)> = Vec::new();
        proof {
            assert(dyn_fields_view(fields@) =~= Seq::<(Seq<char>, DynSpec)>::empty());
        }
        crate::codec::push_field(&mut fields, "date", string_value(&self.date));
        let d = DynamicValue::Object(fields);
        proof {
            assert(d@ =~~= self.enc());
        }
        Ok(d)
    }

    fn decode_dyn(v: &DynamicValue) -> (r: Result<Self, MarshalError>) {
        let fields = v.as_object()?;
        let date = get_text_field(fields, "date")?;
        Ok(SunDateRequest { date })
    }
}

/// Triggers a sun analysis for a date.
#[derive(Debug, Clone, PartialEq)]
pub struct TriggerSunRequest {
    pub date: String,
}

impl DynCodec for TriggerSunRequest {
    open spec fn enc_wf(&self) -> bool {
        true
    }

    open spec fn enc(&self) -> DynSpec {
        DynSpec::Obj(seq![("date"@, DynSpec::Text(self.date@))])
    }

    open spec fn decodable(v: DynSpec) -> bool {
        v matches DynSpec::Obj(fs) && obj_get(fs, "date"@) matches Some(d) && d is Text
    }

    open spec fn decodes_to(v: DynSpec, t: Self) -> bool {
        v matches DynSpec::Obj(fs) && obj_get(fs, "date"@) == Some(DynSpec::Text(t.date@))
    }

    proof fn lemma_round_trip(&self) {
        let fs = seq![("date"@, DynSpec::Text(self.date@))];
        assert(obj_get(fs, "date"@) == Some(DynSpec::Text(self.date@)));
    }

    fn encode_dyn(&self) -> (r: Result<DynamicValue, MarshalError>) {
        let mut fields: Vec<(String, DynamicValue)> = Vec::new();
        proof {
            assert(dyn_fields_view(fields@) =~= Seq::<(Seq<char>, DynSpec)>::empty());
        }
        crate::codec::push_field(&mut fields, "date", string_value(&self.date));
        let d = DynamicValue::Object(fields);
        proof {
            assert(d@ =~~= self.enc());
        }
        Ok(d)
    }

    fn decode_dyn(v: &DynamicValue) -> (r: Result<Self, MarshalError>) {
        let fields = v.as_object()?;
        let date = get_text_field(fields, "date")?;
        Ok(TriggerSunRequest { date })
    }
}

/// Fetches an analysis by its identifier.
#[derive(Debug, Clone, PartialEq)]
pub struct GetAnalysisRequest {
    pub id: String,
}

impl DynCodec for GetAnalysisRequest {
    open spec fn enc_wf(&self) -> bool {
        true
    }

    open spec fn enc(&self) -> DynSpec {
        DynSpec::Obj(seq![("id"@, DynSpec::Text(self.id@))])
    }

    open spec fn decodable(v: DynSpec) -> bool {
        v matches DynSpec::Obj(fs) && obj_get(fs, "id"@) matches Some(d) && d is Text
    }

    open spec fn decodes_to(v: DynSpec, t: Self) -> bool {
        v matches DynSpec::Obj(fs) && obj_get(fs, "id"@) == Some(DynSpec::Text(t.id@))
    }

    proof fn lemma_round_trip(&self) {
        let fs = seq![("id"@, DynSpec::Text(self.id@))];
        assert(obj_get(fs, "id"@) == Some(DynSpec::Text(self.id@)));
    }

    fn encode_dyn(&self) -> (r: Result<DynamicValue, MarshalError>) {
        let mut fields: Vec<(String, DynamicValue)> = Vec::new();
        proof {
            assert(dyn_fields_view(fields@) =~= Seq::<(Seq<char>, DynSpec)>::empty());
        }
        crate::codec::push_field(&mut fields, "id", string_value(&self.id));
        let d = DynamicValue::Object(fields);
        proof {
            assert(d@ =~~= self.enc());
        }
        Ok(d)
    }

    fn decode_dyn(v: &DynamicValue) -> (r: Result<Self, MarshalError>) {
        let fields = v.as_object()?;
        let id = get_text_field(fields, "id")?;
        Ok(GetAnalysisRequest { id })
    }
}

/// Fetches the ground grid of an analysis.
#[derive(Debug, Clone, PartialEq)]
pub struct GetGroundGridRequest {
    pub id: String,
}

impl DynCodec for GetGroundGridRequest {
    open spec fn enc_wf(&self) -> bool {
        true
    }

    open spec fn enc(&self) -> DynSpec {
        DynSpec::Obj(seq![("id"@, DynSpec::Text(self.id@))])
    }

    open spec fn decodable(v: DynSpec) -> bool {
        v matches DynSpec::Obj(fs) && obj_get(fs, "id"@) matches Some(d) && d is Text
    }

    open spec fn decodes_to(v: DynSpec, t: Self) -> bool {
        v matches DynSpec::Obj(fs) && obj_get(fs, "id"@) == Some(DynSpec::Text(t.id@))
    }

    proof fn lemma_round_trip(&self) {
        let fs = seq![("id"@, DynSpec::Text(self.id@))];
        assert(obj_get(fs, "id"@) == Some(DynSpec::Text(self.id@)));
    }

    fn encode_dyn(&self) -> (r: Result<DynamicValue, MarshalError>) {
        let mut fields: Vec<(String, DynamicValue)> = Vec::new();
        proof {
            assert(dyn_fields_view(fields@) =~= Seq::<(Seq<char>, DynSpec)>::empty());
        }
        crate::codec::push_field(&mut fields, "id", string_value(&self.id));
        let d = DynamicValue::Object(fields);
        proof {
            assert(d@ =~~= self.enc());
        }
        Ok(d)
    }

    fn decode_dyn(v: &DynamicValue) -> (r: Result<Self, MarshalError>) {
        let fields = v.as_object()?;
        let id = get_text_field(fields, "id")?;
        Ok(GetGroundGridRequest { id })
    }
}

/// Removes a ground texture.
#[derive(Debug, Clone, PartialEq)]
pub struct GroundTextureRemoveRequest {
    pub id: String,
}

impl DynCodec for GroundTextureRemoveRequest {
    open spec fn enc_wf(&self) -> bool {
        true
    }

    open spec fn enc(&self) -> DynSpec {
        DynSpec::Obj(seq![("id"@, DynSpec::Text(self.id@))])
    }

    open spec fn decodable(v: DynSpec) -> bool {
        v matches DynSpec::Obj(fs) && obj_get(fs, "id"@) matches Some(d) && d is Text
    }

    open spec fn decodes_to(v: DynSpec, t: Self) -> bool {
        v matches DynSpec::Obj(fs) && obj_get(fs, "id"@) == Some(DynSpec::Text(t.id@))
    }

    proof fn lemma_round_trip(&self) {
        let fs = seq![("id"@, DynSpec::Text(self.id@))];
        assert(obj_get(fs, "id"@) == Some(DynSpec::Text(self.id@)));
    }

    fn encode_dyn(&self) -> (r: Result<DynamicValue, MarshalError>) {
        let mut fields: Vec<(String, DynamicValue)> = Vec::new();
        proof {
            assert(dyn_fields_view(fields@) =~= Seq::<(Seq<char>, DynSpec)>::empty());
        }
        crate::codec::push_field(&mut fields, "id", string_value(&self.id));
        let d = DynamicValue::Object(fields);
        proof {
            assert(d@ =~~= self.enc());
        }
        Ok(d)
    }

    fn decode_dyn(v: &DynamicValue) -> (r: Result<Self, MarshalError>) {
        let fields = v.as_object()?;
        let id = get_text_field(fields, "id")?;
        Ok(GroundTextureRemoveRequest { id })
    }
}

/// Deletes a library item.
#[derive(Debug, Clone, PartialEq)]
pub struct LibraryDeleteItemRequest {
    pub id: String,
}

impl DynCodec for LibraryDeleteItemRequest {
    open spec fn enc_wf(&self) -> bool {
        true
    }

    open spec fn enc(&self) -> DynSpec {
        DynSpec::Obj(seq![("id"@, DynSpec::Text(self.id@))])
    }

    open spec fn decodable(v: DynSpec) -> bool {
        v matches DynSpec::Obj(fs) && obj_get(fs, "id"@) matches Some(d) && d is Text
    }

    open spec fn decodes_to(v: DynSpec, t: Self) -> bool {
        v matches DynSpec::Obj(fs) && obj_get(fs, "id"@) == Some(DynSpec::Text(t.id@))
    }

    proof fn lemma_round_trip(&self) {
        let fs = seq![("id"@, DynSpec::Text(self.id@))];
        assert(obj_get(fs, "id"@) == Some(DynSpec::Text(self.id@)));
    }

    fn encode_dyn(&self) -> (r: Result<DynamicValue, MarshalError>) {
        let mut fields: Vec<(String, DynamicValue)> = Vec::new();
        proof {
            assert(dyn_fields_view(fields@) =~= Seq::<(Seq<char>, DynSpec)>::empty());
        }
        crate::codec::push_field(&mut fields, "id", string_value(&self.id));
        let d = DynamicValue::Object(fields);
        proof {
            assert(d@ =~~= self.enc());
        }
        Ok(d)
    }

    fn decode_dyn(v: &DynamicValue) -> (r: Result<Self, MarshalError>) {
        let fields = v.as_object()?;
        let id = get_text_field(fields, "id")?;
        Ok(LibraryDeleteItemRequest { id })
    }
}

/// Fetches a stored blob by its identifier.
#[derive(Debug, Clone, PartialEq)]
pub struct BlobGetRequest {
    pub id: String,
}

impl DynCodec for BlobGetRequest {
    open spec fn enc_wf(&self) -> bool {
        true
    }

    open spec fn enc(&self) -> DynSpec {
        DynSpec::Obj(seq![("id"@, DynSpec::Text(self.id@))])
    }

    open spec fn decodable(v: DynSpec) -> bool {
        v matches DynSpec::Obj(fs) && obj_get(fs, "id"@) matches Some(d) && d is Text
    }

    open spec fn decodes_to(v: DynSpec, t: Self) -> bool {
        v matches DynSpec::Obj(fs) && obj_get(fs, "id"@) == Some(DynSpec::Text(t.id@))
    }

    proof fn lemma_round_trip(&self) {
        let fs = seq![("id"@, DynSpec::Text(self.id@))];
        assert(obj_get(fs, "id"@) == Some(DynSpec::Text(self.id@)));
    }

    fn encode_dyn(&self) -> (r: Result<DynamicValue, MarshalError>) {
        let mut fields: Vec<(String, DynamicValue)> = Vec::new();
        proof {
            assert(dyn_fields_view(fields@) =~= Seq::<(Seq<char>, DynSpec)>::empty());
        }
        crate::codec::push_field(&mut fields, "id", string_value(&self.id));
        let d = DynamicValue::Object(fields);
        proof {
            assert(d@ =~~= self.enc());
        }
        Ok(d)
    }

    fn decode_dyn(v: &DynamicValue) -> (r: Result<Self, MarshalError>) {
        let fields = v.as_object()?;
        let id = get_text_field(fields, "id")?;
        Ok(BlobGetRequest { id })
    }
}

/// Creates a new proposal.
#[derive(Debug, Clone, PartialEq)]
pub struct ProposalCreateRequest {
    pub name: String,
}

impl DynCodec for ProposalCreateRequest {
    open spec fn enc_wf(&self) -> bool {
        true
    }

    open spec fn enc(&self) -> DynSpec {
        DynSpec::Obj(seq![("name"@, DynSpec::Text(self.name@))])
    }

    open spec fn decodable(v: DynSpec) -> bool {
        v matches DynSpec::Obj(fs) && obj_get(fs, "name"@) matches Some(d) && d is Text
    }

    open spec fn decodes_to(v: DynSpec, t: Self) -> bool {
        v matches DynSpec::Obj(fs) && obj_get(fs, "name"@) == Some(DynSpec::Text(t.name@))
    }

    proof fn lemma_round_trip(&self) {
        let fs = seq![("name"@, DynSpec::Text(self.name@))];
        assert(obj_get(fs, "name"@) == Some(DynSpec::Text(self.name@)));
    }

    fn encode_dyn(&self) -> (r: Result<DynamicValue, MarshalError>) {
        let mut fields: Vec<(String, DynamicValue)> = Vec::new();
        proof {
            assert(dyn_fields_view(fields@) =~= Seq::<(Seq<char>, DynSpec)>::empty());
        }
        crate::codec::push_field(&mut fields, "name", string_value(&self.name));
        let d = DynamicValue::Object(fields);
        proof {
            assert(d@ =~~= self.enc());
        }
        Ok(d)
    }

    fn decode_dyn(v: &DynamicValue) -> (r: Result<Self, MarshalError>) {
        let fields = v.as_object()?;
        let name = get_text_field(fields, "name")?;
        Ok(ProposalCreateRequest { name })
    }
}

/// Deletes a proposal.
#[derive(Debug, Clone, PartialEq)]
pub struct ProposalDeleteRequest {
    pub id: String,
}

impl DynCodec for ProposalDeleteRequest {
    open spec fn enc_wf(&self) -> bool {
        true
    }

    open spec fn enc(&self) -> DynSpec {
        DynSpec::Obj(seq![("id"@, DynSpec::Text(self.id@))])
    }

    open spec fn decodable(v: DynSpec) -> bool {
        v matches DynSpec::Obj(fs) && obj_get(fs, "id"@) matches Some(d) && d is Text
    }

    open spec fn decodes_to(v: DynSpec, t: Self) -> bool {
        v matches DynSpec::Obj(fs) && obj_get(fs, "id"@) == Some(DynSpec::Text(t.id@))
    }

    proof fn lemma_round_trip(&self) {
        let fs = seq![("id"@, DynSpec::Text(self.id@))];
        assert(obj_get(fs, "id"@) == Some(DynSpec::Text(self.id@)));
    }

    fn encode_dyn(&self) -> (r: Result<DynamicValue, MarshalError>) {
        let mut fields: Vec<(String, DynamicValue)> = Vec::new();
        proof {
            assert(dyn_fields_view(fields@) =~= Seq::<(Seq<char>, DynSpec)>::empty());
        }
        crate::codec::push_field(&mut fields, "id", string_value(&self.id));
        let d = DynamicValue::Object(fields);
        proof {
            assert(d@ =~~= self.enc());
        }
        Ok(d)
    }

    fn decode_dyn(v: &DynamicValue) -> (r: Result<Self, MarshalError>) {
        let fields = v.as_object()?;
        let id = get_text_field(fields, "id")?;
        Ok(ProposalDeleteRequest { id })
    }
}

/// Duplicates a proposal.
#[derive(Debug, Clone, PartialEq)]
pub struct ProposalDuplicateRequest {
    pub id: String,
}

impl DynCodec for ProposalDuplicateRequest {
    open spec fn enc_wf(&self) -> bool {
        true
    }

    open spec fn enc(&self) -> DynSpec {
        DynSpec::Obj(seq![("id"@, DynSpec::Text(self.id@))])
    }

    open spec fn decodable(v: DynSpec) -> bool {
        v matches DynSpec::Obj(fs) && obj_get(fs, "id"@) matches Some(d) && d is Text
    }

    open spec fn decodes_to(v: DynSpec, t: Self) -> bool {
        v matches DynSpec::Obj(fs) && obj_get(fs, "id"@) == Some(DynSpec::Text(t.id@))
    }

    proof fn lemma_round_trip(&self) {
        let fs = seq![("id"@, DynSpec::Text(self.id@))];
        assert(obj_get(fs, "id"@) == Some(DynSpec::Text(self.id@)));
    }

    fn encode_dyn(&self) -> (r: Result<DynamicValue, MarshalError>) {
        let mut fields: Vec<(String, DynamicValue)> = Vec::new();
        proof {
            assert(dyn_fields_view(fields@) =~= Seq::<(Seq<char>, DynSpec)>::empty());
        }
        crate::codec::push_field(&mut fields, "id", string_value(&self.id));
        let d = DynamicValue::Object(fields);
        proof {
            assert(d@ =~~= self.enc());
        }
        Ok(d)
    }

    fn decode_dyn(v: &DynamicValue) -> (r: Result<Self, MarshalError>) {
        let fields = v.as_object()?;
        let id = get_text_field(fields, "id")?;
        Ok(ProposalDuplicateRequest { id })
    }
}

/// Switches to another proposal.
#[derive(Debug, Clone, PartialEq)]
pub struct ProposalSwitchRequest {
    pub id: String,
}

impl DynCodec for ProposalSwitchRequest {
    open spec fn enc_wf(&self) -> bool {
        true
    }

    open spec fn enc(&self) -> DynSpec {
        DynSpec::Obj(seq![("id"@, DynSpec::Text(self.id@))])
    }

    open spec fn decodable(v: DynSpec) -> bool {
        v matches DynSpec::Obj(fs) && obj_get(fs, "id"@) matches Some(d) && d is Text
    }

    open spec fn decodes_to(v: DynSpec, t: Self) -> bool {
        v matches DynSpec::Obj(fs) && obj_get(fs, "id"@) == Some(DynSpec::Text(t.id@))
    }

    proof fn lemma_round_trip(&self) {
        let fs = seq![("id"@, DynSpec::Text(self.id@))];
        assert(obj_get(fs, "id"@) == Some(DynSpec::Text(self.id@)));
    }

    fn encode_dyn(&self) -> (r: Result<DynamicValue, MarshalError>) {
        let mut fields: Vec<(String, DynamicValue)> = Vec::new();
        proof {
            assert(dyn_fields_view(fields@) =~= Seq::<(Seq<char>, DynSpec)>::empty());
        }
        crate::codec::push_field(&mut fields, "id", string_value(&self.id));
        let d = DynamicValue::Object(fields);
        proof {
            assert(d@ =~~= self.enc());
        }
        Ok(d)
    }

    fn decode_dyn(v: &DynamicValue) -> (r: Result<Self, MarshalError>) {
        let fields = v.as_object()?;
        let id = get_text_field(fields, "id")?;
        Ok(ProposalSwitchRequest { id })
    }
}

/// Removes an element from the proposal.
#[derive(Debug, Clone, PartialEq)]
pub struct ProposalRemoveElementRequest {
    pub path: String,
}

impl DynCodec for ProposalRemoveElementRequest {
    open spec fn enc_wf(&self) -> bool {
        true
    }

    open spec fn enc(&self) -> DynSpec {
        DynSpec::Obj(seq![("path"@, DynSpec::Text(self.path@))])
    }

    open spec fn decodable(v: DynSpec) -> bool {
        v matches DynSpec::Obj(fs) && obj_get(fs, "path"@) matches Some(d) && d is Text
    }

    open spec fn decodes_to(v: DynSpec, t: Self) -> bool {
        v matches DynSpec::Obj(fs) && obj_get(fs, "path"@) == Some(DynSpec::Text(t.path@))
    }

    proof fn lemma_round_trip(&self) {
        let fs = seq![("path"@, DynSpec::Text(self.path@))];
        assert(obj_get(fs, "path"@) == Some(DynSpec::Text(self.path@)));
    }

    fn encode_dyn(&self) -> (r: Result<DynamicValue, MarshalError>) {
        let mut fields: Vec<(String, DynamicValue)> = Vec::new();
        proof {
            assert(dyn_fields_view(fields@) =~= Seq::<(Seq<char>, DynSpec)>::empty());
        }
        crate::codec::push_field(&mut fields, "path", string_value(&self.path));
        let d = DynamicValue::Object(fields);
        proof {
            assert(d@ =~~= self.enc());
        }
        Ok(d)
    }

    fn decode_dyn(v: &DynamicValue) -> (r: Result<Self, MarshalError>) {
        let fields = v.as_object()?;
        let path = get_text_field(fields, "path")?;
        Ok(ProposalRemoveElementRequest { path })
    }
}

/// Replaces the proposal's terrain.
#[derive(Debug, Clone, PartialEq)]
pub struct ProposalReplaceTerrainRequest {
    pub urn: String,
}

impl DynCodec for ProposalReplaceTerrainRequest {
    open spec fn enc_wf(&self) -> bool {
        true
    }

    open spec fn enc(&self) -> DynSpec {
        DynSpec::Obj(seq![("urn"@, DynSpec::Text(self.urn@))])
    }

    open spec fn decodable(v: DynSpec) -> bool {
        v matches DynSpec::Obj(fs) && obj_get(fs, "urn"@) matches Some(d) && d is Text
    }

    open spec fn decodes_to(v: DynSpec, t: Self) -> bool {
        v matches DynSpec::Obj(fs) && obj_get(fs, "urn"@) == Some(DynSpec::Text(t.urn@))
    }

    proof fn lemma_round_trip(&self) {
        let fs = seq![("urn"@, DynSpec::Text(self.urn@))];
        assert(obj_get(fs, "urn"@) == Some(DynSpec::Text(self.urn@)));
    }

    fn encode_dyn(&self) -> (r: Result<DynamicValue, MarshalError>) {
        let mut fields: Vec<(String, DynamicValue)> = Vec::new();
        proof {
            assert(dyn_fields_view(fields@) =~= Seq::<(Seq<char>, DynSpec)>::empty());
        }
        crate::codec::push_field(&mut fields, "urn", string_value(&self.urn));
        let d = DynamicValue::Object(fields);
        proof {
            assert(d@ =~~= self.enc());
        }
        Ok(d)
    }

    fn decode_dyn(v: &DynamicValue) -> (r: Result<Self, MarshalError>) {
        let fields = v.as_object()?;
        let urn = get_text_field(fields, "urn")?;
        Ok(ProposalReplaceTerrainRequest { urn })
    }
}

/// Hides or unhides one element.
#[derive(Debug, Clone, PartialEq)]
pub struct ElementVisibilityRequest {
    pub path: String,
}

impl DynCodec for ElementVisibilityRequest {
    open spec fn enc_wf(&self) -> bool {
        true
    }

    open spec fn enc(&self) -> DynSpec {
        DynSpec::Obj(seq![("path"@, DynSpec::Text(self.path@))])
    }

    open spec fn decodable(v: DynSpec) -> bool {
        v matches DynSpec::Obj(fs) && obj_get(fs, "path"@) matches Some(d) && d is Text
    }

    open spec fn decodes_to(v: DynSpec, t: Self) -> bool {
        v matches DynSpec::Obj(fs) && obj_get(fs, "path"@) == Some(DynSpec::Text(t.path@))
    }

    proof fn lemma_round_trip(&self) {
        let fs = seq![("path"@, DynSpec::Text(self.path@))];
        assert(obj_get(fs, "path"@) == Some(DynSpec::Text(self.path@)));
    }

    fn encode_dyn(&self) -> (r: Result<DynamicValue, MarshalError>) {
        let mut fields: Vec<(String, DynamicValue)> = Vec::new();
        proof {
            assert(dyn_fields_view(fields@) =~= Seq::<(Seq<char>, DynSpec)>::empty());
        }
        crate::codec::push_field(&mut fields, "path", string_value(&self.path));
        let d = DynamicValue::Object(fields);
        proof {
            assert(d@ =~~= self.enc());
        }
        Ok(d)
    }

    fn decode_dyn(v: &DynamicValue) -> (r: Result<Self, MarshalError>) {
        let fields = v.as_object()?;
        let path = get_text_field(fields, "path")?;
        Ok(ElementVisibilityRequest { path })
    }
}

/// Lists element paths in a category.
#[derive(Debug, Clone, PartialEq)]
pub struct GetPathsByCategoryRequest {
    pub category: String,
}

impl DynCodec for GetPathsByCategoryRequest {
    open spec fn enc_wf(&self) -> bool {
        true
    }

    open spec fn enc(&self) -> DynSpec {
        DynSpec::Obj(seq![("category"@, DynSpec::Text(self.category@))])
    }

    open spec fn decodable(v: DynSpec) -> bool {
        v matches DynSpec::Obj(fs) && obj_get(fs, "category"@) matches Some(d) && d is Text
    }

    open spec fn decodes_to(v: DynSpec, t: Self) -> bool {
        v matches DynSpec::Obj(fs) && obj_get(fs, "category"@) == Some(DynSpec::Text(t.category@))
    }

    proof fn lemma_round_trip(&self) {
        let fs = seq![("category"@, DynSpec::Text(self.category@))];
        assert(obj_get(fs, "category"@) == Some(DynSpec::Text(self.category@)));
    }

    fn encode_dyn(&self) -> (r: Result<DynamicValue, MarshalError>) {
        let mut fields: Vec<(String, DynamicValue)> = Vec::new();
        proof {
            assert(dyn_fields_view(fields@) =~= Seq::<(Seq<char>, DynSpec)>::empty());
        }
        crate::codec::push_field(&mut fields, "category", string_value(&self.category));
        let d = DynamicValue::Object(fields);
        proof {
            assert(d@ =~~= self.enc());
        }
        Ok(d)
    }

    fn decode_dyn(v: &DynamicValue) -> (r: Result<Self, MarshalError>) {
        let fields = v.as_object()?;
        let category = get_text_field(fields, "category")?;
        Ok(GetPathsByCategoryRequest { category })
    }
}

/// Fetches the footprint of an element.
#[derive(Debug, Clone, PartialEq)]
pub struct GetFootprintRequest {
    pub path: String,
}

impl DynCodec for GetFootprintRequest {
    open spec fn enc_wf(&self) -> bool {
        true
    }

    open spec fn enc(&self) -> DynSpec {
        DynSpec::Obj(seq![("path"@, DynSpec::Text(self.path@))])
    }

    open spec fn decodable(v: DynSpec) -> bool {
        v matches DynSpec::Obj(fs) && obj_get(fs, "path"@) matches Some(d) && d is Text
    }

    open spec fn decodes_to(v: DynSpec, t: Self) -> bool {
        v matches DynSpec::Obj(fs) && obj_get(fs, "path"@) == Some(DynSpec::Text(t.path@))
    }

    proof fn lemma_round_trip(&self) {
        let fs = seq![("path"@, DynSpec::Text(self.path@))];
        assert(obj_get(fs, "path"@) == Some(DynSpec::Text(self.path@)));
    }

    fn encode_dyn(&self) -> (r: Result<DynamicValue, MarshalError>) {
        let mut fields: Vec<(String, DynamicValue)> = Vec::new();
        proof {
            assert(dyn_fields_view(fields@) =~= Seq::<(Seq<char>, DynSpec)>::empty());
        }
        crate::codec::push_field(&mut fields, "path", string_value(&self.path));
        let d = DynamicValue::Object(fields);
        proof {
            assert(d@ =~~= self.enc());
        }
        Ok(d)
    }

    fn decode_dyn(v: &DynamicValue) -> (r: Result<Self, MarshalError>) {
        let fields = v.as_object()?;
        let path = get_text_field(fields, "path")?;
        Ok(GetFootprintRequest { path })
    }
}

/// Fetches the triangle mesh of an element.
#[derive(Debug, Clone, PartialEq)]
pub struct GetTrianglesRequest {
    pub path: String,
}

impl DynCodec for GetTrianglesRequest {
    open spec fn enc_wf(&self) -> bool {
        true
    }

    open spec fn enc(&self) -> DynSpec {
        DynSpec::Obj(seq![("path"@, DynSpec::Text(self.path@))])
    }

    open spec fn decodable(v: DynSpec) -> bool {
        v matches DynSpec::Obj(fs) && obj_get(fs, "path"@) matches Some(d) && d is Text
    }

    open spec fn decodes_to(v: DynSpec, t: Self) -> bool {
        v matches DynSpec::Obj(fs) && obj_get(fs, "path"@) == Some(DynSpec::Text(t.path@))
    }

    proof fn lemma_round_trip(&self) {
        let fs = seq![("path"@, DynSpec::Text(self.path@))];
        assert(obj_get(fs, "path"@) == Some(DynSpec::Text(self.path@)));
    }

    fn encode_dyn(&self) -> (r: Result<DynamicValue, MarshalError>) {
        let mut fields: Vec<(String, DynamicValue)> = Vec::new();
        proof {
            assert(dyn_fields_view(fields@) =~= Seq::<(Seq<char>, DynSpec)>::empty());
        }
        crate::codec::push_field(&mut fields, "path", string_value(&self.path));
        let d = DynamicValue::Object(fields);
        proof {
            assert(d@ =~~= self.enc());
        }
        Ok(d)
    }

    fn decode_dyn(v: &DynamicValue) -> (r: Result<Self, MarshalError>) {
        let fields = v.as_object()?;
        let path = get_text_field(fields, "path")?;
        Ok(GetTrianglesRequest { path })
    }
}

/// Fetches an element by URN.
#[derive(Debug, Clone, PartialEq)]
pub struct GetElementRequest {
    pub urn: String,
}

impl DynCodec for GetElementRequest {
    open spec fn enc_wf(&self) -> bool {
        true
    }

    open spec fn enc(&self) -> DynSpec {
        DynSpec::Obj(seq![("urn"@, DynSpec::Text(self.urn@))])
    }

    open spec fn decodable(v: DynSpec) -> bool {
        v matches DynSpec::Obj(fs) && obj_get(fs, "urn"@) matches Some(d) && d is Text
    }

    open spec fn decodes_to(v: DynSpec, t: Self) -> bool {
        v matches DynSpec::Obj(fs) && obj_get(fs, "urn"@) == Some(DynSpec::Text(t.urn@))
    }

    proof fn lemma_round_trip(&self) {
        let fs = seq![("urn"@, DynSpec::Text(self.urn@))];
        assert(obj_get(fs, "urn"@) == Some(DynSpec::Text(self.urn@)));
    }

    fn encode_dyn(&self) -> (r: Result<DynamicValue, MarshalError>) {
        let mut fields: Vec<(String, DynamicValue)> = Vec::new();
        proof {
            assert(dyn_fields_view(fields@) =~= Seq::<(Seq<char>, DynSpec)>::empty());
        }
        crate::codec::push_field(&mut fields, "urn", string_value(&self.urn));
        let d = DynamicValue::Object(fields);
        proof {
            assert(d@ =~~= self.enc());
        }
        Ok(d)
    }

    fn decode_dyn(v: &DynamicValue) -> (r: Result<Self, MarshalError>) {
        let fields = v.as_object()?;
        let urn = get_text_field(fields, "urn")?;
        Ok(GetElementRequest { urn })
    }
}

/// Fetches an element by path.
#[derive(Debug, Clone, PartialEq)]
pub struct GetElementByPathRequest {
    pub path: String,
}

impl DynCodec for GetElementByPathRequest {
    open spec fn enc_wf(&self) -> bool {
        true
    }

    open spec fn enc(&self) -> DynSpec {
        DynSpec::Obj(seq![("path"@, DynSpec::Text(self.path@))])
    }

    open spec fn decodable(v: DynSpec) -> bool {
        v matches DynSpec::Obj(fs) && obj_get(fs, "path"@) matches Some(d) && d is Text
    }

    open spec fn decodes_to(v: DynSpec, t: Self) -> bool {
        v matches DynSpec::Obj(fs) && obj_get(fs, "path"@) == Some(DynSpec::Text(t.path@))
    }

    proof fn lemma_round_trip(&self) {
        let fs = seq![("path"@, DynSpec::Text(self.path@))];
        assert(obj_get(fs, "path"@) == Some(DynSpec::Text(self.path@)));
    }

    fn encode_dyn(&self) -> (r: Result<DynamicValue, MarshalError>) {
        let mut fields: Vec<(String, DynamicValue)> = Vec::new();
        proof {
            assert(dyn_fields_view(fields@) =~= Seq::<(Seq<char>, DynSpec)>::empty());
        }
        crate::codec::push_field(&mut fields, "path", string_value(&self.path));
        let d = DynamicValue::Object(fields);
        proof {
            assert(d@ =~~= self.enc());
        }
        Ok(d)
    }

    fn decode_dyn(v: &DynamicValue) -> (r: Result<Self, MarshalError>) {
        let fields = v.as_object()?;
        let path = get_text_field(fields, "path")?;
        Ok(GetElementByPathRequest { path })
    }
}

/// Fetches an element's world transform.
#[derive(Debug, Clone, PartialEq)]
pub struct GetWorldTransformRequest {
    pub path: String,
}

impl DynCodec for GetWorldTransformRequest {
    open spec fn enc_wf(&self) -> bool {
        true
    }

    open spec fn enc(&self) -> DynSpec {
        DynSpec::Obj(seq![("path"@, DynSpec::Text(self.path@))])
    }

    open spec fn decodable(v: DynSpec) -> bool {
        v matches DynSpec::Obj(fs) && obj_get(fs, "path"@) matches Some(d) && d is Text
    }

    open spec fn decodes_to(v: DynSpec, t: Self) -> bool {
        v matches DynSpec::Obj(fs) && obj_get(fs, "path"@) == Some(DynSpec::Text(t.path@))
    }

    proof fn lemma_round_trip(&self) {
        let fs = seq![("path"@, DynSpec::Text(self.path@))];
        assert(obj_get(fs, "path"@) == Some(DynSpec::Text(self.path@)));
    }

    fn encode_dyn(&self) -> (r: Result<DynamicValue, MarshalError>) {
        let mut fields: Vec<(String, DynamicValue)> = Vec::new();
        proof {
            assert(dyn_fields_view(fields@) =~= Seq::<(Seq<char>, DynSpec)>::empty());
        }
        crate::codec::push_field(&mut fields, "path", string_value(&self.path));
        let d = DynamicValue::Object(fields);
        proof {
            assert(d@ =~~= self.enc());
        }
        Ok(d)
    }

    fn decode_dyn(v: &DynamicValue) -> (r: Result<Self, MarshalError>) {
        let fields = v.as_object()?;
        let path = get_text_field(fields, "path")?;
        Ok(GetWorldTransformRequest { path })
    }
}

/// Fetches the volume mesh representation.
#[derive(Debug, Clone, PartialEq)]
pub struct VolumeMeshRequest {
    pub urn: String,
}

impl DynCodec for VolumeMeshRequest {
    open spec fn enc_wf(&self) -> bool {
        true
    }

    open spec fn enc(&self) -> DynSpec {
        DynSpec::Obj(seq![("urn"@, DynSpec::Text(self.urn@))])
    }

    open spec fn decodable(v: DynSpec) -> bool {
        v matches DynSpec::Obj(fs) && obj_get(fs, "urn"@) matches Some(d) && d is Text
    }

    open spec fn decodes_to(v: DynSpec, t: Self) -> bool {
        v matches DynSpec::Obj(fs) && obj_get(fs, "urn"@) == Some(DynSpec::Text(t.urn@))
    }

    proof fn lemma_round_trip(&self) {
        let fs = seq![("urn"@, DynSpec::Text(self.urn@))];
        assert(obj_get(fs, "urn"@) == Some(DynSpec::Text(self.urn@)));
    }

    fn encode_dyn(&self) -> (r: Result<DynamicValue, MarshalError>) {
        let mut fields: Vec<(String, DynamicValue)> = Vec::new();
        proof {
            assert(dyn_fields_view(fields@) =~= Seq::<(Seq<char>, DynSpec)>::empty());
        }
        crate::codec::push_field(&mut fields, "urn", string_value(&self.urn));
        let d = DynamicValue::Object(fields);
        proof {
            assert(d@ =~~= self.enc());
        }
        Ok(d)
    }

    fn decode_dyn(v: &DynamicValue) -> (r: Result<Self, MarshalError>) {
        let fields = v.as_object()?;
        let urn = get_text_field(fields, "urn")?;
        Ok(VolumeMeshRequest { urn })
    }
}

/// Fetches the footprint representation.
#[derive(Debug, Clone, PartialEq)]
pub struct RepresentationFootprintRequest {
    pub urn: String,
}

impl DynCodec for RepresentationFootprintRequest {
    open spec fn enc_wf(&self) -> bool {
        true
    }

    open spec fn enc(&self) -> DynSpec {
        DynSpec::Obj(seq![("urn"@, DynSpec::Text(self.urn@))])
    }

    open spec fn decodable(v: DynSpec) -> bool {
        v matches DynSpec::Obj(fs) && obj_get(fs, "urn"@) matches Some(d) && d is Text
    }

    open spec fn decodes_to(v: DynSpec, t: Self) -> bool {
        v matches DynSpec::Obj(fs) && obj_get(fs, "urn"@) == Some(DynSpec::Text(t.urn@))
    }

    proof fn lemma_round_trip(&self) {
        let fs = seq![("urn"@, DynSpec::Text(self.urn@))];
        assert(obj_get(fs, "urn"@) == Some(DynSpec::Text(self.urn@)));
    }

    fn encode_dyn(&self) -> (r: Result<DynamicValue, MarshalError>) {
        let mut fields: Vec<(String, DynamicValue)> = Vec::new();
        proof {
            assert(dyn_fields_view(fields@) =~= Seq::<(Seq<char>, DynSpec)>::empty());
        }
        crate::codec::push_field(&mut fields, "urn", string_value(&self.urn));
        let d = DynamicValue::Object(fields);
        proof {
            assert(d@ =~~= self.enc());
        }
        Ok(d)
    }

    fn decode_dyn(v: &DynamicValue) -> (r: Result<Self, MarshalError>) {
        let fields = v.as_object()?;
        let urn = get_text_field(fields, "urn")?;
        Ok(RepresentationFootprintRequest { urn })
    }
}

/// Fetches the graph building representation.
#[derive(Debug, Clone, PartialEq)]
pub struct GraphBuildingRequest {
    pub urn: String,
}

impl DynCodec for GraphBuildingRequest {
    open spec fn enc_wf(&self) -> bool {
        true
    }

    open spec fn enc(&self) -> DynSpec {
        DynSpec::Obj(seq![("urn"@, DynSpec::Text(self.urn@))])
    }

    open spec fn decodable(v: DynSpec) -> bool {
        v matches DynSpec::Obj(fs) && obj_get(fs, "urn"@) matches Some(d) && d is Text
    }

    open spec fn decodes_to(v: DynSpec, t: Self) -> bool {
        v matches DynSpec::Obj(fs) && obj_get(fs, "urn"@) == Some(DynSpec::Text(t.urn@))
    }

    proof fn lemma_round_trip(&self) {
        let fs = seq![("urn"@, DynSpec::Text(self.urn@))];
        assert(obj_get(fs, "urn"@) == Some(DynSpec::Text(self.urn@)));
    }

    fn encode_dyn(&self) -> (r: Result<DynamicValue, MarshalError>) {
        let mut fields: Vec<(String, DynamicValue)> = Vec::new();
        proof {
            assert(dyn_fields_view(fields@) =~= Seq::<(Seq<char>, DynSpec)>::empty());
        }
        crate::codec::push_field(&mut fields, "urn", string_value(&self.urn));
        let d = DynamicValue::Object(fields);
        proof {
            assert(d@ =~~= self.enc());
        }
        Ok(d)
    }

    fn decode_dyn(v: &DynamicValue) -> (r: Result<Self, MarshalError>) {
        let fields = v.as_object()?;
        let urn = get_text_field(fields, "urn")?;
        Ok(GraphBuildingRequest { urn })
    }
}

/// Fetches string data for a storage key.
#[derive(Debug, Clone, PartialEq)]
pub struct StorageGetTextObjectRequest {
    pub key: String,
}

impl DynCodec for StorageGetTextObjectRequest {
    open spec fn enc_wf(&self) -> bool {
        true
    }

    open spec fn enc(&self) -> DynSpec {
        DynSpec::Obj(seq![("key"@, DynSpec::Text(self.key@))])
    }

    open spec fn decodable(v: DynSpec) -> bool {
        v matches DynSpec::Obj(fs) && obj_get(fs, "key"@) matches Some(d) && d is Text
    }

    open spec fn decodes_to(v: DynSpec, t: Self) -> bool {
        v matches DynSpec::Obj(fs) && obj_get(fs, "key"@) == Some(DynSpec::Text(t.key@))
    }

    proof fn lemma_round_trip(&self) {
        let fs = seq![("key"@, DynSpec::Text(self.key@))];
        assert(obj_get(fs, "key"@) == Some(DynSpec::Text(self.key@)));
    }

    fn encode_dyn(&self) -> (r: Result<DynamicValue, MarshalError>) {
        let mut fields: Vec<(String, DynamicValue)> = Vec::new();
        proof {
            assert(dyn_fields_view(fields@) =~= Seq::<(Seq<char>, DynSpec)>::empty());
        }
        crate::codec::push_field(&mut fields, "key", string_value(&self.key));
        let d = DynamicValue::Object(fields);
        proof {
            assert(d@ =~~= self.enc());
        }
        Ok(d)
    }

    fn decode_dyn(v: &DynamicValue) -> (r: Result<Self, MarshalError>) {
        let fields = v.as_object()?;
        let key = get_text_field(fields, "key")?;
        Ok(StorageGetTextObjectRequest { key })
    }
}

/// Fetches binary data for a storage key.
#[derive(Debug, Clone, PartialEq)]
pub struct StorageGetBinaryObjectRequest {
    pub key: String,
}

impl DynCodec for StorageGetBinaryObjectRequest {
    open spec fn enc_wf(&self) -> bool {
        true
    }

    open spec fn enc(&self) -> DynSpec {
        DynSpec::Obj(seq![("key"@, DynSpec::Text(self.key@))])
    }

    open spec fn decodable(v: DynSpec) -> bool {
        v matches DynSpec::Obj(fs) && obj_get(fs, "key"@) matches Some(d) && d is Text
    }

    open spec fn decodes_to(v: DynSpec, t: Self) -> bool {
        v matches DynSpec::Obj(fs) && obj_get(fs, "key"@) == Some(DynSpec::Text(t.key@))
    }

    proof fn lemma_round_trip(&self) {
        let fs = seq![("key"@, DynSpec::Text(self.key@))];
        assert(obj_get(fs, "key"@) == Some(DynSpec::Text(self.key@)));
    }

    fn encode_dyn(&self) -> (r: Result<DynamicValue, MarshalError>) {
        let mut fields: Vec<(String, DynamicValue)> = Vec::new();
        proof {
            assert(dyn_fields_view(fields@) =~= Seq::<(Seq<char>, DynSpec)>::empty());
        }
        crate::codec::push_field(&mut fields, "key", string_value(&self.key));
        let d = DynamicValue::Object(fields);
        proof {
            assert(d@ =~~= self.enc());
        }
        Ok(d)
    }

    fn decode_dyn(v: &DynamicValue) -> (r: Result<Self, MarshalError>) {
        let fields = v.as_object()?;
        let key = get_text_field(fields, "key")?;
        Ok(StorageGetBinaryObjectRequest { key })
    }
}

/// Deletes the object under a storage key.
#[derive(Debug, Clone, PartialEq)]
pub struct StorageDeleteObjectRequest {
    pub key: String,
}

impl DynCodec for StorageDeleteObjectRequest {
    open spec fn enc_wf(&self) -> bool {
        true
    }

    open spec fn enc(&self) -> DynSpec {
        DynSpec::Obj(seq![("key"@, DynSpec::Text(self.key@))])
    }

    open spec fn decodable(v: DynSpec) -> bool {
        v matches DynSpec::Obj(fs) && obj_get(fs, "key"@) matches Some(d) && d is Text
    }

    open spec fn decodes_to(v: DynSpec, t: Self) -> bool {
        v matches DynSpec::Obj(fs) && obj_get(fs, "key"@) == Some(DynSpec::Text(t.key@))
    }

    proof fn lemma_round_trip(&self) {
        let fs = seq![("key"@, DynSpec::Text(self.key@))];
        assert(obj_get(fs, "key"@) == Some(DynSpec::Text(self.key@)));
    }

    fn encode_dyn(&self) -> (r: Result<DynamicValue, MarshalError>) {
        let mut fields: Vec<(String, DynamicValue)> = Vec::new();
        proof {
            assert(dyn_fields_view(fields@) =~= Seq::<(Seq<char>, DynSpec)>::empty());
        }
        crate::codec::push_field(&mut fields, "key", string_value(&self.key));
        let d = DynamicValue::Object(fields);
        proof {
            assert(d@ =~~= self.enc());
        }
        Ok(d)
    }

    fn decode_dyn(v: &DynamicValue) -> (r: Result<Self, MarshalError>) {
        let fields = v.as_object()?;
        let key = get_text_field(fields, "key")?;
        Ok(StorageDeleteObjectRequest { key })
    }
}

/// Opens a message port toward a receiver.
#[derive(Debug, Clone, PartialEq)]
pub struct CreateMessagePortOptions {
    pub receiver_id: String,
}

impl DynCodec for CreateMessagePortOptions {
    open spec fn enc_wf(&self) -> bool {
        true
    }

    open spec fn enc(&self) -> DynSpec {
        DynSpec::Obj(seq![("receiverId"@, DynSpec::Text(self.receiver_id@))])
    }

    open spec fn decodable(v: DynSpec) -> bool {
        v matches DynSpec::Obj(fs) && obj_get(fs, "receiverId"@) matches Some(d) && d is Text
    }

    open spec fn decodes_to(v: DynSpec, t: Self) -> bool {
        v matches DynSpec::Obj(fs) && obj_get(fs, "receiverId"@) == Some(DynSpec::Text(t.receiver_id@))
    }

    proof fn lemma_round_trip(&self) {
        let fs = seq![("receiverId"@, DynSpec::Text(self.receiver_id@))];
        assert(obj_get(fs, "receiverId"@) == Some(DynSpec::Text(self.receiver_id@)));
    }

    fn encode_dyn(&self) -> (r: Result<DynamicValue, MarshalError>) {
        let mut fields: Vec<(String, DynamicValue)> = Vec::new();
        proof {
            assert(dyn_fields_view(fields@) =~= Seq::<(Seq<char>, DynSpec)>::empty());
        }
        crate::codec::push_field(&mut fields, "receiverId", string_value(&self.receiver_id));
        let d = DynamicValue::Object(fields);
        proof {
            assert(d@ =~~= self.enc());
        }
        Ok(d)
    }

    fn decode_dyn(v: &DynamicValue) -> (r: Result<Self, MarshalError>) {
        let fields = v.as_object()?;
        let receiver_id = get_text_field(fields, "receiverId")?;
        Ok(CreateMessagePortOptions { receiver_id })
    }
}

/// Access token handed back by the auth flows.
#[derive(Debug, Clone, PartialEq)]
pub struct AccessTokenResponse {
    pub access_token: String,
}

impl DynCodec for AccessTokenResponse {
    open spec fn enc_wf(&self) -> bool {
        true
    }

    open spec fn enc(&self) -> DynSpec {
        DynSpec::Obj(seq![("accessToken"@, DynSpec::Text(self.access_token@))])
    }

    open spec fn decodable(v: DynSpec) -> bool {
        v matches DynSpec::Obj(fs) && obj_get(fs, "accessToken"@) matches Some(d) && d is Text
    }

    open spec fn decodes_to(v: DynSpec, t: Self) -> bool {
        v matches DynSpec::Obj(fs) && obj_get(fs, "accessToken"@) == Some(DynSpec::Text(t.access_token@))
    }

    proof fn lemma_round_trip(&self) {
        let fs = seq![("accessToken"@, DynSpec::Text(self.access_token@))];
        assert(obj_get(fs, "accessToken"@) == Some(DynSpec::Text(self.access_token@)));
    }

    fn encode_dyn(&self) -> (r: Result<DynamicValue, MarshalError>) {
        let mut fields: Vec<(String, DynamicValue)> = Vec::new();
        proof {
            assert(dyn_fields_view(fields@) =~= Seq::<(Seq<char>, DynSpec)>::empty());
        }
        crate::codec::push_field(&mut fields, "accessToken", string_value(&self.access_token));
        let d = DynamicValue::Object(fields);
        proof {
            assert(d@ =~~= self.enc());
        }
        Ok(d)
    }

    fn decode_dyn(v: &DynamicValue) -> (r: Result<Self, MarshalError>) {
        let fields = v.as_object()?;
        let access_token = get_text_field(fields, "accessToken")?;
        Ok(AccessTokenResponse { access_token })
    }
}


/// Result of uploading a file: its file and blob identifiers.
#[derive(Debug, Clone, PartialEq)]
pub struct FileUploadResult {
    pub file_id: String,
    pub blob_id: String,
}

impl DynCodec for FileUploadResult {
    open spec fn enc_wf(&self) -> bool {
        true
    }

    open spec fn enc(&self) -> DynSpec {
        DynSpec::Obj(
            Seq::empty().push(("fileId"@, DynSpec::Text(self.file_id@))).push(
                ("blobId"@, DynSpec::Text(self.blob_id@)),
            ),
        )
    }

    open spec fn decodable(v: DynSpec) -> bool {
        &&& v matches DynSpec::Obj(fs)
        &&& obj_get(fs, "fileId"@) matches Some(a) && a is Text
        &&& obj_get(fs, "blobId"@) matches Some(b) && b is Text
    }

    open spec fn decodes_to(v: DynSpec, t: Self) -> bool {
        &&& v matches DynSpec::Obj(fs)
        &&& obj_get(fs, "fileId"@) == Some(DynSpec::Text(t.file_id@))
        &&& obj_get(fs, "blobId"@) == Some(DynSpec::Text(t.blob_id@))
    }

    proof fn lemma_round_trip(&self) {
        reveal_strlit("fileId");
        reveal_strlit("blobId");
        assert("fileId"@.len() == 6);
        assert("blobId"@.len() == 6);
        assert("fileId"@[0] == 'f');
        assert("blobId"@[0] == 'b');
        assert("fileId"@ != "blobId"@);
        let s0 = Seq::<(Seq<char>, DynSpec)>::empty();
        let s1 = s0.push(("fileId"@, DynSpec::Text(self.file_id@)));
        let s2 = s1.push(("blobId"@, DynSpec::Text(self.blob_id@)));
        assert(obj_get(s0, "fileId"@) is None);
        assert(obj_get(s0, "blobId"@) is None);
        lemma_obj_get_push(s0, "fileId"@, DynSpec::Text(self.file_id@), "fileId"@);
        lemma_obj_get_push(s0, "fileId"@, DynSpec::Text(self.file_id@), "blobId"@);
        lemma_obj_get_push(s1, "blobId"@, DynSpec::Text(self.blob_id@), "fileId"@);
        lemma_obj_get_push(s1, "blobId"@, DynSpec::Text(self.blob_id@), "blobId"@);
        assert(obj_get(s2, "fileId"@) == Some(DynSpec::Text(self.file_id@)));
        assert(obj_get(s2, "blobId"@) == Some(DynSpec::Text(self.blob_id@)));
    }

    fn encode_dyn(&self) -> (r: Result<DynamicValue, MarshalError>) {
        let mut fields: Vec<(String, DynamicValue)> = Vec::new();
        proof {
            assert(dyn_fields_view(fields@) =~= Seq::<(Seq<char>, DynSpec)>::empty());
        }
        crate::codec::push_field(&mut fields, "fileId", string_value(&self.file_id));
        crate::codec::push_field(&mut fields, "blobId", string_value(&self.blob_id));
        let d = DynamicValue::Object(fields);
        proof {
            assert(d@ =~~= self.enc());
        }
        Ok(d)
    }

    fn decode_dyn(v: &DynamicValue) -> (r: Result<Self, MarshalError>) {
        let fields = v.as_object()?;
        let file_id = get_text_field(fields, "fileId")?;
        let blob_id = get_text_field(fields, "blobId")?;
        Ok(FileUploadResult { file_id, blob_id })
    }
}

/// Replaces an element of the proposal with another.
#[derive(Debug, Clone, PartialEq)]
pub struct ProposalReplaceElementRequest {
    pub path: String,
    pub urn: String,
}

impl DynCodec for ProposalReplaceElementRequest {
    open spec fn enc_wf(&self) -> bool {
        true
    }

    open spec fn enc(&self) -> DynSpec {
        DynSpec::Obj(
            Seq::empty().push(("path"@, DynSpec::Text(self.path@))).push(
                ("urn"@, DynSpec::Text(self.urn@)),
            ),
        )
    }

    open spec fn decodable(v: DynSpec) -> bool {
        &&& v matches DynSpec::Obj(fs)
        &&& obj_get(fs, "path"@) matches Some(a) && a is Text
        &&& obj_get(fs, "urn"@) matches Some(b) && b is Text
    }

    open spec fn decodes_to(v: DynSpec, t: Self) -> bool {
        &&& v matches DynSpec::Obj(fs)
        &&& obj_get(fs, "path"@) == Some(DynSpec::Text(t.path@))
        &&& obj_get(fs, "urn"@) == Some(DynSpec::Text(t.urn@))
    }

    proof fn lemma_round_trip(&self) {
        reveal_strlit("path");
        reveal_strlit("urn");
        assert("path"@.len() == 4);
        assert("urn"@.len() == 3);
        assert("path"@ != "urn"@);
        let s0 = Seq::<(Seq<char>, DynSpec)>::empty();
        let s1 = s0.push(("path"@, DynSpec::Text(self.path@)));
        let s2 = s1.push(("urn"@, DynSpec::Text(self.urn@)));
        assert(obj_get(s0, "path"@) is None);
        assert(obj_get(s0, "urn"@) is None);
        lemma_obj_get_push(s0, "path"@, DynSpec::Text(self.path@), "path"@);
        lemma_obj_get_push(s0, "path"@, DynSpec::Text(self.path@), "urn"@);
        lemma_obj_get_push(s1, "urn"@, DynSpec::Text(self.urn@), "path"@);
        lemma_obj_get_push(s1, "urn"@, DynSpec::Text(self.urn@), "urn"@);
        assert(obj_get(s2, "path"@) == Some(DynSpec::Text(self.path@)));
        assert(obj_get(s2, "urn"@) == Some(DynSpec::Text(self.urn@)));
    }

    fn encode_dyn(&self) -> (r: Result<DynamicValue, MarshalError>) {
        let mut fields: Vec<(String, DynamicValue)> = Vec::new();
        proof {
            assert(dyn_fields_view(fields@) =~= Seq::<(Seq<char>, DynSpec)>::empty());
        }
        crate::codec::push_field(&mut fields, "path", string_value(&self.path));
        crate::codec::push_field(&mut fields, "urn", string_value(&self.urn));
        let d = DynamicValue::Object(fields);
        proof {
            assert(d@ =~~= self.enc());
        }
        Ok(d)
    }

    fn decode_dyn(v: &DynamicValue) -> (r: Result<Self, MarshalError>) {
        let fields = v.as_object()?;
        let path = get_text_field(fields, "path")?;
        let urn = get_text_field(fields, "urn")?;
        Ok(ProposalReplaceElementRequest { path, urn })
    }
}

/// Adds or replaces a storage object.
#[derive(Debug, Clone, PartialEq)]
pub struct StorageSetObjectRequest {
    pub key: String,
    pub data: String,
}

impl DynCodec for StorageSetObjectRequest {
    open spec fn enc_wf(&self) -> bool {
        true
    }

    open spec fn enc(&self) -> DynSpec {
        DynSpec::Obj(
            Seq::empty().push(("key"@, DynSpec::Text(self.key@))).push(
                ("data"@, DynSpec::Text(self.data@)),
            ),
        )
    }

    open spec fn decodable(v: DynSpec) -> bool {
        &&& v matches DynSpec::Obj(fs)
        &&& obj_get(fs, "key"@) matches Some(a) && a is Text
        &&& obj_get(fs, "data"@) matches Some(b) && b is Text
    }

    open spec fn decodes_to(v: DynSpec, t: Self) -> bool {
        &&& v matches DynSpec::Obj(fs)
        &&& obj_get(fs, "key"@) == Some(DynSpec::Text(t.key@))
        &&& obj_get(fs, "data"@) == Some(DynSpec::Text(t.data@))
    }

    proof fn lemma_round_trip(&self) {
        reveal_strlit("key");
        reveal_strlit("data");
        assert("key"@.len() == 3);
        assert("data"@.len() == 4);
        assert("key"@ != "data"@);
        let s0 = Seq::<(Seq<char>, DynSpec)>::empty();
        let s1 = s0.push(("key"@, DynSpec::Text(self.key@)));
        let s2 = s1.push(("data"@, DynSpec::Text(self.data@)));
        assert(obj_get(s0, "key"@) is None);
        assert(obj_get(s0, "data"@) is None);
        lemma_obj_get_push(s0, "key"@, DynSpec::Text(self.key@), "key"@);
        lemma_obj_get_push(s0, "key"@, DynSpec::Text(self.key@), "data"@);
        lemma_obj_get_push(s1, "data"@, DynSpec::Text(self.data@), "key"@);
        lemma_obj_get_push(s1, "data"@, DynSpec::Text(self.data@), "data"@);
        assert(obj_get(s2, "key"@) == Some(DynSpec::Text(self.key@)));
        assert(obj_get(s2, "data"@) == Some(DynSpec::Text(self.data@)));
    }

    fn encode_dyn(&self) -> (r: Result<DynamicValue, MarshalError>) {
        let mut fields: Vec<(String, DynamicValue)> = Vec::new();
        proof {
            assert(dyn_fields_view(fields@) =~= Seq::<(Seq<char>, DynSpec)>::empty());
        }
        crate::codec::push_field(&mut fields, "key", string_value(&self.key));
        crate::codec::push_field(&mut fields, "data", string_value(&self.data));
        let d = DynamicValue::Object(fields);
        proof {
            assert(d@ =~~= self.enc());
        }
        Ok(d)
    }

    fn decode_dyn(v: &DynamicValue) -> (r: Result<Self, MarshalError>) {
        let fields = v.as_object()?;
        let key = get_text_field(fields, "key")?;
        let data = get_text_field(fields, "data")?;
        Ok(StorageSetObjectRequest { key, data })
    }
}

/// One color and its label on a colorbar.
#[derive(Debug, Clone, PartialEq)]
pub struct ColorbarEntry {
    pub color: String,
    pub label: String,
}

impl DynCodec for ColorbarEntry {
    open spec fn enc_wf(&self) -> bool {
        true
    }

    open spec fn enc(&self) -> DynSpec {
        DynSpec::Obj(
            Seq::empty().push(("color"@, DynSpec::Text(self.color@))).push(
                ("label"@, DynSpec::Text(self.label@)),
            ),
        )
    }

    open spec fn decodable(v: DynSpec) -> bool {
        &&& v matches DynSpec::Obj(fs)
        &&& obj_get(fs, "color"@) matches Some(a) && a is Text
        &&& obj_get(fs, "label"@) matches Some(b) && b is Text
    }

    open spec fn decodes_to(v: DynSpec, t: Self) -> bool {
        &&& v matches DynSpec::Obj(fs)
        &&& obj_get(fs, "color"@) == Some(DynSpec::Text(t.color@))
        &&& obj_get(fs, "label"@) == Some(DynSpec::Text(t.label@))
    }

    proof fn lemma_round_trip(&self) {
        reveal_strlit("color");
        reveal_strlit("label");
        assert("color"@.len() == 5);
        assert("label"@.len() == 5);
        assert("color"@[0] == 'c');
        assert("label"@[0] == 'l');
        assert("color"@ != "label"@);
        let s0 = Seq::<(Seq<char>, DynSpec)>::empty();
        let s1 = s0.push(("color"@, DynSpec::Text(self.color@)));
        let s2 = s1.push(("label"@, DynSpec::Text(self.label@)));
        assert(obj_get(s0, "color"@) is None);
        assert(obj_get(s0, "label"@) is None);
        lemma_obj_get_push(s0, "color"@, DynSpec::Text(self.color@), "color"@);
        lemma_obj_get_push(s0, "color"@, DynSpec::Text(self.color@), "label"@);
        lemma_obj_get_push(s1, "label"@, DynSpec::Text(self.label@), "color"@);
        lemma_obj_get_push(s1, "label"@, DynSpec::Text(self.label@), "label"@);
        assert(obj_get(s2, "color"@) == Some(DynSpec::Text(self.color@)));
        assert(obj_get(s2, "label"@) == Some(DynSpec::Text(self.label@)));
    }

    fn encode_dyn(&self) -> (r: Result<DynamicValue, MarshalError>) {
        let mut fields: Vec<(String, DynamicValue)> = Vec::new();
        proof {
            assert(dyn_fields_view(fields@) =~= Seq::<(Seq<char>, DynSpec)>::empty());
        }
        crate::codec::push_field(&mut fields, "color", string_value(&self.color));
        crate::codec::push_field(&mut fields, "label", string_value(&self.label));
        let d = DynamicValue::Object(fields);
        proof {
            assert(d@ =~~= self.enc());
        }
        Ok(d)
    }

    fn decode_dyn(v: &DynamicValue) -> (r: Result<Self, MarshalError>) {
        let fields = v.as_object()?;
        let color = get_text_field(fields, "color")?;
        let label = get_text_field(fields, "label")?;
        Ok(ColorbarEntry { color, label })
    }
}

/// Hides or unhides a batch of elements.
#[derive(Debug, Clone, PartialEq)]
pub struct ElementVisibilityBatchRequest {
    pub paths: Vec<String>,
}

impl DynCodec for ElementVisibilityBatchRequest {
    open spec fn enc_wf(&self) -> bool {
        true
    }

    open spec fn enc(&self) -> DynSpec {
        DynSpec::Obj(seq![("paths"@, DynSpec::Arr(texts_view(self.paths@)))])
    }

    open spec fn decodable(v: DynSpec) -> bool {
        &&& v matches DynSpec::Obj(fs)
        &&& obj_get(fs, "paths"@) matches Some(d) && text_list_decodable(d)
    }

    open spec fn decodes_to(v: DynSpec, t: Self) -> bool {
        v matches DynSpec::Obj(fs) && obj_get(fs, "paths"@) == Some(
            DynSpec::Arr(texts_view(t.paths@)),
        )
    }

    proof fn lemma_round_trip(&self) {
        let fs = seq![("paths"@, DynSpec::Arr(texts_view(self.paths@)))];
        assert(obj_get(fs, "paths"@) == Some(DynSpec::Arr(texts_view(self.paths@))));
        assert forall|other: Self|
            Self::decodes_to(self.enc(), other) implies other.enc() == self.enc() by {
            assert(texts_view(other.paths@) == texts_view(self.paths@));
        }
    }

    fn encode_dyn(&self) -> (r: Result<DynamicValue, MarshalError>) {
        let mut fields: Vec<(String, DynamicValue)> = Vec::new();
        proof {
            assert(dyn_fields_view(fields@) =~= Seq::<(Seq<char>, DynSpec)>::empty());
        }
        crate::codec::push_field(&mut fields, "paths", text_list_value(&self.paths));
        let d = DynamicValue::Object(fields);
        proof {
            assert(d@ =~~= self.enc());
        }
        Ok(d)
    }

    fn decode_dyn(v: &DynamicValue) -> (r: Result<Self, MarshalError>) {
        let fields = v.as_object()?;
        let paths = get_text_list_field(fields, "paths")?;
        Ok(ElementVisibilityBatchRequest { paths })
    }
}

/// Clears the color override on the given elements.
#[derive(Debug, Clone, PartialEq)]
pub struct ElementColorClearRequest {
    pub paths: Vec<String>,
}

impl DynCodec for ElementColorClearRequest {
    open spec fn enc_wf(&self) -> bool {
        true
    }

    open spec fn enc(&self) -> DynSpec {
        DynSpec::Obj(seq![("paths"@, DynSpec::Arr(texts_view(self.paths@)))])
    }

    open spec fn decodable(v: DynSpec) -> bool {
        &&& v matches DynSpec::Obj(fs)
        &&& obj_get(fs, "paths"@) matches Some(d) && text_list_decodable(d)
    }

    open spec fn decodes_to(v: DynSpec, t: Self) -> bool {
        v matches DynSpec::Obj(fs) && obj_get(fs, "paths"@) == Some(
            DynSpec::Arr(texts_view(t.paths@)),
        )
    }

    proof fn lemma_round_trip(&self) {
        let fs = seq![("paths"@, DynSpec::Arr(texts_view(self.paths@)))];
        assert(obj_get(fs, "paths"@) == Some(DynSpec::Arr(texts_view(self.paths@))));
        assert forall|other: Self|
            Self::decodes_to(self.enc(), other) implies other.enc() == self.enc() by {
            assert(texts_view(other.paths@) == texts_view(self.paths@));
        }
    }

    fn encode_dyn(&self) -> (r: Result<DynamicValue, MarshalError>) {
        let mut fields: Vec<(String, DynamicValue)> = Vec::new();
        proof {
            assert(dyn_fields_view(fields@) =~= Seq::<(Seq<char>, DynSpec)>::empty());
        }
        crate::codec::push_field(&mut fields, "paths", text_list_value(&self.paths));
        let d = DynamicValue::Object(fields);
        proof {
            assert(d@ =~~= self.enc());
        }
        Ok(d)
    }

    fn decode_dyn(v: &DynamicValue) -> (r: Result<Self, MarshalError>) {
        let fields = v.as_object()?;
        let paths = get_text_list_field(fields, "paths")?;
        Ok(ElementColorClearRequest { paths })
    }
}


/// What an attribution requires of a data consumer.
#[derive(Debug, Clone, Copy, PartialEq, Eq)]
pub enum AttributionAction {
    Display,
    Transfer,
}

/// The wire tag of an attribution action.
pub open spec fn attribution_action_tag(a: AttributionAction) -> Seq<char> {
    match a {
        AttributionAction::Display => "display"@,
        AttributionAction::Transfer => "transfer"@,
    }
}

impl DynCodec for AttributionAction {
    open spec fn enc_wf(&self) -> bool {
        true
    }

    open spec fn enc(&self) -> DynSpec {
        DynSpec::Text(attribution_action_tag(*self))
    }

    open spec fn decodable(v: DynSpec) -> bool {
        v matches DynSpec::Text(s) && (s == "display"@ || s == "transfer"@)
    }

    open spec fn decodes_to(v: DynSpec, t: Self) -> bool {
        v == DynSpec::Text(attribution_action_tag(t))
    }

    proof fn lemma_round_trip(&self) {
    }

    fn encode_dyn(&self) -> (r: Result<DynamicValue, MarshalError>) {
        match self {
            AttributionAction::Display => Ok(text_value("display")),
            AttributionAction::Transfer => Ok(text_value("transfer")),
        }
    }

    fn decode_dyn(v: &DynamicValue) -> (r: Result<Self, MarshalError>) {
        let s = v.to_text()?;
        if s == "display".to_owned() {
            Ok(AttributionAction::Display)
        } else if s == "transfer".to_owned() {
            Ok(AttributionAction::Transfer)
        } else {
            Err(MarshalError::new("unknown attribution action"))
        }
    }
}

/// Status of an item in the library service.
#[derive(Debug, Clone, Copy, PartialEq, Eq)]
pub enum LibraryStatus {
    Success,
    Failed,
    Pending,
}

/// The wire tag of a library status.
pub open spec fn library_status_tag(s: LibraryStatus) -> Seq<char> {
    match s {
        LibraryStatus::Success => "success"@,
        LibraryStatus::Failed => "failed"@,
        LibraryStatus::Pending => "pending"@,
    }
}

impl DynCodec for LibraryStatus {
    open spec fn enc_wf(&self) -> bool {
        true
    }

    open spec fn enc(&self) -> DynSpec {
        DynSpec::Text(library_status_tag(*self))
    }

    open spec fn decodable(v: DynSpec) -> bool {
        v matches DynSpec::Text(s) && (s == "success"@ || s == "failed"@ || s == "pending"@)
    }

    open spec fn decodes_to(v: DynSpec, t: Self) -> bool {
        v == DynSpec::Text(library_status_tag(t))
    }

    proof fn lemma_round_trip(&self) {
    }

    fn encode_dyn(&self) -> (r: Result<DynamicValue, MarshalError>) {
        match self {
            LibraryStatus::Success => Ok(text_value("success")),
            LibraryStatus::Failed => Ok(text_value("failed")),
            LibraryStatus::Pending => Ok(text_value("pending")),
        }
    }

    fn decode_dyn(v: &DynamicValue) -> (r: Result<Self, MarshalError>) {
        let s = v.to_text()?;
        if s == "success".to_owned() {
            Ok(LibraryStatus::Success)
        } else if s == "failed".to_owned() {
            Ok(LibraryStatus::Failed)
        } else if s == "pending".to_owned() {
            Ok(LibraryStatus::Pending)
        } else {
            Err(MarshalError::new("unknown library status"))
        }
    }
}

/// The unit system the host presents measurements in.
#[derive(Debug, Clone, Copy, PartialEq, Eq)]
pub enum UnitSystem {
    Metric,
    Imperial,
}

/// The wire tag of a unit system.
pub open spec fn unit_system_tag(u: UnitSystem) -> Seq<char> {
    match u {
        UnitSystem::Metric => "metric"@,
        UnitSystem::Imperial => "imperial"@,
    }
}

impl DynCodec for UnitSystem {
    open spec fn enc_wf(&self) -> bool {
        true
    }

    open spec fn enc(&self) -> DynSpec {
        DynSpec::Text(unit_system_tag(*self))
    }

    open spec fn decodable(v: DynSpec) -> bool {
        v matches DynSpec::Text(s) && (s == "metric"@ || s == "imperial"@)
    }

    open spec fn decodes_to(v: DynSpec, t: Self) -> bool {
        v == DynSpec::Text(unit_system_tag(t))
    }

    proof fn lemma_round_trip(&self) {
    }

    fn encode_dyn(&self) -> (r: Result<DynamicValue, MarshalError>) {
        match self {
            UnitSystem::Metric => Ok(text_value("metric")),
            UnitSystem::Imperial => Ok(text_value("imperial")),
        }
    }

    fn decode_dyn(v: &DynamicValue) -> (r: Result<Self, MarshalError>) {
        let s = v.to_text()?;
        if s == "metric".to_owned() {
            Ok(UnitSystem::Metric)
        } else if s == "imperial".to_owned() {
            Ok(UnitSystem::Imperial)
        } else {
            Err(MarshalError::new("unknown unit system"))
        }
    }
}

/// The kind of geographic data uploaded to the host.
#[derive(Debug, Clone, Copy, PartialEq, Eq)]
pub enum GeoDataType {
    Buildings,
    Roads,
    PropertyBoundaries,
}

/// The wire tag of a geographic data kind.
pub open spec fn geo_data_type_tag(g: GeoDataType) -> Seq<char> {
    match g {
        GeoDataType::Buildings => "buildings"@,
        GeoDataType::Roads => "roads"@,
        GeoDataType::PropertyBoundaries => "property-boundaries"@,
    }
}

impl DynCodec for GeoDataType {
    open spec fn enc_wf(&self) -> bool {
        true
    }

    open spec fn enc(&self) -> DynSpec {
        DynSpec::Text(geo_data_type_tag(*self))
    }

    open spec fn decodable(v: DynSpec) -> bool {
        v matches DynSpec::Text(s) && (s == "buildings"@ || s == "roads"@ || s
            == "property-boundaries"@)
    }

    open spec fn decodes_to(v: DynSpec, t: Self) -> bool {
        v == DynSpec::Text(geo_data_type_tag(t))
    }

    proof fn lemma_round_trip(&self) {
    }

    fn encode_dyn(&self) -> (r: Result<DynamicValue, MarshalError>) {
        match self {
            GeoDataType::Buildings => Ok(text_value("buildings")),
            GeoDataType::Roads => Ok(text_value("roads")),
            GeoDataType::PropertyBoundaries => Ok(text_value("property-boundaries")),
        }
    }

    fn decode_dyn(v: &DynamicValue) -> (r: Result<Self, MarshalError>) {
        let s = v.to_text()?;
        if s == "buildings".to_owned() {
            Ok(GeoDataType::Buildings)
        } else if s == "roads".to_owned() {
            Ok(GeoDataType::Roads)
        } else if s == "property-boundaries".to_owned() {
            Ok(GeoDataType::PropertyBoundaries)
        } else {
            Err(MarshalError::new("unknown geographic data kind"))
        }
    }
}


/// Lists storage objects, optionally under a key prefix.
#[derive(Debug, Clone, PartialEq)]
pub struct StorageListObjectsRequest {
    pub prefix: Option<String>,
}

impl DynCodec for StorageListObjectsRequest {
    open spec fn enc_wf(&self) -> bool {
        true
    }

    open spec fn enc(&self) -> DynSpec {
        DynSpec::Obj(push_opt(Seq::empty(), "prefix"@, opt_text_spec(self.prefix)))
    }

    open spec fn decodable(v: DynSpec) -> bool {
        &&& v matches DynSpec::Obj(fs)
        &&& opt_text_ok(obj_get(fs, "prefix"@))
    }

    open spec fn decodes_to(v: DynSpec, t: Self) -> bool {
        &&& v matches DynSpec::Obj(fs)
        &&& opt_text_match(obj_get(fs, "prefix"@), t.prefix)
    }

    proof fn lemma_round_trip(&self) {
        reveal_strlit("prefix");
        assert("prefix"@.len() == 6);
        let s0 = Seq::<(Seq<char>, DynSpec)>::empty();
        let s1 = push_opt(s0, "prefix"@, opt_text_spec(self.prefix));
        assert(obj_get(s0, "prefix"@) is None);
        lemma_push_opt_get(s0, "prefix"@, opt_text_spec(self.prefix), "prefix"@);
        assert(obj_get(s1, "prefix"@) == opt_text_spec(self.prefix));
        assert forall|other: Self|
            Self::decodes_to(self.enc(), other) implies other.enc() == self.enc() by {
            assert(opt_text_spec(other.prefix) == opt_text_spec(self.prefix));
        }
    }

    fn encode_dyn(&self) -> (r: Result<DynamicValue, MarshalError>) {
        let mut fields: Vec<(String, DynamicValue)> = Vec::new();
        proof {
            assert(dyn_fields_view(fields@) =~= Seq::<(Seq<char>, DynSpec)>::empty());
        }
        match &self.prefix {
            Some(x) => crate::codec::push_field(&mut fields, "prefix", string_value(x)),
            None => {
            },
        }
        let d = DynamicValue::Object(fields);
        proof {
            assert(d@ =~~= self.enc());
        }
        Ok(d)
    }

    fn decode_dyn(v: &DynamicValue) -> (r: Result<Self, MarshalError>) {
        let fields = v.as_object()?;
        let prefix = get_opt_text_field(fields, "prefix")?;
        Ok(StorageListObjectsRequest { prefix })
    }
}

/// Lists analyses, optionally restricted to one kind.
#[derive(Debug, Clone, PartialEq)]
pub struct AnalysisListRequest {
    pub analysis_type: Option<String>,
}

impl DynCodec for AnalysisListRequest {
    open spec fn enc_wf(&self) -> bool {
        true
    }

    open spec fn enc(&self) -> DynSpec {
        DynSpec::Obj(push_opt(Seq::empty(), "type"@, opt_text_spec(self.analysis_type)))
    }

    open spec fn decodable(v: DynSpec) -> bool {
        &&& v matches DynSpec::Obj(fs)
        &&& opt_text_ok(obj_get(fs, "type"@))
    }

    open spec fn decodes_to(v: DynSpec, t: Self) -> bool {
        &&& v matches DynSpec::Obj(fs)
        &&& opt_text_match(obj_get(fs, "type"@), t.analysis_type)
    }

    proof fn lemma_round_trip(&self) {
        reveal_strlit("type");
        assert("type"@.len() == 4);
        let s0 = Seq::<(Seq<char>, DynSpec)>::empty();
        let s1 = push_opt(s0, "type"@, opt_text_spec(self.analysis_type));
        assert(obj_get(s0, "type"@) is None);
        lemma_push_opt_get(s0, "type"@, opt_text_spec(self.analysis_type), "type"@);
        assert(obj_get(s1, "type"@) == opt_text_spec(self.analysis_type));
        assert forall|other: Self|
            Self::decodes_to(self.enc(), other) implies other.enc() == self.enc() by {
            assert(opt_text_spec(other.analysis_type) == opt_text_spec(self.analysis_type));
        }
    }

    fn encode_dyn(&self) -> (r: Result<DynamicValue, MarshalError>) {
        let mut fields: Vec<(String, DynamicValue)> = Vec::new();
        proof {
            assert(dyn_fields_view(fields@) =~= Seq::<(Seq<char>, DynSpec)>::empty());
        }
        match &self.analysis_type {
            Some(x) => crate::codec::push_field(&mut fields, "type", string_value(x)),
            None => {
            },
        }
        let d = DynamicValue::Object(fields);
        proof {
            assert(d@ =~~= self.enc());
        }
        Ok(d)
    }

    fn decode_dyn(v: &DynamicValue) -> (r: Result<Self, MarshalError>) {
        let fields = v.as_object()?;
        let analysis_type = get_opt_text_field(fields, "type")?;
        Ok(AnalysisListRequest { analysis_type })
    }
}

/// Calculates area metrics, optionally for chosen paths.
#[derive(Debug, Clone, PartialEq)]
pub struct AreaMetricsCalculateRequest {
    pub paths: Option<Vec<String>>,
}

impl DynCodec for AreaMetricsCalculateRequest {
    open spec fn enc_wf(&self) -> bool {
        true
    }

    open spec fn enc(&self) -> DynSpec {
        DynSpec::Obj(push_opt(Seq::empty(), "paths"@, opt_text_list_spec(self.paths)))
    }

    open spec fn decodable(v: DynSpec) -> bool {
        &&& v matches DynSpec::Obj(fs)
        &&& opt_text_list_ok(obj_get(fs, "paths"@))
    }

    open spec fn decodes_to(v: DynSpec, t: Self) -> bool {
        &&& v matches DynSpec::Obj(fs)
        &&& opt_text_list_match(obj_get(fs, "paths"@), t.paths)
    }

    proof fn lemma_round_trip(&self) {
        reveal_strlit("paths");
        assert("paths"@.len() == 5);
        let s0 = Seq::<(Seq<char>, DynSpec)>::empty();
        let s1 = push_opt(s0, "paths"@, opt_text_list_spec(self.paths));
        assert(obj_get(s0, "paths"@) is None);
        lemma_push_opt_get(s0, "paths"@, opt_text_list_spec(self.paths), "paths"@);
        assert(obj_get(s1, "paths"@) == opt_text_list_spec(self.paths));
        assert forall|other: Self|
            Self::decodes_to(self.enc(), other) implies other.enc() == self.enc() by {
            assert(opt_text_list_spec(other.paths) == opt_text_list_spec(self.paths));
        }
    }

    fn encode_dyn(&self) -> (r: Result<DynamicValue, MarshalError>) {
        let mut fields: Vec<(String, DynamicValue)> = Vec::new();
        proof {
            assert(dyn_fields_view(fields@) =~= Seq::<(Seq<char>, DynSpec)>::empty());
        }
        match &self.paths {
            Some(x) => crate::codec::push_field(&mut fields, "paths", text_list_value(x)),
            None => {
            },
        }
        let d = DynamicValue::Object(fields);
        proof {
            assert(d@ =~~= self.enc());
        }
        Ok(d)
    }

    fn decode_dyn(v: &DynamicValue) -> (r: Result<Self, MarshalError>) {
        let fields = v.as_object()?;
        let paths = get_opt_text_list_field(fields, "paths")?;
        Ok(AreaMetricsCalculateRequest { paths })
    }
}

/// Opens a floating panel showing a URL.
#[derive(Debug, Clone, PartialEq)]
pub struct FloatingPanelOptions {
    pub url: String,
    pub title: Option<String>,
}

impl DynCodec for FloatingPanelOptions {
    open spec fn enc_wf(&self) -> bool {
        true
    }

    open spec fn enc(&self) -> DynSpec {
        DynSpec::Obj(push_opt(Seq::empty().push(("url"@, DynSpec::Text(self.url@))), "title"@, opt_text_spec(self.title)))
    }

    open spec fn decodable(v: DynSpec) -> bool {
        &&& v matches DynSpec::Obj(fs)
        &&& obj_get(fs, "url"@) matches Some(x0) && x0 is Text
        &&& opt_text_ok(obj_get(fs, "title"@))
    }

    open spec fn decodes_to(v: DynSpec, t: Self) -> bool {
        &&& v matches DynSpec::Obj(fs)
        &&& obj_get(fs, "url"@) == Some(DynSpec::Text(t.url@))
        &&& opt_text_match(obj_get(fs, "title"@), t.title)
    }

    proof fn lemma_round_trip(&self) {
        reveal_strlit("title");
        reveal_strlit("url");
        assert("title"@.len() == 5);
        assert("url"@.len() == 3);
        assert("url"@ != "title"@);
        let s0 = Seq::<(Seq<char>, DynSpec)>::empty();
        let s1 = s0.push(("url"@, DynSpec::Text(self.url@)));
        let s2 = push_opt(s1, "title"@, opt_text_spec(self.title));
        assert(obj_get(s0, "title"@) is None);
        assert(obj_get(s0, "url"@) is None);
        lemma_obj_get_push(s0, "url"@, DynSpec::Text(self.url@), "title"@);
        lemma_obj_get_push(s0, "url"@, DynSpec::Text(self.url@), "url"@);
        lemma_push_opt_get(s1, "title"@, opt_text_spec(self.title), "title"@);
        lemma_push_opt_get(s1, "title"@, opt_text_spec(self.title), "url"@);
        assert(obj_get(s2, "url"@) == Some(DynSpec::Text(self.url@)));
        assert(obj_get(s2, "title"@) == opt_text_spec(self.title));
        assert forall|other: Self|
            Self::decodes_to(self.enc(), other) implies other.enc() == self.enc() by {
            assert(other.url@ == self.url@);
            assert(opt_text_spec(other.title) == opt_text_spec(self.title));
        }
    }

    fn encode_dyn(&self) -> (r: Result<DynamicValue, MarshalError>) {
        let mut fields: Vec<(String, DynamicValue)> = Vec::new();
        proof {
            assert(dyn_fields_view(fields@) =~= Seq::<(Seq<char>, DynSpec)>::empty());
        }
        crate::codec::push_field(&mut fields, "url", string_value(&self.url));
        match &self.title {
            Some(x) => crate::codec::push_field(&mut fields, "title", string_value(x)),
            None => {
            },
        }
        let d = DynamicValue::Object(fields);
        proof {
            assert(d@ =~~= self.enc());
        }
        Ok(d)
    }

    fn decode_dyn(v: &DynamicValue) -> (r: Result<Self, MarshalError>) {
        let fields = v.as_object()?;
        let url = get_text_field(fields, "url")?;
        let title = get_opt_text_field(fields, "title")?;
        Ok(FloatingPanelOptions { url, title })
    }
}

/// Fetches a proposal by identifier and optional revision.
#[derive(Debug, Clone, PartialEq)]
pub struct ProposalGetRequest {
    pub id: String,
    pub revision: Option<String>,
}

impl DynCodec for ProposalGetRequest {
    open spec fn enc_wf(&self) -> bool {
        true
    }

    open spec fn enc(&self) -> DynSpec {
        DynSpec::Obj(push_opt(Seq::empty().push(("id"@, DynSpec::Text(self.id@))), "revision"@, opt_text_spec(self.revision)))
    }

    open spec fn decodable(v: DynSpec) -> bool {
        &&& v matches DynSpec::Obj(fs)
        &&& obj_get(fs, "id"@) matches Some(x0) && x0 is Text
        &&& opt_text_ok(obj_get(fs, "revision"@))
    }

    open spec fn decodes_to(v: DynSpec, t: Self) -> bool {
        &&& v matches DynSpec::Obj(fs)
        &&& obj_get(fs, "id"@) == Some(DynSpec::Text(t.id@))
        &&& opt_text_match(obj_get(fs, "revision"@), t.revision)
    }

    proof fn lemma_round_trip(&self) {
        reveal_strlit("id");
        reveal_strlit("revision");
        assert("id"@.len() == 2);
        assert("revision"@.len() == 8);
        assert("id"@ != "revision"@);
        let s0 = Seq::<(Seq<char>, DynSpec)>::empty();
        let s1 = s0.push(("id"@, DynSpec::Text(self.id@)));
        let s2 = push_opt(s1, "revision"@, opt_text_spec(self.revision));
        assert(obj_get(s0, "id"@) is None);
        assert(obj_get(s0, "revision"@) is None);
        lemma_obj_get_push(s0, "id"@, DynSpec::Text(self.id@), "id"@);
        lemma_obj_get_push(s0, "id"@, DynSpec::Text(self.id@), "revision"@);
        lemma_push_opt_get(s1, "revision"@, opt_text_spec(self.revision), "id"@);
        lemma_push_opt_get(s1, "revision"@, opt_text_spec(self.revision), "revision"@);
        assert(obj_get(s2, "id"@) == Some(DynSpec::Text(self.id@)));
        assert(obj_get(s2, "revision"@) == opt_text_spec(self.revision));
        assert forall|other: Self|
            Self::decodes_to(self.enc(), other) implies other.enc() == self.enc() by {
            assert(other.id@ == self.id@);
            assert(opt_text_spec(other.revision) == opt_text_spec(self.revision));
        }
    }

    fn encode_dyn(&self) -> (r: Result<DynamicValue, MarshalError>) {
        let mut fields: Vec<(String, DynamicValue)> = Vec::new();
        proof {
            assert(dyn_fields_view(fields@) =~= Seq::<(Seq<char>, DynSpec)>::empty());
        }
        crate::codec::push_field(&mut fields, "id", string_value(&self.id));
        match &self.revision {
            Some(x) => crate::codec::push_field(&mut fields, "revision", string_value(x)),
            None => {
            },
        }
        let d = DynamicValue::Object(fields);
        proof {
            assert(d@ =~~= self.enc());
        }
        Ok(d)
    }

    fn decode_dyn(v: &DynamicValue) -> (r: Result<Self, MarshalError>) {
        let fields = v.as_object()?;
        let id = get_text_field(fields, "id")?;
        let revision = get_opt_text_field(fields, "revision")?;
        Ok(ProposalGetRequest { id, revision })
    }
}

/// Renames a proposal.
#[derive(Debug, Clone, PartialEq)]
pub struct ProposalUpdateRequest {
    pub id: String,
    pub name: Option<String>,
}

impl DynCodec for ProposalUpdateRequest {
    open spec fn enc_wf(&self) -> bool {
        true
    }

    open spec fn enc(&self) -> DynSpec {
        DynSpec::Obj(push_opt(Seq::empty().push(("id"@, DynSpec::Text(self.id@))), "name"@, opt_text_spec(self.name)))
    }

    open spec fn decodable(v: DynSpec) -> bool {
        &&& v matches DynSpec::Obj(fs)
        &&& obj_get(fs, "id"@) matches Some(x0) && x0 is Text
        &&& opt_text_ok(obj_get(fs, "name"@))
    }

    open spec fn decodes_to(v: DynSpec, t: Self) -> bool {
        &&& v matches DynSpec::Obj(fs)
        &&& obj_get(fs, "id"@) == Some(DynSpec::Text(t.id@))
        &&& opt_text_match(obj_get(fs, "name"@), t.name)
    }

    proof fn lemma_round_trip(&self) {
        reveal_strlit("id");
        reveal_strlit("name");
        assert("id"@.len() == 2);
        assert("name"@.len() == 4);
        assert("id"@ != "name"@);
        let s0 = Seq::<(Seq<char>, DynSpec)>::empty();
        let s1 = s0.push(("id"@, DynSpec::Text(self.id@)));
        let s2 = push_opt(s1, "name"@, opt_text_spec(self.name));
        assert(obj_get(s0, "id"@) is None);
        assert(obj_get(s0, "name"@) is None);
        lemma_obj_get_push(s0, "id"@, DynSpec::Text(self.id@), "id"@);
        lemma_obj_get_push(s0, "id"@, DynSpec::Text(self.id@), "name"@);
        lemma_push_opt_get(s1, "name"@, opt_text_spec(self.name), "id"@);
        lemma_push_opt_get(s1, "name"@, opt_text_spec(self.name), "name"@);
        assert(obj_get(s2, "id"@) == Some(DynSpec::Text(self.id@)));
        assert(obj_get(s2, "name"@) == opt_text_spec(self.name));
        assert forall|other: Self|
            Self::decodes_to(self.enc(), other) implies other.enc() == self.enc() by {
            assert(other.id@ == self.id@);
            assert(opt_text_spec(other.name) == opt_text_spec(self.name));
        }
    }

    fn encode_dyn(&self) -> (r: Result<DynamicValue, MarshalError>) {
        let mut fields: Vec<(String, DynamicValue)> = Vec::new();
        proof {
            assert(dyn_fields_view(fields@) =~= Seq::<(Seq<char>, DynSpec)>::empty());
        }
        crate::codec::push_field(&mut fields, "id", string_value(&self.id));
        match &self.name {
            Some(x) => crate::codec::push_field(&mut fields, "name", string_value(x)),
            None => {
            },
        }
        let d = DynamicValue::Object(fields);
        proof {
            assert(d@ =~~= self.enc());
        }
        Ok(d)
    }

    fn decode_dyn(v: &DynamicValue) -> (r: Result<Self, MarshalError>) {
        let fields = v.as_object()?;
        let id = get_text_field(fields, "id")?;
        let name = get_opt_text_field(fields, "name")?;
        Ok(ProposalUpdateRequest { id, name })
    }
}

/// Sets the visibility of the given elements.
#[derive(Debug, Clone, PartialEq)]
pub struct SetElementsVisibilityRequest {
    pub paths: Vec<String>,
    pub visible: bool,
}

impl DynCodec for SetElementsVisibilityRequest {
    open spec fn enc_wf(&self) -> bool {
        true
    }

    open spec fn enc(&self) -> DynSpec {
        DynSpec::Obj(Seq::empty().push(("paths"@, DynSpec::Arr(texts_view(self.paths@)))).push(("visible"@, DynSpec::Bool(self.visible))))
    }

    open spec fn decodable(v: DynSpec) -> bool {
        &&& v matches DynSpec::Obj(fs)
        &&& obj_get(fs, "paths"@) matches Some(x0) && text_list_decodable(x0)
        &&& obj_get(fs, "visible"@) matches Some(x1) && x1 is Bool
    }

    open spec fn decodes_to(v: DynSpec, t: Self) -> bool {
        &&& v matches DynSpec::Obj(fs)
        &&& obj_get(fs, "paths"@) == Some(DynSpec::Arr(texts_view(t.paths@)))
        &&& obj_get(fs, "visible"@) == Some(DynSpec::Bool(t.visible))
    }

    proof fn lemma_round_trip(&self) {
        reveal_strlit("paths");
        reveal_strlit("visible");
        assert("paths"@.len() == 5);
        assert("visible"@.len() == 7);
        assert("paths"@ != "visible"@);
        let s0 = Seq::<(Seq<char>, DynSpec)>::empty();
        let s1 = s0.push(("paths"@, DynSpec::Arr(texts_view(self.paths@))));
        let s2 = s1.push(("visible"@, DynSpec::Bool(self.visible)));
        assert(obj_get(s0, "paths"@) is None);
        assert(obj_get(s0, "visible"@) is None);
        lemma_obj_get_push(s0, "paths"@, DynSpec::Arr(texts_view(self.paths@)), "paths"@);
        lemma_obj_get_push(s0, "paths"@, DynSpec::Arr(texts_view(self.paths@)), "visible"@);
        lemma_obj_get_push(s1, "visible"@, DynSpec::Bool(self.visible), "paths"@);
        lemma_obj_get_push(s1, "visible"@, DynSpec::Bool(self.visible), "visible"@);
        assert(obj_get(s2, "paths"@) == Some(DynSpec::Arr(texts_view(self.paths@))));
        assert(obj_get(s2, "visible"@) == Some(DynSpec::Bool(self.visible)));
        assert forall|other: Self|
            Self::decodes_to(self.enc(), other) implies other.enc() == self.enc() by {
            assert(texts_view(other.paths@) == texts_view(self.paths@));
            assert(other.visible == self.visible);
        }
    }

    fn encode_dyn(&self) -> (r: Result<DynamicValue, MarshalError>) {
        let mut fields: Vec<(String, DynamicValue)> = Vec::new();
        proof {
            assert(dyn_fields_view(fields@) =~= Seq::<(Seq<char>, DynSpec)>::empty());
        }
        crate::codec::push_field(&mut fields, "paths", text_list_value(&self.paths));
        crate::codec::push_field(&mut fields, "visible", bool_value(self.visible));
        let d = DynamicValue::Object(fields);
        proof {
            assert(d@ =~~= self.enc());
        }
        Ok(d)
    }

    fn decode_dyn(v: &DynamicValue) -> (r: Result<Self, MarshalError>) {
        let fields = v.as_object()?;
        let paths = get_text_list_field(fields, "paths")?;
        let visible = get_bool_field(fields, "visible")?;
        Ok(SetElementsVisibilityRequest { paths, visible })
    }
}

/// Sets a color override on the given elements.
#[derive(Debug, Clone, PartialEq)]
pub struct ElementColorSetRequest {
    pub paths: Vec<String>,
    pub color: String,
}

impl DynCodec for ElementColorSetRequest {
    open spec fn enc_wf(&self) -> bool {
        true
    }

    open spec fn enc(&self) -> DynSpec {
        DynSpec::Obj(Seq::empty().push(("paths"@, DynSpec::Arr(texts_view(self.paths@)))).push(("color"@, DynSpec::Text(self.color@))))
    }

    open spec fn decodable(v: DynSpec) -> bool {
        &&& v matches DynSpec::Obj(fs)
        &&& obj_get(fs, "paths"@) matches Some(x0) && text_list_decodable(x0)
        &&& obj_get(fs, "color"@) matches Some(x1) && x1 is Text
    }

    open spec fn decodes_to(v: DynSpec, t: Self) -> bool {
        &&& v matches DynSpec::Obj(fs)
        &&& obj_get(fs, "paths"@) == Some(DynSpec::Arr(texts_view(t.paths@)))
        &&& obj_get(fs, "color"@) == Some(DynSpec::Text(t.color@))
    }

    proof fn lemma_round_trip(&self) {
        reveal_strlit("color");
        reveal_strlit("paths");
        assert("color"@.len() == 5);
        assert("paths"@.len() == 5);
        assert("paths"@[0] == 'p');
        assert("color"@[0] == 'c');
        assert("paths"@ != "color"@);
        let s0 = Seq::<(Seq<char>, DynSpec)>::empty();
        let s1 = s0.push(("paths"@, DynSpec::Arr(texts_view(self.paths@))));
        let s2 = s1.push(("color"@, DynSpec::Text(self.color@)));
        assert(obj_get(s0, "color"@) is None);
        assert(obj_get(s0, "paths"@) is None);
        lemma_obj_get_push(s0, "paths"@, DynSpec::Arr(texts_view(self.paths@)), "color"@);
        lemma_obj_get_push(s0, "paths"@, DynSpec::Arr(texts_view(self.paths@)), "paths"@);
        lemma_obj_get_push(s1, "color"@, DynSpec::Text(self.color@), "color"@);
        lemma_obj_get_push(s1, "color"@, DynSpec::Text(self.color@), "paths"@);
        assert(obj_get(s2, "paths"@) == Some(DynSpec::Arr(texts_view(self.paths@))));
        assert(obj_get(s2, "color"@) == Some(DynSpec::Text(self.color@)));
        assert forall|other: Self|
            Self::decodes_to(self.enc(), other) implies other.enc() == self.enc() by {
            assert(texts_view(other.paths@) == texts_view(self.paths@));
            assert(other.color@ == self.color@);
        }
    }

    fn encode_dyn(&self) -> (r: Result<DynamicValue, MarshalError>) {
        let mut fields: Vec<(String, DynamicValue)> = Vec::new();
        proof {
            assert(dyn_fields_view(fields@) =~= Seq::<(Seq<char>, DynSpec)>::empty());
        }
        crate::codec::push_field(&mut fields, "paths", text_list_value(&self.paths));
        crate::codec::push_field(&mut fields, "color", string_value(&self.color));
        let d = DynamicValue::Object(fields);
        proof {
            assert(d@ =~~= self.enc());
        }
        Ok(d)
    }

    fn decode_dyn(v: &DynamicValue) -> (r: Result<Self, MarshalError>) {
        let fields = v.as_object()?;
        let paths = get_text_list_field(fields, "paths")?;
        let color = get_text_field(fields, "color")?;
        Ok(ElementColorSetRequest { paths, color })
    }
}

/// Configuration for the host's auth flows.
#[derive(Debug, Clone, PartialEq)]
pub struct AuthConfig {
    pub client_id: String,
    pub callback_url: String,
    pub scopes: Vec<String>,
}

impl DynCodec for AuthConfig {
    open spec fn enc_wf(&self) -> bool {
        true
    }

    open spec fn enc(&self) -> DynSpec {
        DynSpec::Obj(Seq::empty().push(("clientId"@, DynSpec::Text(self.client_id@))).push(("callbackUrl"@, DynSpec::Text(self.callback_url@))).push(("scopes"@, DynSpec::Arr(texts_view(self.scopes@)))))
    }

    open spec fn decodable(v: DynSpec) -> bool {
        &&& v matches DynSpec::Obj(fs)
        &&& obj_get(fs, "clientId"@) matches Some(x0) && x0 is Text
        &&& obj_get(fs, "callbackUrl"@) matches Some(x1) && x1 is Text
        &&& obj_get(fs, "scopes"@) matches Some(x2) && text_list_decodable(x2)
    }

    open spec fn decodes_to(v: DynSpec, t: Self) -> bool {
        &&& v matches DynSpec::Obj(fs)
        &&& obj_get(fs, "clientId"@) == Some(DynSpec::Text(t.client_id@))
        &&& obj_get(fs, "callbackUrl"@) == Some(DynSpec::Text(t.callback_url@))
        &&& obj_get(fs, "scopes"@) == Some(DynSpec::Arr(texts_view(t.scopes@)))
    }

    proof fn lemma_round_trip(&self) {
        reveal_strlit("callbackUrl");
        reveal_strlit("clientId");
        reveal_strlit("scopes");
        assert("callbackUrl"@.len() == 11);
        assert("clientId"@.len() == 8);
        assert("scopes"@.len() == 6);
        assert("clientId"@ != "callbackUrl"@);
        assert("clientId"@ != "scopes"@);
        assert("callbackUrl"@ != "scopes"@);
        let s0 = Seq::<(Seq<char>, DynSpec)>::empty();
        let s1 = s0.push(("clientId"@, DynSpec::Text(self.client_id@)));
        let s2 = s1.push(("callbackUrl"@, DynSpec::Text(self.callback_url@)));
        let s3 = s2.push(("scopes"@, DynSpec::Arr(texts_view(self.scopes@))));
        assert(obj_get(s0, "callbackUrl"@) is None);
        assert(obj_get(s0, "clientId"@) is None);
        assert(obj_get(s0, "scopes"@) is None);
        lemma_obj_get_push(s0, "clientId"@, DynSpec::Text(self.client_id@), "callbackUrl"@);
        lemma_obj_get_push(s0, "clientId"@, DynSpec::Text(self.client_id@), "clientId"@);
        lemma_obj_get_push(s0, "clientId"@, DynSpec::Text(self.client_id@), "scopes"@);
        lemma_obj_get_push(s1, "callbackUrl"@, DynSpec::Text(self.callback_url@), "callbackUrl"@);
        lemma_obj_get_push(s1, "callbackUrl"@, DynSpec::Text(self.callback_url@), "clientId"@);
        lemma_obj_get_push(s1, "callbackUrl"@, DynSpec::Text(self.callback_url@), "scopes"@);
        lemma_obj_get_push(s2, "scopes"@, DynSpec::Arr(texts_view(self.scopes@)), "callbackUrl"@);
        lemma_obj_get_push(s2, "scopes"@, DynSpec::Arr(texts_view(self.scopes@)), "clientId"@);
        lemma_obj_get_push(s2, "scopes"@, DynSpec::Arr(texts_view(self.scopes@)), "scopes"@);
        assert(obj_get(s3, "clientId"@) == Some(DynSpec::Text(self.client_id@)));
        assert(obj_get(s3, "callbackUrl"@) == Some(DynSpec::Text(self.callback_url@)));
        assert(obj_get(s3, "scopes"@) == Some(DynSpec::Arr(texts_view(self.scopes@))));
        assert forall|other: Self|
            Self::decodes_to(self.enc(), other) implies other.enc() == self.enc() by {
            assert(other.client_id@ == self.client_id@);
            assert(other.callback_url@ == self.callback_url@);
            assert(texts_view(other.scopes@) == texts_view(self.scopes@));
        }
    }

    fn encode_dyn(&self) -> (r: Result<DynamicValue, MarshalError>) {
        let mut fields: Vec<(String, DynamicValue)> = Vec::new();
        proof {
            assert(dyn_fields_view(fields@) =~= Seq::<(Seq<char>, DynSpec)>::empty());
        }
        crate::codec::push_field(&mut fields, "clientId", string_value(&self.client_id));
        crate::codec::push_field(&mut fields, "callbackUrl", string_value(&self.callback_url));
        crate::codec::push_field(&mut fields, "scopes", text_list_value(&self.scopes));
        let d = DynamicValue::Object(fields);
        proof {
            assert(d@ =~~= self.enc());
        }
        Ok(d)
    }

    fn decode_dyn(v: &DynamicValue) -> (r: Result<Self, MarshalError>) {
        let fields = v.as_object()?;
        let client_id = get_text_field(fields, "clientId")?;
        let callback_url = get_text_field(fields, "callbackUrl")?;
        let scopes = get_text_list_field(fields, "scopes")?;
        Ok(AuthConfig { client_id, callback_url, scopes })
    }
}


/// One attribution a data provider requires.
#[derive(Debug, Clone, PartialEq)]
pub struct Attribution {
    pub action: AttributionAction,
    pub content: String,
    pub url: String,
}

impl DynCodec for Attribution {
    open spec fn enc_wf(&self) -> bool {
        &&& self.action.enc_wf()
    }

    open spec fn enc(&self) -> DynSpec {
        DynSpec::Obj(Seq::empty().push(("action"@, self.action.enc())).push(("content"@, DynSpec::Text(self.content@))).push(("url"@, DynSpec::Text(self.url@))))
    }

    open spec fn decodable(v: DynSpec) -> bool {
        &&& v matches DynSpec::Obj(fs)
        &&& obj_get(fs, "action"@) matches Some(x0) && AttributionAction::decodable(x0)
        &&& obj_get(fs, "content"@) matches Some(x1) && x1 is Text
        &&& obj_get(fs, "url"@) matches Some(x2) && x2 is Text
    }

    open spec fn decodes_to(v: DynSpec, t: Self) -> bool {
        &&& v matches DynSpec::Obj(fs)
        &&& obj_get(fs, "action"@) matches Some(x0) && AttributionAction::decodes_to(x0, t.action)
        &&& obj_get(fs, "content"@) == Some(DynSpec::Text(t.content@))
        &&& obj_get(fs, "url"@) == Some(DynSpec::Text(t.url@))
    }

    proof fn lemma_round_trip(&self) {
        reveal_strlit("action");
        reveal_strlit("content");
        reveal_strlit("url");
        assert("action"@.len() == 6);
        assert("content"@.len() == 7);
        assert("url"@.len() == 3);
        assert("action"@ != "content"@);
        assert("action"@ != "url"@);
        assert("content"@ != "url"@);
        self.action.lemma_round_trip();
        let s0 = Seq::<(Seq<char>, DynSpec)>::empty();
        let s1 = s0.push(("action"@, self.action.enc()));
        let s2 = s1.push(("content"@, DynSpec::Text(self.content@)));
        let s3 = s2.push(("url"@, DynSpec::Text(self.url@)));
        assert(obj_get(s0, "action"@) is None);
        assert(obj_get(s0, "content"@) is None);
        assert(obj_get(s0, "url"@) is None);
        lemma_obj_get_push(s0, "action"@, self.action.enc(), "action"@);
        lemma_obj_get_push(s0, "action"@, self.action.enc(), "content"@);
        lemma_obj_get_push(s0, "action"@, self.action.enc(), "url"@);
        lemma_obj_get_push(s1, "content"@, DynSpec::Text(self.content@), "action"@);
        lemma_obj_get_push(s1, "content"@, DynSpec::Text(self.content@), "content"@);
        lemma_obj_get_push(s1, "content"@, DynSpec::Text(self.content@), "url"@);
        lemma_obj_get_push(s2, "url"@, DynSpec::Text(self.url@), "action"@);
        lemma_obj_get_push(s2, "url"@, DynSpec::Text(self.url@), "content"@);
        lemma_obj_get_push(s2, "url"@, DynSpec::Text(self.url@), "url"@);
        assert(obj_get(s3, "action"@) == Some(self.action.enc()));
        assert(obj_get(s3, "content"@) == Some(DynSpec::Text(self.content@)));
        assert(obj_get(s3, "url"@) == Some(DynSpec::Text(self.url@)));
        assert forall|other: Self|
            Self::decodes_to(self.enc(), other) implies other.enc() == self.enc() by {
            assert(other.action.enc() == self.action.enc());
            assert(other.content@ == self.content@);
            assert(other.url@ == self.url@);
        }
    }

    fn encode_dyn(&self) -> (r: Result<DynamicValue, MarshalError>) {
        let mut fields: Vec<(String, DynamicValue)> = Vec::new();
        proof {
            assert(dyn_fields_view(fields@) =~= Seq::<(Seq<char>, DynSpec)>::empty());
        }
        match self.action.encode_dyn() {
            Ok(ev) => crate::codec::push_field(&mut fields, "action", ev),
            Err(e) => {
                return Err(e);
            },
        }
        crate::codec::push_field(&mut fields, "content", string_value(&self.content));
        crate::codec::push_field(&mut fields, "url", string_value(&self.url));
        let d = DynamicValue::Object(fields);
        proof {
            assert(d@ =~~= self.enc());
        }
        Ok(d)
    }

    fn decode_dyn(v: &DynamicValue) -> (r: Result<Self, MarshalError>) {
        let fields = v.as_object()?;
        let d_action = require_field(fields, "action")?;
        let action = AttributionAction::decode_dyn(d_action)?;
        let content = get_text_field(fields, "content")?;
        let url = get_text_field(fields, "url")?;
        Ok(Attribution { action, content, url })
    }
}

/// Shows a colorbar with the given entries.
#[derive(Debug, Clone, PartialEq)]
pub struct ColorbarAddRequest {
    pub entries: Vec<ColorbarEntry>,
    pub title: Option<String>,
}

impl DynCodec for ColorbarAddRequest {
    open spec fn enc_wf(&self) -> bool {
        &&& forall|i: int| 0 <= i < self.entries@.len() ==> (#[trigger] self.entries@[i]).enc_wf()
    }

    open spec fn enc(&self) -> DynSpec {
        DynSpec::Obj(push_opt(Seq::empty().push(("entries"@, DynSpec::Arr(list_enc(self.entries@)))), "title"@, opt_text_spec(self.title)))
    }

    open spec fn decodable(v: DynSpec) -> bool {
        &&& v matches DynSpec::Obj(fs)
        &&& obj_get(fs, "entries"@) matches Some(x0) && list_decodable::<ColorbarEntry>(x0)
        &&& opt_text_ok(obj_get(fs, "title"@))
    }

    open spec fn decodes_to(v: DynSpec, t: Self) -> bool {
        &&& v matches DynSpec::Obj(fs)
        &&& obj_get(fs, "entries"@) matches Some(x0) && list_decodes_to::<ColorbarEntry>(x0, t.entries@)
        &&& opt_text_match(obj_get(fs, "title"@), t.title)
    }

    proof fn lemma_round_trip(&self) {
        reveal_strlit("entries");
        reveal_strlit("title");
        assert("entries"@.len() == 7);
        assert("title"@.len() == 5);
        assert("entries"@ != "title"@);
        lemma_list_round_trip::<ColorbarEntry>(self.entries@);
        let s0 = Seq::<(Seq<char>, DynSpec)>::empty();
        let s1 = s0.push(("entries"@, DynSpec::Arr(list_enc(self.entries@))));
        let s2 = push_opt(s1, "title"@, opt_text_spec(self.title));
        assert(obj_get(s0, "entries"@) is None);
        assert(obj_get(s0, "title"@) is None);
        lemma_obj_get_push(s0, "entries"@, DynSpec::Arr(list_enc(self.entries@)), "entries"@);
        lemma_obj_get_push(s0, "entries"@, DynSpec::Arr(list_enc(self.entries@)), "title"@);
        lemma_push_opt_get(s1, "title"@, opt_text_spec(self.title), "entries"@);
        lemma_push_opt_get(s1, "title"@, opt_text_spec(self.title), "title"@);
        assert(obj_get(s2, "entries"@) == Some(DynSpec::Arr(list_enc(self.entries@))));
        assert(obj_get(s2, "title"@) == opt_text_spec(self.title));
        assert forall|other: Self|
            Self::decodes_to(self.enc(), other) implies other.enc() == self.enc() by {
            assert(list_enc(other.entries@) == list_enc(self.entries@));
            assert(opt_text_spec(other.title) == opt_text_spec(self.title));
        }
    }

    fn encode_dyn(&self) -> (r: Result<DynamicValue, MarshalError>) {
        let mut fields: Vec<(String, DynamicValue)> = Vec::new();
        proof {
            assert(dyn_fields_view(fields@) =~= Seq::<(Seq<char>, DynSpec)>::empty());
        }
        match encode_list(&self.entries) {
            Ok(ev) => crate::codec::push_field(&mut fields, "entries", ev),
            Err(e) => {
                return Err(e);
            },
        }
        match &self.title {
            Some(x) => crate::codec::push_field(&mut fields, "title", string_value(x)),
            None => {
            },
        }
        let d = DynamicValue::Object(fields);
        proof {
            assert(d@ =~~= self.enc());
        }
        Ok(d)
    }

    fn decode_dyn(v: &DynamicValue) -> (r: Result<Self, MarshalError>) {
        let fields = v.as_object()?;
        let d_entries = require_field(fields, "entries")?;
        let entries = decode_list::<ColorbarEntry>(d_entries)?;
        let title = get_opt_text_field(fields, "title")?;
        Ok(ColorbarAddRequest { entries, title })
    }
}

/// Licensing information governing use and transfer of data.
#[derive(Debug, Clone, PartialEq)]
pub struct Licensing {
    pub attributions: Vec<Attribution>,
    pub exportable: Option<bool>,
    pub license_url: String,
    pub provider_description_url: String,
}

impl DynCodec for Licensing {
    open spec fn enc_wf(&self) -> bool {
        &&& forall|i: int| 0 <= i < self.attributions@.len() ==> (#[trigger] self.attributions@[i]).enc_wf()
    }

    open spec fn enc(&self) -> DynSpec {
        DynSpec::Obj(push_opt(Seq::empty().push(("attributions"@, DynSpec::Arr(list_enc(self.attributions@)))), "exportable"@, opt_bool_spec(self.exportable)).push(("licenseUrl"@, DynSpec::Text(self.license_url@))).push(("providerDescriptionUrl"@, DynSpec::Text(self.provider_description_url@))))
    }

    open spec fn decodable(v: DynSpec) -> bool {
        &&& v matches DynSpec::Obj(fs)
        &&& obj_get(fs, "attributions"@) matches Some(x0) && list_decodable::<Attribution>(x0)
        &&& opt_bool_ok(obj_get(fs, "exportable"@))
        &&& obj_get(fs, "licenseUrl"@) matches Some(x2) && x2 is Text
        &&& obj_get(fs, "providerDescriptionUrl"@) matches Some(x3) && x3 is Text
    }

    open spec fn decodes_to(v: DynSpec, t: Self) -> bool {
        &&& v matches DynSpec::Obj(fs)
        &&& obj_get(fs, "attributions"@) matches Some(x0) && list_decodes_to::<Attribution>(x0, t.attributions@)
        &&& opt_bool_match(obj_get(fs, "exportable"@), t.exportable)
        &&& obj_get(fs, "licenseUrl"@) == Some(DynSpec::Text(t.license_url@))
        &&& obj_get(fs, "providerDescriptionUrl"@) == Some(DynSpec::Text(t.provider_description_url@))
    }

    proof fn lemma_round_trip(&self) {
        reveal_strlit("attributions");
        reveal_strlit("exportable");
        reveal_strlit("licenseUrl");
        reveal_strlit("providerDescriptionUrl");
        assert("attributions"@.len() == 12);
        assert("exportable"@.len() == 10);
        assert("licenseUrl"@.len() == 10);
        assert("providerDescriptionUrl"@.len() == 22);
        assert("attributions"@ != "exportable"@);
        assert("attributions"@ != "licenseUrl"@);
        assert("attributions"@ != "providerDescriptionUrl"@);
        assert("exportable"@[0] == 'e');
        assert("licenseUrl"@[0] == 'l');
        assert("exportable"@ != "licenseUrl"@);
        assert("exportable"@ != "providerDescriptionUrl"@);
        assert("licenseUrl"@ != "providerDescriptionUrl"@);
        lemma_list_round_trip::<Attribution>(self.attributions@);
        let s0 = Seq::<(Seq<char>, DynSpec)>::empty();
        let s1 = s0.push(("attributions"@, DynSpec::Arr(list_enc(self.attributions@))));
        let s2 = push_opt(s1, "exportable"@, opt_bool_spec(self.exportable));
        let s3 = s2.push(("licenseUrl"@, DynSpec::Text(self.license_url@)));
        let s4 = s3.push(("providerDescriptionUrl"@, DynSpec::Text(self.provider_description_url@)));
        assert(obj_get(s0, "attributions"@) is None);
        assert(obj_get(s0, "exportable"@) is None);
        assert(obj_get(s0, "licenseUrl"@) is None);
        assert(obj_get(s0, "providerDescriptionUrl"@) is None);
        lemma_obj_get_push(s0, "attributions"@, DynSpec::Arr(list_enc(self.attributions@)), "attributions"@);
        lemma_obj_get_push(s0, "attributions"@, DynSpec::Arr(list_enc(self.attributions@)), "exportable"@);
        lemma_obj_get_push(s0, "attributions"@, DynSpec::Arr(list_enc(self.attributions@)), "licenseUrl"@);
        lemma_obj_get_push(s0, "attributions"@, DynSpec::Arr(list_enc(self.attributions@)), "providerDescriptionUrl"@);
        lemma_push_opt_get(s1, "exportable"@, opt_bool_spec(self.exportable), "attributions"@);
        lemma_push_opt_get(s1, "exportable"@, opt_bool_spec(self.exportable), "exportable"@);
        lemma_push_opt_get(s1, "exportable"@, opt_bool_spec(self.exportable), "licenseUrl"@);
        lemma_push_opt_get(s1, "exportable"@, opt_bool_spec(self.exportable), "providerDescriptionUrl"@);
        lemma_obj_get_push(s2, "licenseUrl"@, DynSpec::Text(self.license_url@), "attributions"@);
        lemma_obj_get_push(s2, "licenseUrl"@, DynSpec::Text(self.license_url@), "exportable"@);
        lemma_obj_get_push(s2, "licenseUrl"@, DynSpec::Text(self.license_url@), "licenseUrl"@);
        lemma_obj_get_push(s2, "licenseUrl"@, DynSpec::Text(self.license_url@), "providerDescriptionUrl"@);
        lemma_obj_get_push(s3, "providerDescriptionUrl"@, DynSpec::Text(self.provider_description_url@), "attributions"@);
        lemma_obj_get_push(s3, "providerDescriptionUrl"@, DynSpec::Text(self.provider_description_url@), "exportable"@);
        lemma_obj_get_push(s3, "providerDescriptionUrl"@, DynSpec::Text(self.provider_description_url@), "licenseUrl"@);
        lemma_obj_get_push(s3, "providerDescriptionUrl"@, DynSpec::Text(self.provider_description_url@), "providerDescriptionUrl"@);
        assert(obj_get(s4, "attributions"@) == Some(DynSpec::Arr(list_enc(self.attributions@))));
        assert(obj_get(s4, "exportable"@) == opt_bool_spec(self.exportable));
        assert(obj_get(s4, "licenseUrl"@) == Some(DynSpec::Text(self.license_url@)));
        assert(obj_get(s4, "providerDescriptionUrl"@) == Some(DynSpec::Text(self.provider_description_url@)));
        assert forall|other: Self|
            Self::decodes_to(self.enc(), other) implies other.enc() == self.enc() by {
            assert(list_enc(other.attributions@) == list_enc(self.attributions@));
            assert(opt_bool_spec(other.exportable) == opt_bool_spec(self.exportable));
            assert(other.license_url@ == self.license_url@);
            assert(other.provider_description_url@ == self.provider_description_url@);
        }
    }

    fn encode_dyn(&self) -> (r: Result<DynamicValue, MarshalError>) {
        let mut fields: Vec<(String, DynamicValue)> = Vec::new();
        proof {
            assert(dyn_fields_view(fields@) =~= Seq::<(Seq<char>, DynSpec)>::empty());
        }
        match encode_list(&self.attributions) {
            Ok(ev) => crate::codec::push_field(&mut fields, "attributions", ev),
            Err(e) => {
                return Err(e);
            },
        }
        if let Some(x) = self.exportable {
            crate::codec::push_field(&mut fields, "exportable", bool_value(x));
        }
        crate::codec::push_field(&mut fields, "licenseUrl", string_value(&self.license_url));
        crate::codec::push_field(&mut fields, "providerDescriptionUrl", string_value(&self.provider_description_url));
        let d = DynamicValue::Object(fields);
        proof {
            assert(d@ =~~= self.enc());
        }
        Ok(d)
    }

    fn decode_dyn(v: &DynamicValue) -> (r: Result<Self, MarshalError>) {
        let fields = v.as_object()?;
        let d_attributions = require_field(fields, "attributions")?;
        let attributions = decode_list::<Attribution>(d_attributions)?;
        let exportable = get_opt_bool_field(fields, "exportable")?;
        let license_url = get_text_field(fields, "licenseUrl")?;
        let provider_description_url = get_text_field(fields, "providerDescriptionUrl")?;
        Ok(Licensing { attributions, exportable, license_url, provider_description_url })
    }
}

/// Data which defines the content of a library item.
#[derive(Debug, Clone, PartialEq)]
pub struct LibraryItemData {
    pub name: String,
    pub status: LibraryStatus,
    pub urn: Option<String>,
}

impl DynCodec for LibraryItemData {
    open spec fn enc_wf(&self) -> bool {
        &&& self.status.enc_wf()
    }

    open spec fn enc(&self) -> DynSpec {
        DynSpec::Obj(push_opt(Seq::empty().push(("name"@, DynSpec::Text(self.name@))).push(("status"@, self.status.enc())), "urn"@, opt_text_spec(self.urn)))
    }

    open spec fn decodable(v: DynSpec) -> bool {
        &&& v matches DynSpec::Obj(fs)
        &&& obj_get(fs, "name"@) matches Some(x0) && x0 is Text
        &&& obj_get(fs, "status"@) matches Some(x1) && LibraryStatus::decodable(x1)
        &&& opt_text_ok(obj_get(fs, "urn"@))
    }

    open spec fn decodes_to(v: DynSpec, t: Self) -> bool {
        &&& v matches DynSpec::Obj(fs)
        &&& obj_get(fs, "name"@) == Some(DynSpec::Text(t.name@))
        &&& obj_get(fs, "status"@) matches Some(x1) && LibraryStatus::decodes_to(x1, t.status)
        &&& opt_text_match(obj_get(fs, "urn"@), t.urn)
    }

    proof fn lemma_round_trip(&self) {
        reveal_strlit("name");
        reveal_strlit("status");
        reveal_strlit("urn");
        assert("name"@.len() == 4);
        assert("status"@.len() == 6);
        assert("urn"@.len() == 3);
        assert("name"@ != "status"@);
        assert("name"@ != "urn"@);
        assert("status"@ != "urn"@);
        self.status.lemma_round_trip();
        let s0 = Seq::<(Seq<char>, DynSpec)>::empty();
        let s1 = s0.push(("name"@, DynSpec::Text(self.name@)));
        let s2 = s1.push(("status"@, self.status.enc()));
        let s3 = push_opt(s2, "urn"@, opt_text_spec(self.urn));
        assert(obj_get(s0, "name"@) is None);
        assert(obj_get(s0, "status"@) is None);
        assert(obj_get(s0, "urn"@) is None);
        lemma_obj_get_push(s0, "name"@, DynSpec::Text(self.name@), "name"@);
        lemma_obj_get_push(s0, "name"@, DynSpec::Text(self.name@), "status"@);
        lemma_obj_get_push(s0, "name"@, DynSpec::Text(self.name@), "urn"@);
        lemma_obj_get_push(s1, "status"@, self.status.enc(), "name"@);
        lemma_obj_get_push(s1, "status"@, self.status.enc(), "status"@);
        lemma_obj_get_push(s1, "status"@, self.status.enc(), "urn"@);
        lemma_push_opt_get(s2, "urn"@, opt_text_spec(self.urn), "name"@);
        lemma_push_opt_get(s2, "urn"@, opt_text_spec(self.urn), "status"@);
        lemma_push_opt_get(s2, "urn"@, opt_text_spec(self.urn), "urn"@);
        assert(obj_get(s3, "name"@) == Some(DynSpec::Text(self.name@)));
        assert(obj_get(s3, "status"@) == Some(self.status.enc()));
        assert(obj_get(s3, "urn"@) == opt_text_spec(self.urn));
        assert forall|other: Self|
            Self::decodes_to(self.enc(), other) implies other.enc() == self.enc() by {
            assert(other.name@ == self.name@);
            assert(other.status.enc() == self.status.enc());
            assert(opt_text_spec(other.urn) == opt_text_spec(self.urn));
        }
    }

    fn encode_dyn(&self) -> (r: Result<DynamicValue, MarshalError>) {
        let mut fields: Vec<(String, DynamicValue)> = Vec::new();
        proof {
            assert(dyn_fields_view(fields@) =~= Seq::<(Seq<char>, DynSpec)>::empty());
        }
        crate::codec::push_field(&mut fields, "name", string_value(&self.name));
        match self.status.encode_dyn() {
            Ok(ev) => crate::codec::push_field(&mut fields, "status", ev),
            Err(e) => {
                return Err(e);
            },
        }
        match &self.urn {
            Some(x) => crate::codec::push_field(&mut fields, "urn", string_value(x)),
            None => {
            },
        }
        let d = DynamicValue::Object(fields);
        proof {
            assert(d@ =~~= self.enc());
        }
        Ok(d)
    }

    fn decode_dyn(v: &DynamicValue) -> (r: Result<Self, MarshalError>) {
        let fields = v.as_object()?;
        let name = get_text_field(fields, "name")?;
        let d_status = require_field(fields, "status")?;
        let status = LibraryStatus::decode_dyn(d_status)?;
        let urn = get_opt_text_field(fields, "urn")?;
        Ok(LibraryItemData { name, status, urn })
    }
}


/// Creates a library item; the item's own fields are written at the top
/// level of the request.
#[derive(Debug, Clone, PartialEq)]
pub struct LibraryCreateItemRequest {
    pub data: LibraryItemData,
}

impl DynCodec for LibraryCreateItemRequest {
    open spec fn enc_wf(&self) -> bool {
        self.data.enc_wf()
    }

    open spec fn enc(&self) -> DynSpec {
        self.data.enc()
    }

    open spec fn decodable(v: DynSpec) -> bool {
        LibraryItemData::decodable(v)
    }

    open spec fn decodes_to(v: DynSpec, t: Self) -> bool {
        LibraryItemData::decodes_to(v, t.data)
    }

    proof fn lemma_round_trip(&self) {
        self.data.lemma_round_trip();
        assert forall|other: Self|
            Self::decodes_to(self.enc(), other) implies other.enc() == self.enc() by {
            assert(other.data.enc() == self.data.enc());
        }
    }

    fn encode_dyn(&self) -> (r: Result<DynamicValue, MarshalError>) {
        self.data.encode_dyn()
    }

    fn decode_dyn(v: &DynamicValue) -> (r: Result<Self, MarshalError>) {
        let data = LibraryItemData::decode_dyn(v)?;
        Ok(LibraryCreateItemRequest { data })
    }
}

/// Updates a library item; the item's own fields are written at the top
/// level of the request, next to the identifier.
#[derive(Debug, Clone, PartialEq)]
pub struct LibraryUpdateItemRequest {
    pub id: String,
    pub data: LibraryItemData,
}

impl DynCodec for LibraryUpdateItemRequest {
    open spec fn enc_wf(&self) -> bool {
        true
    }

    open spec fn enc(&self) -> DynSpec {
        DynSpec::Obj(
            push_opt(
                Seq::empty().push(("id"@, DynSpec::Text(self.id@))).push(
                    ("name"@, DynSpec::Text(self.data.name@)),
                ).push(("status"@, self.data.status.enc())),
                "urn"@,
                opt_text_spec(self.data.urn),
            ),
        )
    }

    open spec fn decodable(v: DynSpec) -> bool {
        &&& v matches DynSpec::Obj(fs)
        &&& obj_get(fs, "id"@) matches Some(x0) && x0 is Text
        &&& obj_get(fs, "name"@) matches Some(x1) && x1 is Text
        &&& obj_get(fs, "status"@) matches Some(x2) && LibraryStatus::decodable(x2)
        &&& opt_text_ok(obj_get(fs, "urn"@))
    }

    open spec fn decodes_to(v: DynSpec, t: Self) -> bool {
        &&& v matches DynSpec::Obj(fs)
        &&& obj_get(fs, "id"@) == Some(DynSpec::Text(t.id@))
        &&& obj_get(fs, "name"@) == Some(DynSpec::Text(t.data.name@))
        &&& obj_get(fs, "status"@) matches Some(x2) && LibraryStatus::decodes_to(x2, t.data.status)
        &&& opt_text_match(obj_get(fs, "urn"@), t.data.urn)
    }

    proof fn lemma_round_trip(&self) {
        reveal_strlit("id");
        reveal_strlit("name");
        reveal_strlit("status");
        reveal_strlit("urn");
        assert("id"@.len() == 2);
        assert("name"@.len() == 4);
        assert("status"@.len() == 6);
        assert("urn"@.len() == 3);
        assert("id"@ != "name"@);
        assert("id"@ != "status"@);
        assert("id"@ != "urn"@);
        assert("name"@ != "status"@);
        assert("name"@ != "urn"@);
        assert("status"@ != "urn"@);
        self.data.status.lemma_round_trip();
        let s0 = Seq::<(Seq<char>, DynSpec)>::empty();
        let s1 = s0.push(("id"@, DynSpec::Text(self.id@)));
        let s2 = s1.push(("name"@, DynSpec::Text(self.data.name@)));
        let s3 = s2.push(("status"@, self.data.status.enc()));
        let s4 = push_opt(s3, "urn"@, opt_text_spec(self.data.urn));
        assert(obj_get(s0, "id"@) is None);
        assert(obj_get(s0, "name"@) is None);
        assert(obj_get(s0, "status"@) is None);
        assert(obj_get(s0, "urn"@) is None);
        lemma_obj_get_push(s0, "id"@, DynSpec::Text(self.id@), "id"@);
        lemma_obj_get_push(s0, "id"@, DynSpec::Text(self.id@), "name"@);
        lemma_obj_get_push(s0, "id"@, DynSpec::Text(self.id@), "status"@);
        lemma_obj_get_push(s0, "id"@, DynSpec::Text(self.id@), "urn"@);
        lemma_obj_get_push(s1, "name"@, DynSpec::Text(self.data.name@), "id"@);
        lemma_obj_get_push(s1, "name"@, DynSpec::Text(self.data.name@), "name"@);
        lemma_obj_get_push(s1, "name"@, DynSpec::Text(self.data.name@), "status"@);
        lemma_obj_get_push(s1, "name"@, DynSpec::Text(self.data.name@), "urn"@);
        lemma_obj_get_push(s2, "status"@, self.data.status.enc(), "id"@);
        lemma_obj_get_push(s2, "status"@, self.data.status.enc(), "name"@);
        lemma_obj_get_push(s2, "status"@, self.data.status.enc(), "status"@);
        lemma_obj_get_push(s2, "status"@, self.data.status.enc(), "urn"@);
        lemma_push_opt_get(s3, "urn"@, opt_text_spec(self.data.urn), "id"@);
        lemma_push_opt_get(s3, "urn"@, opt_text_spec(self.data.urn), "name"@);
        lemma_push_opt_get(s3, "urn"@, opt_text_spec(self.data.urn), "status"@);
        lemma_push_opt_get(s3, "urn"@, opt_text_spec(self.data.urn), "urn"@);
        assert(obj_get(s4, "id"@) == Some(DynSpec::Text(self.id@)));
        assert(obj_get(s4, "name"@) == Some(DynSpec::Text(self.data.name@)));
        assert(obj_get(s4, "status"@) == Some(self.data.status.enc()));
        assert(obj_get(s4, "urn"@) == opt_text_spec(self.data.urn));
        assert forall|other: Self|
            Self::decodes_to(self.enc(), other) implies other.enc() == self.enc() by {
            assert(other.id@ == self.id@);
            assert(other.data.name@ == self.data.name@);
            assert(other.data.status.enc() == self.data.status.enc());
            assert(opt_text_spec(other.data.urn) == opt_text_spec(self.data.urn));
        }
    }

    fn encode_dyn(&self) -> (r: Result<DynamicValue, MarshalError>) {
        let mut fields: Vec<(String, DynamicValue)> = Vec::new();
        proof {
            assert(dyn_fields_view(fields@) =~= Seq::<(Seq<char>, DynSpec)>::empty());
        }
        crate::codec::push_field(&mut fields, "id", string_value(&self.id));
        crate::codec::push_field(&mut fields, "name", string_value(&self.data.name));
        match self.data.status.encode_dyn() {
            Ok(sv) => crate::codec::push_field(&mut fields, "status", sv),
            Err(e) => {
                return Err(e);
            },
        }
        match &self.data.urn {
            Some(u) => crate::codec::push_field(&mut fields, "urn", string_value(u)),
            None => {
            },
        }
        let d = DynamicValue::Object(fields);
        proof {
            assert(d@ =~~= self.enc());
        }
        Ok(d)
    }

    fn decode_dyn(v: &DynamicValue) -> (r: Result<Self, MarshalError>) {
        let fields = v.as_object()?;
        let id = get_text_field(fields, "id")?;
        let name = get_text_field(fields, "name")?;
        let d_status = require_field(fields, "status")?;
        let status = LibraryStatus::decode_dyn(d_status)?;
        let urn = get_opt_text_field(fields, "urn")?;
        Ok(LibraryUpdateItemRequest { id, data: LibraryItemData { name, status, urn } })
    }
}

/// Uploads a file's raw bytes under a name. The bytes travel as a binary
/// buffer view, never as a structural array of numbers.
#[derive(Debug, Clone, PartialEq)]
pub struct UploadFileRequest {
    pub data: Vec<u8>,
    pub name: String,
}

impl DynCodec for UploadFileRequest {
    open spec fn enc_wf(&self) -> bool {
        self.data@.len() <= u32::MAX
    }

    open spec fn enc(&self) -> DynSpec {
        DynSpec::Obj(
            Seq::empty().push(("data"@, DynSpec::Bytes(self.data@))).push(
                ("name"@, DynSpec::Text(self.name@)),
            ),
        )
    }

    open spec fn decodable(v: DynSpec) -> bool {
        &&& v matches DynSpec::Obj(fs)
        &&& obj_get(fs, "data"@) matches Some(x0) && x0 is Bytes
        &&& obj_get(fs, "name"@) matches Some(x1) && x1 is Text
    }

    open spec fn decodes_to(v: DynSpec, t: Self) -> bool {
        &&& v matches DynSpec::Obj(fs)
        &&& obj_get(fs, "data"@) == Some(DynSpec::Bytes(t.data@))
        &&& obj_get(fs, "name"@) == Some(DynSpec::Text(t.name@))
    }

    proof fn lemma_round_trip(&self) {
        reveal_strlit("data");
        reveal_strlit("name");
        assert("data"@.len() == 4);
        assert("name"@.len() == 4);
        assert("data"@[0] == 'd');
        assert("name"@[0] == 'n');
        assert("data"@ != "name"@);
        let s0 = Seq::<(Seq<char>, DynSpec)>::empty();
        let s1 = s0.push(("data"@, DynSpec::Bytes(self.data@)));
        let s2 = s1.push(("name"@, DynSpec::Text(self.name@)));
        assert(obj_get(s0, "data"@) is None);
        assert(obj_get(s0, "name"@) is None);
        lemma_obj_get_push(s0, "data"@, DynSpec::Bytes(self.data@), "data"@);
        lemma_obj_get_push(s0, "data"@, DynSpec::Bytes(self.data@), "name"@);
        lemma_obj_get_push(s1, "name"@, DynSpec::Text(self.name@), "data"@);
        lemma_obj_get_push(s1, "name"@, DynSpec::Text(self.name@), "name"@);
        assert(obj_get(s2, "data"@) == Some(DynSpec::Bytes(self.data@)));
        assert(obj_get(s2, "name"@) == Some(DynSpec::Text(self.name@)));
    }

    fn encode_dyn(&self) -> (r: Result<DynamicValue, MarshalError>) {
        if self.data.len() > u32::MAX as usize {
            return Err(MarshalError::new("binary payload too large for a host buffer view"));
        }
        let mut fields: Vec<(String, DynamicValue)> = Vec::new();
        proof {
            assert(dyn_fields_view(fields@) =~= Seq::<(Seq<char>, DynSpec)>::empty());
        }
        crate::codec::push_field(&mut fields, "data", bytes_value(&self.data));
        crate::codec::push_field(&mut fields, "name", string_value(&self.name));
        let d = DynamicValue::Object(fields);
        proof {
            assert(d@ =~~= self.enc());
        }
        Ok(d)
    }

    fn decode_dyn(v: &DynamicValue) -> (r: Result<Self, MarshalError>) {
        let fields = v.as_object()?;
        let data = get_bytes_field(fields, "data")?;
        let name = get_text_field(fields, "name")?;
        Ok(UploadFileRequest { data, name })
    }
}

/// Geometry data for mesh rendering. The vertex positions are 32-bit float
/// bit patterns (three per vertex); the optional colors are raw bytes. Both
/// travel as binary buffer views.
#[derive(Debug, Clone, PartialEq)]
pub struct GeometryData {
    pub position: Vec<u32>,
    pub color: Option<Vec<u8>>,
}

impl DynCodec for GeometryData {
    open spec fn enc_wf(&self) -> bool {
        &&& self.position@.len() <= u32::MAX
        &&& self.color matches Some(c) ==> c@.len() <= u32::MAX
    }

    open spec fn enc(&self) -> DynSpec {
        DynSpec::Obj(
            push_opt(
                Seq::empty().push(("position"@, DynSpec::FloatArray(self.position@))),
                "color"@,
                opt_bytes_spec(self.color),
            ),
        )
    }

    open spec fn decodable(v: DynSpec) -> bool {
        &&& v matches DynSpec::Obj(fs)
        &&& obj_get(fs, "position"@) matches Some(x0) && x0 is FloatArray
        &&& opt_bytes_ok(obj_get(fs, "color"@))
    }

    open spec fn decodes_to(v: DynSpec, t: Self) -> bool {
        &&& v matches DynSpec::Obj(fs)
        &&& obj_get(fs, "position"@) == Some(DynSpec::FloatArray(t.position@))
        &&& opt_bytes_match(obj_get(fs, "color"@), t.color)
    }

    proof fn lemma_round_trip(&self) {
        reveal_strlit("position");
        reveal_strlit("color");
        assert("position"@.len() == 8);
        assert("color"@.len() == 5);
        assert("position"@ != "color"@);
        let s0 = Seq::<(Seq<char>, DynSpec)>::empty();
        let s1 = s0.push(("position"@, DynSpec::FloatArray(self.position@)));
        let s2 = push_opt(s1, "color"@, opt_bytes_spec(self.color));
        assert(obj_get(s0, "position"@) is None);
        assert(obj_get(s0, "color"@) is None);
        lemma_obj_get_push(s0, "position"@, DynSpec::FloatArray(self.position@), "position"@);
        lemma_obj_get_push(s0, "position"@, DynSpec::FloatArray(self.position@), "color"@);
        lemma_push_opt_get(s1, "color"@, opt_bytes_spec(self.color), "position"@);
        lemma_push_opt_get(s1, "color"@, opt_bytes_spec(self.color), "color"@);
        assert(obj_get(s2, "position"@) == Some(DynSpec::FloatArray(self.position@)));
        assert(obj_get(s2, "color"@) == opt_bytes_spec(self.color));
        assert forall|other: Self|
            Self::decodes_to(self.enc(), other) implies other.enc() == self.enc() by {
            assert(other.position@ == self.position@);
            assert(opt_bytes_spec(other.color) == opt_bytes_spec(self.color));
        }
    }

    fn encode_dyn(&self) -> (r: Result<DynamicValue, MarshalError>) {
        if self.position.len() > u32::MAX as usize {
            return Err(MarshalError::new("vertex buffer too large for a host buffer view"));
        }
        match &self.color {
            Some(c) => {
                if c.len() > u32::MAX as usize {
                    return Err(MarshalError::new("color buffer too large for a host buffer view"));
                }
            },
            None => {
            },
        }
        let mut fields: Vec<(String, DynamicValue)> = Vec::new();
        proof {
            assert(dyn_fields_view(fields@) =~= Seq::<(Seq<char>, DynSpec)>::empty());
        }
        crate::codec::push_field(&mut fields, "position", float_array_value(&self.position));
        match &self.color {
            Some(c) => crate::codec::push_field(&mut fields, "color", bytes_value(c)),
            None => {
            },
        }
        let d = DynamicValue::Object(fields);
        proof {
            assert(d@ =~~= self.enc());
        }
        Ok(d)
    }

    fn decode_dyn(v: &DynamicValue) -> (r: Result<Self, MarshalError>) {
        let fields = v.as_object()?;
        let position = get_float_array_field(fields, "position")?;
        let color = get_opt_bytes_field(fields, "color")?;
        Ok(GeometryData { position, color })
    }
}

/// A free-form host event or payload: any dynamic value decodes to itself.
/// The event sources whose payloads have no fixed schema (view state
/// changes, locale updates, message-port traffic, proposal changes) deliver
/// through this shape; the subscriber interprets the carried value.
#[derive(Debug, PartialEq)]
pub struct JsonEvent {
    pub value: DynamicValue,
}

impl DynCodec for JsonEvent {
    open spec fn enc_wf(&self) -> bool {
        true
    }

    open spec fn enc(&self) -> DynSpec {
        self.value@
    }

    open spec fn decodable(v: DynSpec) -> bool {
        true
    }

    open spec fn decodes_to(v: DynSpec, t: Self) -> bool {
        t.value@ == v
    }

    proof fn lemma_round_trip(&self) {
    }

    fn encode_dyn(&self) -> (r: Result<DynamicValue, MarshalError>) {
        Ok(self.value.duplicate())
    }

    fn decode_dyn(v: &DynamicValue) -> (r: Result<Self, MarshalError>) {
        Ok(JsonEvent { value: v.duplicate() })
    }
}

/// Whether an optional transform field holds a 4-by-4 matrix: absent, or an
/// array of exactly sixteen numbers.
pub open spec fn opt_transform_ok(o: Option<DynSpec>) -> bool {
    opt_double_list_ok(o) && match o {
        Option::Some(DynSpec::Arr(items)) => items.len() == 16,
        _ => true,
    }
}

/// Adds or updates a mesh in the scene. The geometry travels as binary
/// buffer views inside the `geometryData` object; the optional transform is
/// a plain array of sixteen numbers, carried as 64-bit float bit patterns.
#[derive(Debug, Clone, PartialEq)]
pub struct MeshRequest {
    pub id: String,
    pub geometry_data: GeometryData,
    pub transform: Option<Vec<u64>>,
}

impl DynCodec for MeshRequest {
    open spec fn enc_wf(&self) -> bool {
        &&& self.geometry_data.enc_wf()
        &&& self.transform matches Some(bs) ==> bs@.len() == 16
    }

    open spec fn enc(&self) -> DynSpec {
        DynSpec::Obj(
            push_opt(
                Seq::empty().push(("id"@, DynSpec::Text(self.id@))).push(
                    ("geometryData"@, self.geometry_data.enc()),
                ),
                "transform"@,
                opt_double_list_spec(self.transform),
            ),
        )
    }

    open spec fn decodable(v: DynSpec) -> bool {
        &&& v matches DynSpec::Obj(fs)
        &&& obj_get(fs, "id"@) matches Some(x0) && x0 is Text
        &&& obj_get(fs, "geometryData"@) matches Some(x1) && GeometryData::decodable(x1)
        &&& opt_transform_ok(obj_get(fs, "transform"@))
    }

    open spec fn decodes_to(v: DynSpec, t: Self) -> bool {
        &&& v matches DynSpec::Obj(fs)
        &&& obj_get(fs, "id"@) == Some(DynSpec::Text(t.id@))
        &&& obj_get(fs, "geometryData"@) matches Some(x1) && GeometryData::decodes_to(
            x1,
            t.geometry_data,
        )
        &&& opt_double_list_match(obj_get(fs, "transform"@), t.transform)
    }

    proof fn lemma_round_trip(&self) {
        reveal_strlit("id");
        reveal_strlit("geometryData");
        reveal_strlit("transform");
        assert("id"@.len() == 2);
        assert("geometryData"@.len() == 12);
        assert("transform"@.len() == 9);
        assert("id"@ != "geometryData"@);
        assert("id"@ != "transform"@);
        assert("geometryData"@ != "transform"@);
        self.geometry_data.lemma_round_trip();
        let s0 = Seq::<(Seq<char>, DynSpec)>::empty();
        let s1 = s0.push(("id"@, DynSpec::Text(self.id@)));
        let s2 = s1.push(("geometryData"@, self.geometry_data.enc()));
        let s3 = push_opt(s2, "transform"@, opt_double_list_spec(self.transform));
        assert(obj_get(s0, "id"@) is None);
        assert(obj_get(s0, "geometryData"@) is None);
        assert(obj_get(s0, "transform"@) is None);
        lemma_obj_get_push(s0, "id"@, DynSpec::Text(self.id@), "id"@);
        lemma_obj_get_push(s0, "id"@, DynSpec::Text(self.id@), "geometryData"@);
        lemma_obj_get_push(s0, "id"@, DynSpec::Text(self.id@), "transform"@);
        lemma_obj_get_push(s1, "geometryData"@, self.geometry_data.enc(), "id"@);
        lemma_obj_get_push(s1, "geometryData"@, self.geometry_data.enc(), "geometryData"@);
        lemma_obj_get_push(s1, "geometryData"@, self.geometry_data.enc(), "transform"@);
        lemma_push_opt_get(s2, "transform"@, opt_double_list_spec(self.transform), "id"@);
        lemma_push_opt_get(s2, "transform"@, opt_double_list_spec(self.transform), "geometryData"@);
        lemma_push_opt_get(s2, "transform"@, opt_double_list_spec(self.transform), "transform"@);
        assert(obj_get(s3, "id"@) == Some(DynSpec::Text(self.id@)));
        assert(obj_get(s3, "geometryData"@) == Some(self.geometry_data.enc()));
        assert(obj_get(s3, "transform"@) == opt_double_list_spec(self.transform));
        assert forall|other: Self|
            Self::decodes_to(self.enc(), other) implies other.enc() == self.enc() by {
            assert(other.id@ == self.id@);
            assert(other.geometry_data.enc() == self.geometry_data.enc());
            assert(opt_double_list_spec(other.transform) == opt_double_list_spec(self.transform));
        }
    }

    fn encode_dyn(&self) -> (r: Result<DynamicValue, MarshalError>) {
        match &self.transform {
            Some(bs) => {
                if bs.len() != 16 {
                    return Err(MarshalError::new("a transform must hold sixteen numbers"));
                }
            },
            None => {
            },
        }
        let mut fields: Vec<(String, DynamicValue)> = Vec::new();
        proof {
            assert(dyn_fields_view(fields@) =~= Seq::<(Seq<char>, DynSpec)>::empty());
        }
        crate::codec::push_field(&mut fields, "id", string_value(&self.id));
        match self.geometry_data.encode_dyn() {
            Ok(gv) => crate::codec::push_field(&mut fields, "geometryData", gv),
            Err(e) => {
                return Err(e);
            },
        }
        match &self.transform {
            Some(bs) => crate::codec::push_field(&mut fields, "transform", double_list_value(bs)),
            None => {
            },
        }
        let d = DynamicValue::Object(fields);
        proof {
            assert(d@ =~~= self.enc());
        }
        Ok(d)
    }

    fn decode_dyn(v: &DynamicValue) -> (r: Result<Self, MarshalError>) {
        let fields = v.as_object()?;
        let id = get_text_field(fields, "id")?;
        let d_geom = require_field(fields, "geometryData")?;
        let geometry_data = GeometryData::decode_dyn(d_geom)?;
        let transform = get_opt_double_list_field(fields, "transform")?;
        match &transform {
            Some(bs) => {
                if bs.len() != 16 {
                    return Err(MarshalError::new("a transform must hold sixteen numbers"));
                }
            },
            None => {
            },
        }
        Ok(MeshRequest { id, geometry_data, transform })
    }
}

/// Adds or updates a GLB model in the scene. The GLB bytes travel as one
/// binary buffer; the optional transform is a plain array of sixteen
/// numbers, carried as 64-bit float bit patterns.
#[derive(Debug, Clone, PartialEq)]
pub struct GlbRenderRequest {
    pub id: String,
    pub glb: Vec<u8>,
    pub transform: Option<Vec<u64>>,
}

impl DynCodec for GlbRenderRequest {
    open spec fn enc_wf(&self) -> bool {
        &&& self.glb@.len() <= u32::MAX
        &&& self.transform matches Some(bs) ==> bs@.len() == 16
    }

    open spec fn enc(&self) -> DynSpec {
        DynSpec::Obj(
            push_opt(
                Seq::empty().push(("id"@, DynSpec::Text(self.id@))).push(
                    ("glb"@, DynSpec::Bytes(self.glb@)),
                ),
                "transform"@,
                opt_double_list_spec(self.transform),
            ),
        )
    }

    open spec fn decodable(v: DynSpec) -> bool {
        &&& v matches DynSpec::Obj(fs)
        &&& obj_get(fs, "id"@) matches Some(x0) && x0 is Text
        &&& obj_get(fs, "glb"@) matches Some(x1) && x1 is Bytes
        &&& opt_transform_ok(obj_get(fs, "transform"@))
    }

    open spec fn decodes_to(v: DynSpec, t: Self) -> bool {
        &&& v matches DynSpec::Obj(fs)
        &&& obj_get(fs, "id"@) == Some(DynSpec::Text(t.id@))
        &&& obj_get(fs, "glb"@) == Some(DynSpec::Bytes(t.glb@))
        &&& opt_double_list_match(obj_get(fs, "transform"@), t.transform)
    }

    proof fn lemma_round_trip(&self) {
        reveal_strlit("id");
        reveal_strlit("glb");
        reveal_strlit("transform");
        assert("id"@.len() == 2);
        assert("glb"@.len() == 3);
        assert("transform"@.len() == 9);
        assert("id"@ != "glb"@);
        assert("id"@ != "transform"@);
        assert("glb"@ != "transform"@);
        let s0 = Seq::<(Seq<char>, DynSpec)>::empty();
        let s1 = s0.push(("id"@, DynSpec::Text(self.id@)));
        let s2 = s1.push(("glb"@, DynSpec::Bytes(self.glb@)));
        let s3 = push_opt(s2, "transform"@, opt_double_list_spec(self.transform));
        assert(obj_get(s0, "id"@) is None);
        assert(obj_get(s0, "glb"@) is None);
        assert(obj_get(s0, "transform"@) is None);
        lemma_obj_get_push(s0, "id"@, DynSpec::Text(self.id@), "id"@);
        lemma_obj_get_push(s0, "id"@, DynSpec::Text(self.id@), "glb"@);
        lemma_obj_get_push(s0, "id"@, DynSpec::Text(self.id@), "transform"@);
        lemma_obj_get_push(s1, "glb"@, DynSpec::Bytes(self.glb@), "id"@);
        lemma_obj_get_push(s1, "glb"@, DynSpec::Bytes(self.glb@), "glb"@);
        lemma_obj_get_push(s1, "glb"@, DynSpec::Bytes(self.glb@), "transform"@);
        lemma_push_opt_get(s2, "transform"@, opt_double_list_spec(self.transform), "id"@);
        lemma_push_opt_get(s2, "transform"@, opt_double_list_spec(self.transform), "glb"@);
        lemma_push_opt_get(s2, "transform"@, opt_double_list_spec(self.transform), "transform"@);
        assert(obj_get(s3, "id"@) == Some(DynSpec::Text(self.id@)));
        assert(obj_get(s3, "glb"@) == Some(DynSpec::Bytes(self.glb@)));
        assert(obj_get(s3, "transform"@) == opt_double_list_spec(self.transform));
        assert forall|other: Self|
            Self::decodes_to(self.enc(), other) implies other.enc() == self.enc() by {
            assert(other.id@ == self.id@);
            assert(other.glb@ == self.glb@);
            assert(opt_double_list_spec(other.transform) == opt_double_list_spec(self.transform));
        }
    }

    fn encode_dyn(&self) -> (r: Result<DynamicValue, MarshalError>) {
        if self.glb.len() > u32::MAX as usize {
            return Err(MarshalError::new("binary payload too large for a host buffer view"));
        }
        match &self.transform {
            Some(bs) => {
                if bs.len() != 16 {
                    return Err(MarshalError::new("a transform must hold sixteen numbers"));
                }
            },
            None => {
            },
        }
        let mut fields: Vec<(String, DynamicValue)> = Vec::new();
        proof {
            assert(dyn_fields_view(fields@) =~= Seq::<(Seq<char>, DynSpec)>::empty());
        }
        crate::codec::push_field(&mut fields, "id", string_value(&self.id));
        crate::codec::push_field(&mut fields, "glb", bytes_value(&self.glb));
        match &self.transform {
            Some(bs) => crate::codec::push_field(&mut fields, "transform", double_list_value(bs)),
            None => {
            },
        }
        let d = DynamicValue::Object(fields);
        proof {
            assert(d@ =~~= self.enc());
        }
        Ok(d)
    }

    fn decode_dyn(v: &DynamicValue) -> (r: Result<Self, MarshalError>) {
        let fields = v.as_object()?;
        let id = get_text_field(fields, "id")?;
        let glb = get_bytes_field(fields, "glb")?;
        let transform = get_opt_double_list_field(fields, "transform")?;
        match &transform {
            Some(bs) => {
                if bs.len() != 16 {
                    return Err(MarshalError::new("a transform must hold sixteen numbers"));
                }
            },
            None => {
            },
        }
        Ok(GlbRenderRequest { id, glb, transform })
    }
}

} // verus!
