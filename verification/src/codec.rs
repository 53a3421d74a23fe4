//! The value codec: typed shapes against dynamic values.
//!
//! Every typed request/response shape implements [`DynCodec`]: it states at
//! the specification level what its encoding looks like ([`DynCodec::enc`]),
//! which dynamic values it accepts ([`DynCodec::decodable`]) and what a
//! decoded value holds ([`DynCodec::decodes_to`]), and proves that decoding
//! an encoding recovers the original ([`DynCodec::lemma_round_trip`]).
//!
//! Decoding is strict: a dynamic value either decodes cleanly into the
//! declared shape or the codec reports a [`MarshalError`]; there is no
//! partial or best-effort decoding. Optional fields that are absent are
//! omitted from encodings rather than written as `null`, and on the decode
//! side both host `null` and host `undefined` count as the absent case.

use crate::dynamic::DynSpec;
use crate::dynamic::DynamicValue;
use crate::dynamic::dyn_fields_view;
use crate::dynamic::dyn_seq_view;
use crate::dynamic::lemma_dyn_fields_view;
use crate::dynamic::lemma_dyn_seq_view;
use crate::dynamic::lemma_obj_get_skip;
use crate::dynamic::obj_get;
use crate::error::MarshalError;
use vstd::prelude::*;

verus! {

/// A typed shape that converts to and from dynamic values.
pub trait DynCodec: Sized {
    /// Whether this value can be encoded at all. Host binary buffer views are
    /// 32-bit indexed, so shapes carrying binary payloads are encodable only
    /// while those payloads fit; for every other shape this is simply `true`.
    spec fn enc_wf(&self) -> bool;

    /// The encoding of this value.
    spec fn enc(&self) -> DynSpec;

    /// Which dynamic values decode cleanly into this shape.
    spec fn decodable(v: DynSpec) -> bool;

    /// What a value decoded from `v` holds, field by field.
    spec fn decodes_to(v: DynSpec, t: Self) -> bool;

    /// Round trip: decoding an encoding succeeds, and anything it may yield
    /// carries exactly the original's content (the encodings coincide).
    proof fn lemma_round_trip(&self)
        requires
            self.enc_wf(),
        ensures
            Self::decodable(self.enc()),
            forall|other: Self|
                Self::decodes_to(self.enc(), other) ==> other.enc() == self.enc(),
    ;

    /// Encodes this value, or reports why it cannot be encoded. An encoding
    /// failure means the request never reaches the host.
    fn encode_dyn(&self) -> (r: Result<DynamicValue, MarshalError>)
        ensures
            r matches Ok(d) ==> self.enc_wf() && d@ == self.enc(),
            r is Err ==> !self.enc_wf(),
    ;

    /// Decodes a dynamic value into this shape, strictly.
    fn decode_dyn(v: &DynamicValue) -> (r: Result<Self, MarshalError>)
        ensures
            r matches Ok(t) ==> Self::decodable(v@) && Self::decodes_to(v@, t),
            r is Err ==> !Self::decodable(v@),
    ;
}

impl DynCodec for bool {
    open spec fn enc_wf(&self) -> bool {
        true
    }

    open spec fn enc(&self) -> DynSpec {
        DynSpec::Bool(*self)
    }

    open spec fn decodable(v: DynSpec) -> bool {
        v is Bool
    }

    open spec fn decodes_to(v: DynSpec, t: Self) -> bool {
        v == DynSpec::Bool(t)
    }

    proof fn lemma_round_trip(&self) {
    }

    fn encode_dyn(&self) -> (r: Result<DynamicValue, MarshalError>) {
        Ok(DynamicValue::Bool(*self))
    }

    fn decode_dyn(v: &DynamicValue) -> (r: Result<Self, MarshalError>) {
        v.to_bool()
    }
}

impl DynCodec for String {
    open spec fn enc_wf(&self) -> bool {
        true
    }

    open spec fn enc(&self) -> DynSpec {
        DynSpec::Text(self@)
    }

    open spec fn decodable(v: DynSpec) -> bool {
        v is Text
    }

    open spec fn decodes_to(v: DynSpec, t: Self) -> bool {
        v == DynSpec::Text(t@)
    }

    proof fn lemma_round_trip(&self) {
    }

    fn encode_dyn(&self) -> (r: Result<DynamicValue, MarshalError>) {
        Ok(DynamicValue::Text(self.clone()))
    }

    fn decode_dyn(v: &DynamicValue) -> (r: Result<Self, MarshalError>) {
        v.to_text()
    }
}

/// Whether a field lookup result counts as absent for an `Option` target:
/// the field is missing, or it holds host `null`, or it holds host
/// `undefined`.
pub open spec fn absent(looked_up: Option<DynSpec>) -> bool {
    match looked_up {
        Option::None => true,
        Option::Some(d) => d is Null || d is Undef,
    }
}

/// Appends an optional field: present values are written, absent values are
/// omitted entirely (never written as `null`).
pub open spec fn push_opt(
    fs: Seq<(Seq<char>, DynSpec)>,
    name: Seq<char>,
    v: Option<DynSpec>,
) -> Seq<(Seq<char>, DynSpec)> {
    match v {
        Option::Some(d) => fs.push((name, d)),
        Option::None => fs,
    }
}

/// The encoding of an optional string.
pub open spec fn opt_text_spec(o: Option<String>) -> Option<DynSpec> {
    match o {
        Option::Some(s) => Option::Some(DynSpec::Text(s@)),
        Option::None => Option::None,
    }
}

/// The encoding of an optional boolean.
pub open spec fn opt_bool_spec(o: Option<bool>) -> Option<DynSpec> {
    match o {
        Option::Some(b) => Option::Some(DynSpec::Bool(b)),
        Option::None => Option::None,
    }
}

/// The encoding of an optional unsigned 32-bit integer.
pub open spec fn opt_u32_spec(o: Option<u32>) -> Option<DynSpec> {
    match o {
        Option::Some(n) => Option::Some(DynSpec::Int(n as int)),
        Option::None => Option::None,
    }
}

/// The encoding of an optional string list.
pub open spec fn opt_text_list_spec(o: Option<Vec<String>>) -> Option<DynSpec> {
    match o {
        Option::Some(ss) => Option::Some(DynSpec::Arr(texts_view(ss@))),
        Option::None => Option::None,
    }
}

/// The encoding of an optional number list of 64-bit float bit patterns.
pub open spec fn opt_double_list_spec(o: Option<Vec<u64>>) -> Option<DynSpec> {
    match o {
        Option::Some(bs) => Option::Some(DynSpec::Arr(doubles_view(bs@))),
        Option::None => Option::None,
    }
}

/// The encoding of an optional byte buffer.
pub open spec fn opt_bytes_spec(o: Option<Vec<u8>>) -> Option<DynSpec> {
    match o {
        Option::Some(b) => Option::Some(DynSpec::Bytes(b@)),
        Option::None => Option::None,
    }
}

/// Whether an optional field's lookup result decodes as an optional string.
pub open spec fn opt_text_ok(o: Option<DynSpec>) -> bool {
    absent(o) || (o matches Some(d) && d is Text)
}

/// Whether an optional field's lookup result decodes as an optional boolean.
pub open spec fn opt_bool_ok(o: Option<DynSpec>) -> bool {
    absent(o) || (o matches Some(d) && d is Bool)
}

/// Whether an optional field's lookup result decodes as an optional `u32`.
pub open spec fn opt_u32_ok(o: Option<DynSpec>) -> bool {
    absent(o) || (o matches Some(d) && u32_decodable(d))
}

/// Whether an optional field's lookup result decodes as an optional string
/// list.
pub open spec fn opt_text_list_ok(o: Option<DynSpec>) -> bool {
    absent(o) || (o matches Some(d) && text_list_decodable(d))
}

/// Whether an optional field's lookup result decodes as an optional number
/// list.
pub open spec fn opt_double_list_ok(o: Option<DynSpec>) -> bool {
    absent(o) || (o matches Some(d) && double_list_decodable(d))
}

/// What an optional string field decodes to: absent means `None`, a string
/// means `Some`.
pub open spec fn opt_text_match(o: Option<DynSpec>, x: Option<String>) -> bool {
    match x {
        Option::Some(s) => o == Option::Some(DynSpec::Text(s@)),
        Option::None => absent(o),
    }
}

/// What an optional boolean field decodes to.
pub open spec fn opt_bool_match(o: Option<DynSpec>, x: Option<bool>) -> bool {
    match x {
        Option::Some(b) => o == Option::Some(DynSpec::Bool(b)),
        Option::None => absent(o),
    }
}

/// What an optional `u32` field decodes to.
pub open spec fn opt_u32_match(o: Option<DynSpec>, x: Option<u32>) -> bool {
    match x {
        Option::Some(n) => o == Option::Some(DynSpec::Int(n as int)),
        Option::None => absent(o),
    }
}

/// What an optional string list field decodes to.
pub open spec fn opt_text_list_match(o: Option<DynSpec>, x: Option<Vec<String>>) -> bool {
    match x {
        Option::Some(ss) => o == Option::Some(DynSpec::Arr(texts_view(ss@))),
        Option::None => absent(o),
    }
}

/// What an optional number list field decodes to.
pub open spec fn opt_double_list_match(o: Option<DynSpec>, x: Option<Vec<u64>>) -> bool {
    match x {
        Option::Some(bs) => o == Option::Some(DynSpec::Arr(doubles_view(bs@))),
        Option::None => absent(o),
    }
}

/// Whether an optional field's lookup result decodes as an optional byte
/// buffer.
pub open spec fn opt_bytes_ok(o: Option<DynSpec>) -> bool {
    absent(o) || (o matches Some(d) && d is Bytes)
}

/// What an optional byte buffer field decodes to.
pub open spec fn opt_bytes_match(o: Option<DynSpec>, x: Option<Vec<u8>>) -> bool {
    match x {
        Option::Some(b) => o == Option::Some(DynSpec::Bytes(b@)),
        Option::None => absent(o),
    }
}

/// How a lookup behaves across an optional-field append: earlier fields
/// shadow, a fresh matching key surfaces the appended value, and everything
/// else stays unfound.
pub proof fn lemma_push_opt_get(
    fs: Seq<(Seq<char>, DynSpec)>,
    name: Seq<char>,
    ov: Option<DynSpec>,
    probe: Seq<char>,
)
    ensures
        obj_get(push_opt(fs, name, ov), probe) == if obj_get(fs, probe) is Some {
            obj_get(fs, probe)
        } else if name == probe {
            ov
        } else {
            None::<DynSpec>
        },
{
    match ov {
        Option::Some(d) => {
            crate::dynamic::lemma_obj_get_push(fs, name, d, probe);
        },
        Option::None => {
        },
    }
}

/// Decodes a dynamic value into an optional shape. Host `null` and host
/// `undefined` both yield `None`; any other value must decode as `Some` or
/// the whole decode fails.
pub fn decode_optional<T: DynCodec>(v: &DynamicValue) -> (r: Result<Option<T>, MarshalError>)
    ensures
        v@ is Null || v@ is Undef ==> r == Ok::<Option<T>, MarshalError>(None),
        !(v@ is Null || v@ is Undef) ==> match r {
            Ok(o) => o matches Some(t) && T::decodable(v@) && T::decodes_to(v@, t),
            Err(_) => !T::decodable(v@),
        },
{
    match v {
        DynamicValue::Null => Ok(None),
        DynamicValue::Undefined => Ok(None),
        _ => match T::decode_dyn(v) {
            Ok(t) => Ok(Some(t)),
            Err(e) => Err(e),
        },
    }
}

/// The encodings of a list of strings.
pub open spec fn texts_view(ss: Seq<String>) -> Seq<DynSpec> {
    Seq::new(ss.len(), |i: int| DynSpec::Text(ss[i]@))
}

/// The encodings of a list of 64-bit float bit patterns.
pub open spec fn doubles_view(bs: Seq<u64>) -> Seq<DynSpec> {
    Seq::new(bs.len(), |i: int| DynSpec::FloatBits(bs[i]))
}

/// Whether a dynamic value is an integral number that fits in `u32`.
pub open spec fn u32_decodable(v: DynSpec) -> bool {
    v matches DynSpec::Int(n) && 0 <= n <= u32::MAX
}

/// Whether a dynamic value is an array of strings.
pub open spec fn text_list_decodable(v: DynSpec) -> bool {
    v matches DynSpec::Arr(items) && forall|i: int| 0 <= i < items.len() ==> items[i] is Text
}

/// Whether a dynamic value is an array of 64-bit float bit patterns.
pub open spec fn double_list_decodable(v: DynSpec) -> bool {
    v matches DynSpec::Arr(items) && forall|i: int|
        0 <= i < items.len() ==> items[i] is FloatBits
}

impl DynamicValue {
    /// Views this value as an object, or reports a shape mismatch.
    pub fn as_object(&self) -> (r: Result<&Vec<(String, DynamicValue)>, MarshalError>)
        ensures
            r matches Ok(fs) ==> self@ == DynSpec::Obj(dyn_fields_view(fs@)),
            r is Err ==> !(self@ is Obj),
    {
        match self {
            DynamicValue::Object(fields) => Ok(fields),
            _ => Err(MarshalError::new("expected an object")),
        }
    }

    /// Views this value as an array, or reports a shape mismatch.
    pub fn as_array(&self) -> (r: Result<&Vec<DynamicValue>, MarshalError>)
        ensures
            r matches Ok(items) ==> self@ == DynSpec::Arr(dyn_seq_view(items@)),
            r is Err ==> !(self@ is Arr),
    {
        match self {
            DynamicValue::Array(items) => Ok(items),
            _ => Err(MarshalError::new("expected an array")),
        }
    }

    /// Extracts an owned string, or reports a shape mismatch.
    pub fn to_text(&self) -> (r: Result<String, MarshalError>)
        ensures
            r matches Ok(s) ==> self@ == DynSpec::Text(s@),
            r is Err ==> !(self@ is Text),
    {
        match self {
            DynamicValue::Text(s) => Ok(s.clone()),
            _ => Err(MarshalError::new("expected a string")),
        }
    }

    /// Extracts a boolean, or reports a shape mismatch.
    pub fn to_bool(&self) -> (r: Result<bool, MarshalError>)
        ensures
            r matches Ok(b) ==> self@ == DynSpec::Bool(b),
            r is Err ==> !(self@ is Bool),
    {
        match self {
            DynamicValue::Bool(b) => Ok(*b),
            _ => Err(MarshalError::new("expected a boolean")),
        }
    }

    /// Extracts an unsigned 32-bit integer, or reports a shape or range
    /// mismatch.
    pub fn to_u32(&self) -> (r: Result<u32, MarshalError>)
        ensures
            r matches Ok(n) ==> self@ == DynSpec::Int(n as int),
            r is Err ==> !u32_decodable(self@),
    {
        match self {
            DynamicValue::Int(n) => {
                if 0 <= *n && *n <= u32::MAX as i64 {
                    Ok(*n as u32)
                } else {
                    Err(MarshalError::new("number out of range"))
                }
            },
            _ => Err(MarshalError::new("expected an integral number")),
        }
    }

    /// Copies a binary buffer view into owned bytes, or reports a shape
    /// mismatch. The copy is eager: no reference into the source is kept.
    pub fn to_bytes(&self) -> (r: Result<Vec<u8>, MarshalError>)
        ensures
            r matches Ok(b) ==> self@ == DynSpec::Bytes(b@),
            r is Err ==> !(self@ is Bytes),
    {
        match self {
            DynamicValue::Bytes(b) => Ok(copy_scalars(b)),
            _ => Err(MarshalError::new("expected a binary buffer")),
        }
    }

    /// Copies a 32-bit float buffer view into owned bit patterns, or reports
    /// a shape mismatch.
    pub fn to_float_array(&self) -> (r: Result<Vec<u32>, MarshalError>)
        ensures
            r matches Ok(f) ==> self@ == DynSpec::FloatArray(f@),
            r is Err ==> !(self@ is FloatArray),
    {
        match self {
            DynamicValue::FloatArray(f) => Ok(copy_scalars(f)),
            _ => Err(MarshalError::new("expected a float buffer")),
        }
    }

    /// Extracts an array of strings, or reports a shape mismatch.
    pub fn to_text_list(&self) -> (r: Result<Vec<String>, MarshalError>)
        ensures
            r matches Ok(ss) ==> self@ == DynSpec::Arr(texts_view(ss@)),
            r is Err ==> !text_list_decodable(self@),
    {
        let items = self.as_array()?;
        let mut out: Vec<String> = Vec::new();
        let mut i: usize = 0;
        proof {
            lemma_dyn_seq_view(items@);
        }
        while i < items.len()
            invariant
                i <= items.len(),
                out@.len() == i,
                self@ == DynSpec::Arr(dyn_seq_view(items@)),
                dyn_seq_view(items@).len() == items@.len(),
                forall|j: int| 0 <= j < items@.len() ==> dyn_seq_view(items@)[j] == items@[j]@,
                forall|j: int| 0 <= j < i ==> items@[j]@ == DynSpec::Text(out@[j]@),
            decreases items.len() - i,
        {
            match &items[i] {
                DynamicValue::Text(s) => {
                    out.push(s.clone());
                },
                _ => {
                    proof {
                        assert(dyn_seq_view(items@)[i as int] == items@[i as int]@);
                        assert(!(items@[i as int]@ is Text));
                    }
                    return Err(MarshalError::new("expected an array of strings"));
                },
            }
            i = i + 1;
        }
        proof {
            assert(dyn_seq_view(items@) =~= texts_view(out@));
        }
        Ok(out)
    }

    /// Whether this value is the host's `null` or `undefined` — the two
    /// values an `Option` target treats as absent.
    pub fn is_absent(&self) -> (r: bool)
        ensures
            r == (self@ is Null || self@ is Undef),
    {
        match self {
            DynamicValue::Null => true,
            DynamicValue::Undefined => true,
            _ => false,
        }
    }

    /// A deep copy with the same mathematical value.
    pub fn duplicate(&self) -> (r: DynamicValue)
        ensures
            r@ == self@,
        decreases *self,
    {
        match self {
            DynamicValue::Null => DynamicValue::Null,
            DynamicValue::Undefined => DynamicValue::Undefined,
            DynamicValue::Bool(b) => DynamicValue::Bool(*b),
            DynamicValue::Int(n) => DynamicValue::Int(*n),
            DynamicValue::FloatBits(bits) => DynamicValue::FloatBits(*bits),
            DynamicValue::Text(s) => DynamicValue::Text(s.clone()),
            DynamicValue::Bytes(b) => DynamicValue::Bytes(copy_scalars(b)),
            DynamicValue::FloatArray(f) => DynamicValue::FloatArray(copy_scalars(f)),
            DynamicValue::Func(id) => DynamicValue::Func(*id),
            DynamicValue::Array(items) => {
                let mut out: Vec<DynamicValue> = Vec::new();
                let mut i: usize = 0;
                proof {
                    assert(dyn_seq_view(out@) =~= dyn_seq_view(items@).subrange(0, 0));
                }
                while i < items.len()
                    invariant
                        i <= items.len(),
                        out@.len() == i,
                        *self == DynamicValue::Array(*items),
                        dyn_seq_view(out@) == dyn_seq_view(items@).subrange(0, i as int),
                    decreases items.len() - i,
                {
                    proof {
                        assert(decreases_to!(*self => self->Array_0));
                        assert(decreases_to!(*items => items@));
                        assert(decreases_to!(items@ => items@[i as int]));
                        lemma_dyn_seq_view(items@);
                    }
                    let ghost prev = out@;
                    let item = items[i].duplicate();
                    let ghost item_spec = item;
                    out.push(item);
                    proof {
                        crate::dynamic::lemma_dyn_seq_view_push(prev, item_spec);
                        assert(dyn_seq_view(items@).subrange(0, i + 1 as int) =~= dyn_seq_view(
                            items@,
                        ).subrange(0, i as int).push(dyn_seq_view(items@)[i as int]));
                    }
                    i = i + 1;
                }
                proof {
                    lemma_dyn_seq_view(items@);
                    assert(dyn_seq_view(items@).subrange(0, items@.len() as int) =~= dyn_seq_view(
                        items@,
                    ));
                }
                DynamicValue::Array(out)
            },
            DynamicValue::Object(fields) => {
                let mut out: Vec<(String, DynamicValue)> = Vec::new();
                let mut i: usize = 0;
                proof {
                    assert(dyn_fields_view(out@) =~= dyn_fields_view(fields@).subrange(0, 0));
                }
                while i < fields.len()
                    invariant
                        i <= fields.len(),
                        out@.len() == i,
                        *self == DynamicValue::Object(*fields),
                        dyn_fields_view(out@) == dyn_fields_view(fields@).subrange(0, i as int),
                    decreases fields.len() - i,
                {
                    proof {
                        assert(decreases_to!(*self => self->Object_0));
                        assert(decreases_to!(*fields => fields@));
                        assert(decreases_to!(fields@ => fields@[i as int]));
                        assert(decreases_to!(fields@[i as int] => fields@[i as int].1));
                        lemma_dyn_fields_view(fields@);
                    }
                    let key = fields[i].0.clone();
                    let item = fields[i].1.duplicate();
                    let ghost prev = out@;
                    let ghost pair = (key, item);
                    out.push((key, item));
                    proof {
                        crate::dynamic::lemma_dyn_fields_view_push(prev, pair);
                        assert(dyn_fields_view(fields@).subrange(0, i + 1 as int)
                            =~= dyn_fields_view(fields@).subrange(0, i as int).push(
                            dyn_fields_view(fields@)[i as int],
                        ));
                    }
                    i = i + 1;
                }
                proof {
                    lemma_dyn_fields_view(fields@);
                    assert(dyn_fields_view(fields@).subrange(0, fields@.len() as int)
                        =~= dyn_fields_view(fields@));
                }
                DynamicValue::Object(out)
            },
        }
    }

    /// Extracts an array of numbers as 64-bit float bit patterns, or reports
    /// a shape mismatch.
    pub fn to_double_list(&self) -> (r: Result<Vec<u64>, MarshalError>)
        ensures
            r matches Ok(bs) ==> self@ == DynSpec::Arr(doubles_view(bs@)),
            r is Err ==> !double_list_decodable(self@),
    {
        let items = self.as_array()?;
        let mut out: Vec<u64> = Vec::new();
        let mut i: usize = 0;
        proof {
            lemma_dyn_seq_view(items@);
        }
        while i < items.len()
            invariant
                i <= items.len(),
                out@.len() == i,
                self@ == DynSpec::Arr(dyn_seq_view(items@)),
                dyn_seq_view(items@).len() == items@.len(),
                forall|j: int| 0 <= j < items@.len() ==> dyn_seq_view(items@)[j] == items@[j]@,
                forall|j: int| 0 <= j < i ==> items@[j]@ == DynSpec::FloatBits(out@[j]),
            decreases items.len() - i,
        {
            match &items[i] {
                DynamicValue::FloatBits(bits) => {
                    out.push(*bits);
                },
                _ => {
                    proof {
                        assert(dyn_seq_view(items@)[i as int] == items@[i as int]@);
                        assert(!(items@[i as int]@ is FloatBits));
                    }
                    return Err(MarshalError::new("expected an array of numbers"));
                },
            }
            i = i + 1;
        }
        proof {
            assert(dyn_seq_view(items@) =~= doubles_view(out@));
        }
        Ok(out)
    }
}

/// Builds a text value from a string slice.
pub fn text_value(s: &str) -> (r: DynamicValue)
    ensures
        r@ == DynSpec::Text(s@),
{
    DynamicValue::Text(s.to_owned())
}

/// Builds a text value from an owned string, copying it.
pub fn string_value(s: &String) -> (r: DynamicValue)
    ensures
        r@ == DynSpec::Text(s@),
{
    DynamicValue::Text(s.clone())
}

/// Builds an integral number value.
pub fn u32_value(n: u32) -> (r: DynamicValue)
    ensures
        r@ == DynSpec::Int(n as int),
{
    DynamicValue::Int(n as i64)
}

/// Builds a boolean value.
pub fn bool_value(b: bool) -> (r: DynamicValue)
    ensures
        r@ == DynSpec::Bool(b),
{
    DynamicValue::Bool(b)
}

/// Builds a binary buffer view, copying the source bytes verbatim. The
/// caller keeps the source buffer; mutating or freeing it afterwards has no
/// effect on the transmitted data.
pub fn bytes_value(b: &Vec<u8>) -> (r: DynamicValue)
    ensures
        r@ == DynSpec::Bytes(b@),
{
    DynamicValue::Bytes(copy_scalars(b))
}

/// Builds a 32-bit float buffer view from bit patterns, copying them.
pub fn float_array_value(bits: &Vec<u32>) -> (r: DynamicValue)
    ensures
        r@ == DynSpec::FloatArray(bits@),
{
    DynamicValue::FloatArray(copy_scalars(bits))
}

/// Builds an array of text values from a list of strings.
pub fn text_list_value(ss: &Vec<String>) -> (r: DynamicValue)
    ensures
        r@ == DynSpec::Arr(texts_view(ss@)),
{
    let mut items: Vec<DynamicValue> = Vec::new();
    let mut i: usize = 0;
    proof {
        assert(dyn_seq_view(items@) =~= texts_view(ss@).subrange(0, 0));
    }
    while i < ss.len()
        invariant
            i <= ss.len(),
            items@.len() == i,
            dyn_seq_view(items@) == texts_view(ss@).subrange(0, i as int),
        decreases ss.len() - i,
    {
        let ghost prev = items@;
        let item = DynamicValue::Text(ss[i].clone());
        let ghost item_spec = item;
        items.push(item);
        proof {
            crate::dynamic::lemma_dyn_seq_view_push(prev, item_spec);
            assert(texts_view(ss@).subrange(0, i + 1 as int) =~= texts_view(ss@).subrange(
                0,
                i as int,
            ).push(DynSpec::Text(ss@[i as int]@)));
        }
        i = i + 1;
    }
    proof {
        assert(texts_view(ss@).subrange(0, ss@.len() as int) =~= texts_view(ss@));
    }
    DynamicValue::Array(items)
}

/// Builds an array of number values from 64-bit float bit patterns.
pub fn double_list_value(bs: &Vec<u64>) -> (r: DynamicValue)
    ensures
        r@ == DynSpec::Arr(doubles_view(bs@)),
{
    let mut items: Vec<DynamicValue> = Vec::new();
    let mut i: usize = 0;
    proof {
        assert(dyn_seq_view(items@) =~= doubles_view(bs@).subrange(0, 0));
    }
    while i < bs.len()
        invariant
            i <= bs.len(),
            items@.len() == i,
            dyn_seq_view(items@) == doubles_view(bs@).subrange(0, i as int),
        decreases bs.len() - i,
    {
        let ghost prev = items@;
        let item = DynamicValue::FloatBits(bs[i]);
        let ghost item_spec = item;
        items.push(item);
        proof {
            crate::dynamic::lemma_dyn_seq_view_push(prev, item_spec);
            assert(doubles_view(bs@).subrange(0, i + 1 as int) =~= doubles_view(bs@).subrange(
                0,
                i as int,
            ).push(DynSpec::FloatBits(bs@[i as int])));
        }
        i = i + 1;
    }
    proof {
        assert(doubles_view(bs@).subrange(0, bs@.len() as int) =~= doubles_view(bs@));
    }
    DynamicValue::Array(items)
}

/// Appends a named field to an object under construction.
pub fn push_field(fields: &mut Vec<(String, DynamicValue)>, name: &str, value: DynamicValue)
    ensures
        dyn_fields_view(final(fields)@) == dyn_fields_view(old(fields)@).push((name@, value@)),
{
    let ghost prev = fields@;
    let key = name.to_owned();
    let ghost pair = (key, value);
    fields.push((key, value));
    proof {
        crate::dynamic::lemma_dyn_fields_view_push(prev, pair);
    }
}

/// Finds a field by name; the first occurrence wins.
pub fn get_field<'a>(fields: &'a Vec<(String, DynamicValue)>, name: &str) -> (r: Option<
    &'a DynamicValue,
>)
    ensures
        match r {
            Some(d) => obj_get(dyn_fields_view(fields@), name@) == Some(d@),
            None => obj_get(dyn_fields_view(fields@), name@) is None,
        },
{
    let wanted: String = name.to_owned();
    let mut i: usize = 0;
    proof {
        lemma_dyn_fields_view(fields@);
    }
    while i < fields.len()
        invariant
            i <= fields.len(),
            wanted@ == name@,
            dyn_fields_view(fields@).len() == fields@.len(),
            forall|j: int| 0 <= j < fields@.len() ==> dyn_fields_view(fields@)[j] == (
                fields@[j].0@,
                fields@[j].1@,
            ),
            forall|j: int| 0 <= j < i ==> fields@[j].0@ != name@,
        decreases fields.len() - i,
    {
        if fields[i].0 == wanted {
            proof {
                let vfs = dyn_fields_view(fields@);
                lemma_obj_get_skip(vfs, name@, i as int);
                let tail = vfs.subrange(i as int, vfs.len() as int);
                assert(tail[0] == vfs[i as int]);
                assert(obj_get(tail, name@) == Some(vfs[i as int].1));
            }
            return Some(&fields[i].1);
        }
        i = i + 1;
    }
    proof {
        let vfs = dyn_fields_view(fields@);
        lemma_obj_get_skip(vfs, name@, vfs.len() as int);
        assert(obj_get(vfs.subrange(vfs.len() as int, vfs.len() as int), name@) is None);
    }
    None
}

/// Finds a required field by name, or reports it missing.
pub fn require_field<'a>(fields: &'a Vec<(String, DynamicValue)>, name: &str) -> (r: Result<
    &'a DynamicValue,
    MarshalError,
>)
    ensures
        r matches Ok(d) ==> obj_get(dyn_fields_view(fields@), name@) == Some(d@),
        r is Err ==> obj_get(dyn_fields_view(fields@), name@) is None,
{
    match get_field(fields, name) {
        Some(d) => Ok(d),
        None => Err(MarshalError::for_field("missing field: ", name)),
    }
}

/// Reads a required string field.
pub fn get_text_field(fields: &Vec<(String, DynamicValue)>, name: &str) -> (r: Result<
    String,
    MarshalError,
>)
    ensures
        r matches Ok(s) ==> obj_get(dyn_fields_view(fields@), name@) == Some(
            DynSpec::Text(s@),
        ),
        r is Err ==> !(obj_get(dyn_fields_view(fields@), name@) matches Some(d) && d is Text),
{
    let d = require_field(fields, name)?;
    d.to_text()
}

/// Reads a required boolean field.
pub fn get_bool_field(fields: &Vec<(String, DynamicValue)>, name: &str) -> (r: Result<
    bool,
    MarshalError,
>)
    ensures
        r matches Ok(b) ==> obj_get(dyn_fields_view(fields@), name@) == Some(
            DynSpec::Bool(b),
        ),
        r is Err ==> !(obj_get(dyn_fields_view(fields@), name@) matches Some(d) && d is Bool),
{
    let d = require_field(fields, name)?;
    d.to_bool()
}

/// Reads a required binary buffer field, copying it.
pub fn get_bytes_field(fields: &Vec<(String, DynamicValue)>, name: &str) -> (r: Result<
    Vec<u8>,
    MarshalError,
>)
    ensures
        r matches Ok(b) ==> obj_get(dyn_fields_view(fields@), name@) == Some(
            DynSpec::Bytes(b@),
        ),
        r is Err ==> !(obj_get(dyn_fields_view(fields@), name@) matches Some(d) && d is Bytes),
{
    let d = require_field(fields, name)?;
    d.to_bytes()
}

/// Reads a required 32-bit float buffer field, copying its bit patterns.
pub fn get_float_array_field(fields: &Vec<(String, DynamicValue)>, name: &str) -> (r: Result<
    Vec<u32>,
    MarshalError,
>)
    ensures
        r matches Ok(f) ==> obj_get(dyn_fields_view(fields@), name@) == Some(
            DynSpec::FloatArray(f@),
        ),
        r is Err ==> !(obj_get(dyn_fields_view(fields@), name@) matches Some(d)
            && d is FloatArray),
{
    let d = require_field(fields, name)?;
    d.to_float_array()
}

/// Reads a required string list field.
pub fn get_text_list_field(fields: &Vec<(String, DynamicValue)>, name: &str) -> (r: Result<
    Vec<String>,
    MarshalError,
>)
    ensures
        r matches Ok(ss) ==> obj_get(dyn_fields_view(fields@), name@) == Some(
            DynSpec::Arr(texts_view(ss@)),
        ),
        r is Err ==> !(obj_get(dyn_fields_view(fields@), name@) matches Some(d)
            && text_list_decodable(d)),
{
    let d = require_field(fields, name)?;
    d.to_text_list()
}

/// Reads an optional string field. A missing field, a `null` and an
/// `undefined` all count as absent.
pub fn get_opt_text_field(fields: &Vec<(String, DynamicValue)>, name: &str) -> (r: Result<
    Option<String>,
    MarshalError,
>)
    ensures
        r matches Ok(o) ==> match o {
            Option::Some(s) => obj_get(dyn_fields_view(fields@), name@) == Some(
                DynSpec::Text(s@),
            ),
            Option::None => absent(obj_get(dyn_fields_view(fields@), name@)),
        },
        r is Err ==> !absent(obj_get(dyn_fields_view(fields@), name@))
            && !(obj_get(dyn_fields_view(fields@), name@) matches Some(d) && d is Text),
{
    match get_field(fields, name) {
        None => Ok(None),
        Some(d) => match d {
            DynamicValue::Null => Ok(None),
            DynamicValue::Undefined => Ok(None),
            _ => match d.to_text() {
                Ok(s) => Ok(Some(s)),
                Err(e) => Err(e),
            },
        },
    }
}

/// Reads an optional boolean field. A missing field, a `null` and an
/// `undefined` all count as absent.
pub fn get_opt_bool_field(fields: &Vec<(String, DynamicValue)>, name: &str) -> (r: Result<
    Option<bool>,
    MarshalError,
>)
    ensures
        r matches Ok(o) ==> match o {
            Option::Some(b) => obj_get(dyn_fields_view(fields@), name@) == Some(
                DynSpec::Bool(b),
            ),
            Option::None => absent(obj_get(dyn_fields_view(fields@), name@)),
        },
        r is Err ==> !absent(obj_get(dyn_fields_view(fields@), name@))
            && !(obj_get(dyn_fields_view(fields@), name@) matches Some(d) && d is Bool),
{
    match get_field(fields, name) {
        None => Ok(None),
        Some(d) => match d {
            DynamicValue::Null => Ok(None),
            DynamicValue::Undefined => Ok(None),
            _ => match d.to_bool() {
                Ok(b) => Ok(Some(b)),
                Err(e) => Err(e),
            },
        },
    }
}

/// Reads an optional unsigned 32-bit integer field. A missing field, a
/// `null` and an `undefined` all count as absent.
pub fn get_opt_u32_field(fields: &Vec<(String, DynamicValue)>, name: &str) -> (r: Result<
    Option<u32>,
    MarshalError,
>)
    ensures
        r matches Ok(o) ==> match o {
            Option::Some(n) => obj_get(dyn_fields_view(fields@), name@) == Some(
                DynSpec::Int(n as int),
            ),
            Option::None => absent(obj_get(dyn_fields_view(fields@), name@)),
        },
        r is Err ==> !absent(obj_get(dyn_fields_view(fields@), name@))
            && !(obj_get(dyn_fields_view(fields@), name@) matches Some(d)
            && u32_decodable(d)),
{
    match get_field(fields, name) {
        None => Ok(None),
        Some(d) => match d {
            DynamicValue::Null => Ok(None),
            DynamicValue::Undefined => Ok(None),
            _ => match d.to_u32() {
                Ok(n) => Ok(Some(n)),
                Err(e) => Err(e),
            },
        },
    }
}

/// Reads an optional string list field. A missing field, a `null` and an
/// `undefined` all count as absent.
pub fn get_opt_text_list_field(fields: &Vec<(String, DynamicValue)>, name: &str) -> (r: Result<
    Option<Vec<String>>,
    MarshalError,
>)
    ensures
        r matches Ok(o) ==> match o {
            Option::Some(ss) => obj_get(dyn_fields_view(fields@), name@) == Some(
                DynSpec::Arr(texts_view(ss@)),
            ),
            Option::None => absent(obj_get(dyn_fields_view(fields@), name@)),
        },
        r is Err ==> !absent(obj_get(dyn_fields_view(fields@), name@))
            && !(obj_get(dyn_fields_view(fields@), name@) matches Some(d)
            && text_list_decodable(d)),
{
    match get_field(fields, name) {
        None => Ok(None),
        Some(d) => match d {
            DynamicValue::Null => Ok(None),
            DynamicValue::Undefined => Ok(None),
            _ => match d.to_text_list() {
                Ok(ss) => Ok(Some(ss)),
                Err(e) => Err(e),
            },
        },
    }
}

/// Reads an optional binary buffer field, copying it. A missing field, a
/// `null` and an `undefined` all count as absent.
pub fn get_opt_bytes_field(fields: &Vec<(String, DynamicValue)>, name: &str) -> (r: Result<
    Option<Vec<u8>>,
    MarshalError,
>)
    ensures
        r matches Ok(o) ==> match o {
            Option::Some(b) => obj_get(dyn_fields_view(fields@), name@) == Some(
                DynSpec::Bytes(b@),
            ),
            Option::None => absent(obj_get(dyn_fields_view(fields@), name@)),
        },
        r is Err ==> !absent(obj_get(dyn_fields_view(fields@), name@))
            && !(obj_get(dyn_fields_view(fields@), name@) matches Some(d) && d is Bytes),
{
    match get_field(fields, name) {
        None => Ok(None),
        Some(d) => match d {
            DynamicValue::Null => Ok(None),
            DynamicValue::Undefined => Ok(None),
            _ => match d.to_bytes() {
                Ok(b) => Ok(Some(b)),
                Err(e) => Err(e),
            },
        },
    }
}

/// Reads an optional number list field as 64-bit float bit patterns. A
/// missing field, a `null` and an `undefined` all count as absent.
pub fn get_opt_double_list_field(fields: &Vec<(String, DynamicValue)>, name: &str) -> (r: Result<
    Option<Vec<u64>>,
    MarshalError,
>)
    ensures
        r matches Ok(o) ==> match o {
            Option::Some(bs) => obj_get(dyn_fields_view(fields@), name@) == Some(
                DynSpec::Arr(doubles_view(bs@)),
            ),
            Option::None => absent(obj_get(dyn_fields_view(fields@), name@)),
        },
        r is Err ==> !absent(obj_get(dyn_fields_view(fields@), name@))
            && !(obj_get(dyn_fields_view(fields@), name@) matches Some(d)
            && double_list_decodable(d)),
{
    match get_field(fields, name) {
        None => Ok(None),
        Some(d) => match d {
            DynamicValue::Null => Ok(None),
            DynamicValue::Undefined => Ok(None),
            _ => match d.to_double_list() {
                Ok(bs) => Ok(Some(bs)),
                Err(e) => Err(e),
            },
        },
    }
}

/// The element-wise encoding of a list of shapes.
pub open spec fn list_enc<T: DynCodec>(es: Seq<T>) -> Seq<DynSpec> {
    Seq::new(es.len(), |i: int| es[i].enc())
}

/// Whether every element of an array decodes into `T`.
pub open spec fn all_decodable<T: DynCodec>(items: Seq<DynSpec>) -> bool {
    forall|i: int| 0 <= i < items.len() ==> T::decodable(#[trigger] items[i])
}

/// Whether every element of an array decodes to the corresponding element of
/// a list of shapes.
pub open spec fn all_decode_to<T: DynCodec>(items: Seq<DynSpec>, ts: Seq<T>) -> bool {
    items.len() == ts.len() && forall|i: int|
        0 <= i < items.len() ==> T::decodes_to(#[trigger] items[i], ts[i])
}

/// Whether a dynamic value is an array whose every element decodes into `T`.
pub open spec fn list_decodable<T: DynCodec>(v: DynSpec) -> bool {
    v matches DynSpec::Arr(items) && all_decodable::<T>(items)
}

/// What a list of shapes decoded from `v` holds, element by element.
pub open spec fn list_decodes_to<T: DynCodec>(v: DynSpec, ts: Seq<T>) -> bool {
    v matches DynSpec::Arr(items) && all_decode_to::<T>(items, ts)
}

/// Round trip for lists: the encoding of a list of encodable shapes decodes,
/// and anything it decodes to re-encodes to the same array.
pub proof fn lemma_list_round_trip<T: DynCodec>(es: Seq<T>)
    requires
        forall|i: int| 0 <= i < es.len() ==> (#[trigger] es[i]).enc_wf(),
    ensures
        list_decodable::<T>(DynSpec::Arr(list_enc(es))),
        forall|os: Seq<T>|
            list_decodes_to::<T>(DynSpec::Arr(list_enc(es)), os) ==> list_enc(os) == list_enc(
                es,
            ),
{
    assert forall|i: int| 0 <= i < list_enc(es).len() implies T::decodable(
        #[trigger] list_enc(es)[i],
    ) by {
        assert(list_enc(es)[i] == es[i].enc());
        es[i].lemma_round_trip();
    }
    assert forall|os: Seq<T>|
        list_decodes_to::<T>(DynSpec::Arr(list_enc(es)), os) implies list_enc(os) == list_enc(
        es,
    ) by {
        assert forall|i: int| 0 <= i < os.len() implies list_enc(os)[i] == list_enc(es)[i] by {
            assert(T::decodes_to(list_enc(es)[i], os[i]));
            assert(list_enc(es)[i] == es[i].enc());
            es[i].lemma_round_trip();
            assert(os[i].enc() == es[i].enc());
        }
        assert(list_enc(os) =~= list_enc(es));
    }
}

/// Encodes a list of shapes as an array, element by element.
pub fn encode_list<T: DynCodec>(es: &Vec<T>) -> (r: Result<DynamicValue, MarshalError>)
    ensures
        r matches Ok(d) ==> d@ == DynSpec::Arr(list_enc(es@)) && forall|i: int|
            0 <= i < es@.len() ==> (#[trigger] es@[i]).enc_wf(),
        r is Err ==> exists|i: int| 0 <= i < es@.len() && !(#[trigger] es@[i]).enc_wf(),
{
    let mut items: Vec<DynamicValue> = Vec::new();
    let mut i: usize = 0;
    proof {
        assert(dyn_seq_view(items@) =~= list_enc(es@).subrange(0, 0));
    }
    while i < es.len()
        invariant
            i <= es.len(),
            items@.len() == i,
            dyn_seq_view(items@) == list_enc(es@).subrange(0, i as int),
            forall|j: int| 0 <= j < i ==> (#[trigger] es@[j]).enc_wf(),
        decreases es.len() - i,
    {
        let ghost prev = items@;
        match es[i].encode_dyn() {
            Ok(item) => {
                let ghost item_spec = item;
                items.push(item);
                proof {
                    crate::dynamic::lemma_dyn_seq_view_push(prev, item_spec);
                    assert(list_enc(es@).subrange(0, i + 1 as int) =~= list_enc(es@).subrange(
                        0,
                        i as int,
                    ).push(es@[i as int].enc()));
                }
            },
            Err(e) => {
                return Err(e);
            },
        }
        i = i + 1;
    }
    proof {
        assert(list_enc(es@).subrange(0, es@.len() as int) =~= list_enc(es@));
    }
    Ok(DynamicValue::Array(items))
}

/// Decodes an array into a list of shapes, element by element and strictly.
pub fn decode_list<T: DynCodec>(v: &DynamicValue) -> (r: Result<Vec<T>, MarshalError>)
    ensures
        r matches Ok(ts) ==> list_decodable::<T>(v@) && list_decodes_to::<T>(v@, ts@),
        r is Err ==> !list_decodable::<T>(v@),
{
    let items = v.as_array()?;
    let mut out: Vec<T> = Vec::new();
    let mut i: usize = 0;
    proof {
        lemma_dyn_seq_view(items@);
    }
    while i < items.len()
        invariant
            i <= items.len(),
            out@.len() == i,
            v@ == DynSpec::Arr(dyn_seq_view(items@)),
            dyn_seq_view(items@).len() == items@.len(),
            forall|j: int| 0 <= j < items@.len() ==> dyn_seq_view(items@)[j] == items@[j]@,
            forall|j: int|
                0 <= j < i ==> T::decodable(#[trigger] dyn_seq_view(items@)[j]) && T::decodes_to(
                    dyn_seq_view(items@)[j],
                    out@[j],
                ),
        decreases items.len() - i,
    {
        match T::decode_dyn(&items[i]) {
            Ok(t) => {
                out.push(t);
            },
            Err(e) => {
                proof {
                    assert(dyn_seq_view(items@)[i as int] == items@[i as int]@);
                    assert(!T::decodable(dyn_seq_view(items@)[i as int]));
                    assert(!list_decodable::<T>(v@)) by {
                        if list_decodable::<T>(v@) {
                            let vi = dyn_seq_view(items@);
                            assert(v@ == DynSpec::Arr(vi));
                            assert(0 <= (i as int) && (i as int) < vi.len());
                            assert(T::decodable(vi[i as int]));
                        }
                    }
                }
                return Err(e);
            },
        }
        i = i + 1;
    }
    Ok(out)
}

/// Copies a vector of plain scalar values.
pub fn copy_scalars<T: Copy>(src: &Vec<T>) -> (r: Vec<T>)
    ensures
        r@ == src@,
{
    let mut r: Vec<T> = Vec::new();
    let mut i: usize = 0;
    while i < src.len()
        invariant
            i <= src.len(),
            r@ == src@.subrange(0, i as int),
        decreases src.len() - i,
    {
        r.push(src[i]);
        proof {
            assert(src@.subrange(0, i + 1 as int) =~= src@.subrange(0, i as int).push(
                src@[i as int],
            ));
        }
        i = i + 1;
    }
    proof {
        assert(src@.subrange(0, src@.len() as int) =~= src@);
    }
    r
}

} // verus!
