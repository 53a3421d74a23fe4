//! The tagged dynamic value model.
//!
//! The host speaks in untyped, self-describing values: objects, arrays,
//! strings, numbers, booleans, `null`, `undefined`, opaque function
//! references, and binary buffer views. This module models that universe as a
//! tagged tree. Numbers are split into integers and opaque 64-bit float bit
//! patterns, so that the codec can state exact facts about the integral
//! values it interprets while still carrying any host number through
//! unchanged. Binary payloads (byte buffers, 32-bit float buffers) are their
//! own variants: they round-trip bit-identically and are never flattened into
//! structural arrays of numbers.

use vstd::prelude::*;

verus! {

/// Specification-level dynamic value: the mathematical shape of a
/// [`DynamicValue`], with sequences in place of vectors and `int` in place of
/// bounded integers.
#[verifier::ext_equal]
pub enum DynSpec {
    /// The host's `null`.
    Null,
    /// The host's `undefined`.
    Undef,
    /// A boolean.
    Bool(bool),
    /// An integral number.
    Int(int),
    /// A non-integral number, carried as its 64-bit bit pattern.
    FloatBits(u64),
    /// A string.
    Text(Seq<char>),
    /// A binary buffer view: a byte sequence.
    Bytes(Seq<u8>),
    /// A 32-bit float buffer view; each element is one float's bit pattern.
    FloatArray(Seq<u32>),
    /// An opaque host function reference, identified by a handle.
    Func(u64),
    /// An array of dynamic values.
    Arr(Seq<DynSpec>),
    /// An object: named fields in order of appearance.
    Obj(Seq<(Seq<char>, DynSpec)>),
}

/// Executable dynamic value: the exact image of one host value, owned by this
/// side of the bridge. Converting a host value into a `DynamicValue` (and
/// back) is the job of the unverified glue at the host boundary; everything
/// the bridge decides is decided on this type.
#[derive(Debug, PartialEq)]
pub enum DynamicValue {
    /// The host's `null`.
    Null,
    /// The host's `undefined`.
    Undefined,
    /// A boolean.
    Bool(bool),
    /// An integral number (the host's safe-integer range fits in `i64`).
    Int(i64),
    /// A non-integral number, carried opaquely as its 64-bit bit pattern.
    FloatBits(u64),
    /// A string.
    Text(String),
    /// A binary buffer view, copied eagerly into owned bytes.
    Bytes(Vec<u8>),
    /// A 32-bit float buffer view; each element is one float's bit pattern.
    FloatArray(Vec<u32>),
    /// An opaque host function reference, identified by a handle.
    Func(u64),
    /// An array of dynamic values.
    Array(Vec<DynamicValue>),
    /// An object: named fields in order of appearance.
    Object(Vec<(String, DynamicValue)>),
}

/// The mathematical value of a [`DynamicValue`], defined structurally.
pub open spec fn dyn_view(d: DynamicValue) -> DynSpec
    decreases d via dyn_view_decreases
{
    match d {
        DynamicValue::Null => DynSpec::Null,
        DynamicValue::Undefined => DynSpec::Undef,
        DynamicValue::Bool(b) => DynSpec::Bool(b),
        DynamicValue::Int(n) => DynSpec::Int(n as int),
        DynamicValue::FloatBits(bits) => DynSpec::FloatBits(bits),
        DynamicValue::Text(s) => DynSpec::Text(s@),
        DynamicValue::Bytes(b) => DynSpec::Bytes(b@),
        DynamicValue::FloatArray(f) => DynSpec::FloatArray(f@),
        DynamicValue::Func(id) => DynSpec::Func(id),
        DynamicValue::Array(items) => DynSpec::Arr(dyn_seq_view(items@)),
        DynamicValue::Object(fields) => DynSpec::Obj(dyn_fields_view(fields@)),
    }
}

/// The element-wise view of an array's items.
pub open spec fn dyn_seq_view(s: Seq<DynamicValue>) -> Seq<DynSpec>
    decreases s,
{
    if s.len() == 0 {
        Seq::empty()
    } else {
        seq![dyn_view(s[0])] + dyn_seq_view(s.subrange(1, s.len() as int))
    }
}

/// The pair-wise view of an object's fields.
pub open spec fn dyn_fields_view(fs: Seq<(String, DynamicValue)>) -> Seq<(Seq<char>, DynSpec)>
    decreases fs,
{
    if fs.len() == 0 {
        Seq::empty()
    } else {
        seq![(fs[0].0@, dyn_view(fs[0].1))] + dyn_fields_view(fs.subrange(1, fs.len() as int))
    }
}

#[via_fn]
proof fn dyn_view_decreases(d: DynamicValue) {
    match d {
        DynamicValue::Array(items) => {
            assert(decreases_to!(d => items));
            assert(decreases_to!(items => items@));
        }
        DynamicValue::Object(fields) => {
            assert(decreases_to!(d => fields));
            assert(decreases_to!(fields => fields@));
        }
        _ => {}
    }
}

impl View for DynamicValue {
    type V = DynSpec;

    open spec fn view(&self) -> DynSpec {
        dyn_view(*self)
    }
}

/// Looks a field name up in an object's field sequence; the first occurrence
/// wins, as it does for the host's own property semantics.
pub open spec fn obj_get(fs: Seq<(Seq<char>, DynSpec)>, name: Seq<char>) -> Option<DynSpec>
    decreases fs.len(),
{
    if fs.len() == 0 {
        None
    } else if fs[0].0 == name {
        Some(fs[0].1)
    } else {
        obj_get(fs.drop_first(), name)
    }
}

/// `dyn_seq_view` is the element-wise image of `dyn_view`.
pub proof fn lemma_dyn_seq_view(s: Seq<DynamicValue>)
    ensures
        dyn_seq_view(s).len() == s.len(),
        forall|i: int| 0 <= i < s.len() ==> dyn_seq_view(s)[i] == dyn_view(s[i]),
    decreases s.len(),
{
    if s.len() > 0 {
        let rest = s.subrange(1, s.len() as int);
        lemma_dyn_seq_view(rest);
        assert forall|i: int| 0 <= i < s.len() implies dyn_seq_view(s)[i] == dyn_view(s[i]) by {
            if i > 0 {
                assert(rest[i - 1] == s[i]);
            }
        }
    }
}

/// `dyn_fields_view` is the pair-wise image of the key view and `dyn_view`.
pub proof fn lemma_dyn_fields_view(fs: Seq<(String, DynamicValue)>)
    ensures
        dyn_fields_view(fs).len() == fs.len(),
        forall|i: int| 0 <= i < fs.len() ==> dyn_fields_view(fs)[i] == (
            fs[i].0@,
            dyn_view(fs[i].1),
        ),
    decreases fs.len(),
{
    if fs.len() > 0 {
        let rest = fs.subrange(1, fs.len() as int);
        lemma_dyn_fields_view(rest);
        assert forall|i: int| 0 <= i < fs.len() implies dyn_fields_view(fs)[i] == (
            fs[i].0@,
            dyn_view(fs[i].1),
        ) by {
            if i > 0 {
                assert(rest[i - 1] == fs[i]);
            }
        }
    }
}

/// Appending an item to an array appends its view.
pub proof fn lemma_dyn_seq_view_push(s: Seq<DynamicValue>, item: DynamicValue)
    ensures
        dyn_seq_view(s.push(item)) == dyn_seq_view(s).push(dyn_view(item)),
{
    lemma_dyn_seq_view(s.push(item));
    lemma_dyn_seq_view(s);
    assert forall|i: int| 0 <= i < s.len() + 1 implies dyn_seq_view(s.push(item))[i]
        == dyn_seq_view(s).push(dyn_view(item))[i] by {
        if i < s.len() {
            assert(s.push(item)[i] == s[i]);
        } else {
            assert(s.push(item)[i] == item);
        }
    }
    assert(dyn_seq_view(s.push(item)) =~= dyn_seq_view(s).push(dyn_view(item)));
}

/// Appending a field to an object appends its viewed pair.
pub proof fn lemma_dyn_fields_view_push(fs: Seq<(String, DynamicValue)>, p: (String, DynamicValue))
    ensures
        dyn_fields_view(fs.push(p)) == dyn_fields_view(fs).push((p.0@, dyn_view(p.1))),
{
    lemma_dyn_fields_view(fs.push(p));
    lemma_dyn_fields_view(fs);
    assert forall|i: int| 0 <= i < fs.len() + 1 implies dyn_fields_view(fs.push(p))[i]
        == dyn_fields_view(fs).push((p.0@, dyn_view(p.1)))[i] by {
        if i < fs.len() {
            assert(fs.push(p)[i] == fs[i]);
        } else {
            assert(fs.push(p)[i] == p);
        }
    }
    assert(dyn_fields_view(fs.push(p)) =~= dyn_fields_view(fs).push((p.0@, dyn_view(p.1))));
}

/// Appending a field leaves earlier lookups in place; a fresh key becomes
/// visible exactly when it was not shadowed.
pub proof fn lemma_obj_get_push(
    fs: Seq<(Seq<char>, DynSpec)>,
    key: Seq<char>,
    value: DynSpec,
    name: Seq<char>,
)
    ensures
        obj_get(fs.push((key, value)), name) == if obj_get(fs, name) is Some {
            obj_get(fs, name)
        } else if key == name {
            Some(value)
        } else {
            None::<DynSpec>
        },
    decreases fs.len(),
{
    let pushed = fs.push((key, value));
    if fs.len() == 0 {
        assert(pushed[0] == (key, value));
        assert(obj_get(pushed.drop_first(), name) is None);
    } else {
        assert(pushed[0] == fs[0]);
        assert(pushed.drop_first() =~= fs.drop_first().push((key, value)));
        lemma_obj_get_push(fs.drop_first(), key, value, name);
        if fs[0].0 != name {
            assert(obj_get(pushed, name) == obj_get(pushed.drop_first(), name));
            assert(obj_get(fs, name) == obj_get(fs.drop_first(), name));
        }
    }
}

/// If no key among the first `i` fields matches, the lookup result is decided
/// by the remaining fields alone.
pub proof fn lemma_obj_get_skip(fs: Seq<(Seq<char>, DynSpec)>, name: Seq<char>, i: int)
    requires
        0 <= i <= fs.len(),
        forall|j: int| 0 <= j < i ==> fs[j].0 != name,
    ensures
        obj_get(fs, name) == obj_get(fs.subrange(i, fs.len() as int), name),
    decreases i,
{
    if i == 0 {
        assert(fs.subrange(0, fs.len() as int) =~= fs);
    } else {
        lemma_obj_get_skip(fs, name, i - 1);
        let tail = fs.subrange(i - 1, fs.len() as int);
        assert(tail[0] == fs[i - 1]);
        assert(fs[i - 1].0 != name);
        assert(obj_get(tail, name) == obj_get(tail.drop_first(), name));
        assert(tail.drop_first() =~= fs.subrange(i, fs.len() as int));
    }
}

} // verus!
