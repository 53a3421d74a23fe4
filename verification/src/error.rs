//! The error taxonomy of the bridge.
//!
//! Exactly two kinds of failure originate from this layer: the host rejected
//! an operation (and its opaque rejection value is carried through
//! unchanged), or this layer failed to encode a request or decode a
//! response/event. No other component constructs an error outside the
//! mappings below.

use crate::dynamic::DynSpec;
use crate::dynamic::DynamicValue;
use vstd::prelude::*;
use vstd::string::StringExecFns;

verus! {

/// How a host error value reads in a description: a string rejection reads
/// as itself; any other value is summarised, since rendering an arbitrary
/// host value is the embedder's business.
pub open spec fn host_error_rendering(v: DynSpec) -> Seq<char> {
    match v {
        DynSpec::Text(s) => s,
        _ => "[opaque host value]"@,
    }
}

/// A local encode or decode failure, with a human-readable description.
#[derive(Debug, PartialEq)]
pub struct MarshalError {
    /// What went wrong, naming the offending shape or field when feasible.
    pub message: String,
}

impl MarshalError {
    /// A marshalling failure with a fixed description.
    pub fn new(message: &str) -> (r: MarshalError)
        ensures
            r.message@ == message@,
    {
        MarshalError { message: message.to_owned() }
    }

    /// A marshalling failure whose description names the field concerned.
    pub fn for_field(description: &str, field: &str) -> (r: MarshalError)
        ensures
            r.message@ == description@ + field@,
    {
        MarshalError { message: description.to_owned().concat(field) }
    }
}

/// A classified failure as surfaced to the caller of the bridge.
#[derive(Debug, PartialEq)]
pub enum SdkError {
    /// The host rejected the call or signalled failure; carries the host's
    /// opaque error value, not further interpreted.
    Host(DynamicValue),
    /// Encoding a request or decoding a response failed locally.
    Marshal(String),
}

impl SdkError {
    /// Classifies a host rejection value: it is wrapped unchanged, never
    /// decoded as a domain type.
    pub fn from_rejection(value: DynamicValue) -> (r: SdkError)
        ensures
            r == SdkError::Host(value),
    {
        SdkError::Host(value)
    }

    /// Classifies a local marshalling failure.
    pub fn from_marshal(error: MarshalError) -> (r: SdkError)
        ensures
            r == SdkError::Marshal(error.message),
    {
        SdkError::Marshal(error.message)
    }

    /// Whether the failure originated in the host.
    pub fn is_host(&self) -> (r: bool)
        ensures
            r == (self is Host),
    {
        match self {
            SdkError::Host(_) => true,
            SdkError::Marshal(_) => false,
        }
    }

    /// A short description of the failure.
    pub fn describe(&self) -> (r: String)
        ensures
            self matches SdkError::Marshal(m) ==> r@ == "Serialization error: "@ + m@,
            self matches SdkError::Host(v) ==> r@ == "JS error: "@ + host_error_rendering(v@),
    {
        match self {
            SdkError::Host(v) => match v {
                DynamicValue::Text(s) => "JS error: ".to_owned().concat(s.as_str()),
                _ => "JS error: ".to_owned().concat("[opaque host value]"),
            },
            SdkError::Marshal(m) => "Serialization error: ".to_owned().concat(m.as_str()),
        }
    }
}

} // verus!
