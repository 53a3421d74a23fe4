//! The call bridge.
//!
//! A facade invokes a named host operation with an encoded request and gets
//! back a pending result that settles exactly once, either with a dynamic
//! value or with a host error value. The asynchronous glue performs the
//! actual invocation and feeds the settlement in; everything decided here is
//! decided on plain values: requests that fail to encode never reach the
//! host, only the first settlement of a pending result counts, a fulfilment
//! is decoded strictly, and a rejection is classified as a host error
//! without being interpreted.

use crate::codec::DynCodec;
use crate::dynamic::DynamicValue;
use crate::error::SdkError;
use vstd::prelude::*;

verus! {

/// The settled outcome of one host operation.
#[derive(Debug, PartialEq)]
pub enum CallOutcome {
    /// The host resolved the operation with a value.
    Fulfilled(DynamicValue),
    /// The host rejected the operation with an error value.
    Rejected(DynamicValue),
}

/// What a settlement attempt does to a pending result: the first attempt is
/// stored and accepted, every later one is refused and changes nothing.
pub open spec fn spec_settle(
    stored: Option<CallOutcome>,
    offered: CallOutcome,
) -> (Option<CallOutcome>, bool) {
    match stored {
        Option::Some(_) => (stored, false),
        Option::None => (Option::Some(offered), true),
    }
}

/// Single settlement: from a fresh pending result, the first settlement is
/// accepted and a second one is refused, leaving the first outcome in place.
/// A test double host that settles twice therefore surfaces only the first
/// settlement to the caller.
pub proof fn lemma_single_settlement(first: CallOutcome, second: CallOutcome)
    ensures
        ({
            let (stored1, accepted1) = spec_settle(Option::None, first);
            let (stored2, accepted2) = spec_settle(stored1, second);
            accepted1 && !accepted2 && stored2 == Option::Some(first)
        }),
{
}

/// A host-owned handle for the future outcome of exactly one call. It
/// settles exactly once; repeated settlement attempts are ignored.
pub struct PendingResult {
    settled: Option<CallOutcome>,
}

impl PendingResult {
    /// The outcome stored so far, if any.
    pub closed spec fn stored(&self) -> Option<CallOutcome> {
        self.settled
    }

    /// A fresh, unsettled pending result.
    pub fn new() -> (r: PendingResult)
        ensures
            r.stored() is None,
    {
        PendingResult { settled: None }
    }

    /// Whether the result has settled.
    pub fn is_settled(&self) -> (r: bool)
        ensures
            r == (self.stored() is Some),
    {
        self.settled.is_some()
    }

    /// Offers a settlement. Only the first offer is accepted; the cell never
    /// changes again afterwards.
    pub fn settle(&mut self, outcome: CallOutcome) -> (accepted: bool)
        ensures
            (final(self).stored(), accepted) == spec_settle(old(self).stored(), outcome),
    {
        if self.settled.is_some() {
            false
        } else {
            self.settled = Some(outcome);
            true
        }
    }

    /// Surrenders the stored outcome.
    pub fn take(self) -> (r: Option<CallOutcome>)
        ensures
            r == self.stored(),
    {
        self.settled
    }
}

/// Encodes a typed request for a host operation. A request that fails to
/// encode yields a marshalling error and never reaches the host.
pub fn prepare_call<T: DynCodec>(request: &T) -> (r: Result<DynamicValue, SdkError>)
    ensures
        r matches Ok(d) ==> request.enc_wf() && d@ == request.enc(),
        r matches Err(e) ==> !request.enc_wf() && e is Marshal,
{
    match request.encode_dyn() {
        Ok(d) => Ok(d),
        Err(m) => Err(SdkError::from_marshal(m)),
    }
}

/// Converts the settled outcome of a call into a typed result. A fulfilment
/// is decoded strictly into the declared response type; a rejection is
/// wrapped as a host error, without any attempt to decode it.
pub fn complete_call<R: DynCodec>(outcome: CallOutcome) -> (r: Result<R, SdkError>)
    ensures
        outcome matches CallOutcome::Rejected(e) ==> r == Err::<R, SdkError>(SdkError::Host(e)),
        outcome matches CallOutcome::Fulfilled(v) ==> match r {
            Ok(t) => R::decodable(v@) && R::decodes_to(v@, t),
            Err(e2) => !R::decodable(v@) && e2 is Marshal,
        },
{
    match outcome {
        CallOutcome::Rejected(e) => Err(SdkError::from_rejection(e)),
        CallOutcome::Fulfilled(v) => match R::decode_dyn(&v) {
            Ok(t) => Ok(t),
            Err(m) => Err(SdkError::from_marshal(m)),
        },
    }
}

/// Converts the settled outcome of a call whose declared response is
/// optional: a fulfilment with host `null` or `undefined` is the absent
/// case, any other fulfilment must decode as `Some`, and a rejection is
/// wrapped as a host error.
pub fn complete_optional_call<R: DynCodec>(outcome: CallOutcome) -> (r: Result<
    Option<R>,
    SdkError,
>)
    ensures
        outcome matches CallOutcome::Rejected(e) ==> r == Err::<Option<R>, SdkError>(
            SdkError::Host(e),
        ),
        outcome matches CallOutcome::Fulfilled(v) ==> {
            &&& (v@ is Null || v@ is Undef) ==> r == Ok::<Option<R>, SdkError>(None)
            &&& !(v@ is Null || v@ is Undef) ==> match r {
                Ok(o) => o matches Some(t) && R::decodable(v@) && R::decodes_to(v@, t),
                Err(e2) => !R::decodable(v@) && e2 is Marshal,
            }
        },
{
    match outcome {
        CallOutcome::Rejected(e) => Err(SdkError::from_rejection(e)),
        CallOutcome::Fulfilled(v) => match crate::codec::decode_optional::<R>(&v) {
            Ok(o) => Ok(o),
            Err(m) => Err(SdkError::from_marshal(m)),
        },
    }
}

/// Converts the settled outcome of a call whose operation declares no
/// result: the fulfilment value is discarded, a rejection is classified.
pub fn complete_void_call(outcome: CallOutcome) -> (r: Result<(), SdkError>)
    ensures
        outcome matches CallOutcome::Rejected(e) ==> r == Err::<(), SdkError>(SdkError::Host(e)),
        outcome is Fulfilled ==> r is Ok,
{
    match outcome {
        CallOutcome::Rejected(e) => Err(SdkError::from_rejection(e)),
        CallOutcome::Fulfilled(_) => Ok(()),
    }
}

} // verus!
