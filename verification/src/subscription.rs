//! The subscription bridge.
//!
//! Registering for a host event source hands the host a callback object and
//! awaits a registration result that yields a revocation operation specific
//! to this registration. The returned [`SubscriptionHandle`] is the sole
//! owner of both: it keeps the callback reachable for as long as the host
//! may invoke it, revokes exactly once (manually or when the handle is
//! closed), and — when closed while live — always revokes *before* it
//! releases the callback, so the host can never invoke a callback whose
//! owning handle has disappeared.
//!
//! The handle is an explicit-lifetime resource: whoever owns one must call
//! [`SubscriptionHandle::close`] on every exit path and perform the actions
//! it returns, in order. The asynchronous glue wraps that discipline in a
//! guard; the decisions all live here.

use crate::call::CallOutcome;
use crate::codec::DynCodec;
use crate::dynamic::DynSpec;
use crate::dynamic::DynamicValue;
use crate::dynamic::obj_get;
use crate::error::MarshalError;
use crate::error::SdkError;
use vstd::prelude::*;

verus! {

/// The lifecycle of a subscription: `Registering` until the host's
/// registration result arrives, then `Active`, then — exactly once —
/// `Revoked`. `Revoked` is terminal.
#[derive(Debug, Clone, Copy, PartialEq, Eq, Structural)]
pub enum SubscriptionState {
    Registering,
    Active,
    Revoked,
}

/// An action the owner of a handle must perform against the host, in the
/// order returned.
#[derive(Debug, Clone, Copy, PartialEq, Eq, Structural)]
pub enum HandleAction {
    /// Invoke the host revocation operation with this identifier.
    InvokeRevocation(u64),
    /// Release the callback object with this identifier, making it
    /// collectable on the host side.
    ReleaseCallback(u64),
}

/// What a registration outcome grants: the revocation operation, if the
/// fulfilment value is an object whose `unsubscribe` property is a host
/// function reference.
pub open spec fn registration_grant(v: DynSpec) -> Option<u64> {
    match v {
        DynSpec::Obj(fs) => match obj_get(fs, "unsubscribe"@) {
            Option::Some(DynSpec::Func(id)) => Option::Some(id),
            _ => Option::None,
        },
        _ => Option::None,
    }
}

/// Which host revocation a revoke performs: the stored one if the handle is
/// live, none otherwise.
pub open spec fn revoke_invocation(
    state: SubscriptionState,
    revocation: Option<u64>,
) -> Option<u64> {
    if state is Active {
        revocation
    } else {
        Option::None
    }
}

/// The actions a close performs, in order: revoke first if the handle is
/// live, then release the callback — unless it was already released, in
/// which case there is nothing left to do.
pub open spec fn close_actions(
    state: SubscriptionState,
    revocation: Option<u64>,
    callback: u64,
    released: bool,
) -> Seq<HandleAction> {
    if released {
        Seq::empty()
    } else if state is Active {
        match revocation {
            Option::Some(id) => seq![
                HandleAction::InvokeRevocation(id),
                HandleAction::ReleaseCallback(callback),
            ],
            Option::None => seq![HandleAction::ReleaseCallback(callback)],
        }
    } else {
        seq![HandleAction::ReleaseCallback(callback)]
    }
}

/// Idempotent revocation: a handle that is already revoked performs no host
/// invocation on a further revoke. Together with the fact that every revoke
/// leaves the handle revoked, the host revocation operation runs at most
/// once per handle, however many times revoke is called.
pub proof fn lemma_revoke_idempotent(revocation: Option<u64>)
    ensures
        revoke_invocation(SubscriptionState::Revoked, revocation) is None,
        revoke_invocation(SubscriptionState::Registering, revocation) is None,
{
}

/// Revoke before release: in the actions of any close, every host
/// revocation comes strictly before every callback release; and closing a
/// live handle does revoke.
pub proof fn lemma_revoke_precedes_release(
    state: SubscriptionState,
    revocation: Option<u64>,
    callback: u64,
    released: bool,
)
    ensures
        forall|i: int, j: int|
            0 <= i < close_actions(state, revocation, callback, released).len() && 0 <= j
                < close_actions(state, revocation, callback, released).len() && (#[trigger] close_actions(
                state,
                revocation,
                callback,
                released,
            )[i]) is InvokeRevocation && (#[trigger] close_actions(
                state,
                revocation,
                callback,
                released,
            )[j]) is ReleaseCallback ==> i < j,
        state is Active && !released && revocation is Some ==> close_actions(
            state,
            revocation,
            callback,
            released,
        )[0] is InvokeRevocation,
{
}

/// A live subscription: the sole owner of the registered callback object and
/// of the host-provided revocation operation.
pub struct SubscriptionHandle {
    state: SubscriptionState,
    callback_id: u64,
    revocation_id: Option<u64>,
    callback_released: bool,
}

impl SubscriptionHandle {
    /// The lifecycle state.
    pub closed spec fn state(&self) -> SubscriptionState {
        self.state
    }

    /// The identifier of the callback object this handle keeps alive.
    pub closed spec fn callback(&self) -> u64 {
        self.callback_id
    }

    /// The identifier of the host revocation operation, once granted.
    pub closed spec fn revocation(&self) -> Option<u64> {
        self.revocation_id
    }

    /// Whether the callback object has been released.
    pub closed spec fn released(&self) -> bool {
        self.callback_released
    }

    /// The handle's invariant: a live handle holds a revocation operation
    /// and still owns its callback; the callback is released only once the
    /// handle is revoked.
    pub open spec fn inv(&self) -> bool {
        &&& self.state() is Active ==> self.revocation() is Some
        &&& !(self.state() is Revoked) ==> !self.released()
    }

    /// Starts a registration: the callback object has been created and
    /// handed to the host's registration operation, whose own pending result
    /// is still outstanding.
    pub fn begin_registration(callback_id: u64) -> (h: SubscriptionHandle)
        ensures
            h.inv(),
            h.state() is Registering,
            h.callback() == callback_id,
            !h.released(),
    {
        SubscriptionHandle {
            state: SubscriptionState::Registering,
            callback_id,
            revocation_id: None,
            callback_released: false,
        }
    }

    /// Feeds the registration's settled outcome in. A fulfilment granting a
    /// revocation operation makes the subscription active; a rejection or a
    /// malformed fulfilment leaves the handle dead (there is nothing to
    /// revoke), with the classified error returned to the caller.
    pub fn complete_registration(&mut self, outcome: CallOutcome) -> (r: Result<(), SdkError>)
        requires
            old(self).inv(),
            old(self).state() is Registering,
        ensures
            final(self).inv(),
            final(self).callback() == old(self).callback(),
            !final(self).released(),
            match outcome {
                CallOutcome::Rejected(ev) => r == Err::<(), SdkError>(SdkError::Host(ev))
                    && final(self).state() is Revoked,
                CallOutcome::Fulfilled(v) => match registration_grant(v@) {
                    Option::Some(id) => r is Ok && final(self).state() is Active
                        && final(self).revocation() == Some(id),
                    Option::None => (r matches Err(e) && e is Marshal)
                        && final(self).state() is Revoked,
                },
            },
    {
        match outcome {
            CallOutcome::Rejected(ev) => {
                self.state = SubscriptionState::Revoked;
                Err(SdkError::from_rejection(ev))
            },
            CallOutcome::Fulfilled(v) => {
                let granted = match v.as_object() {
                    Ok(fields) => match crate::codec::get_field(fields, "unsubscribe") {
                        Some(d) => match d {
                            DynamicValue::Func(id) => Some(*id),
                            _ => None,
                        },
                        None => None,
                    },
                    Err(_) => None,
                };
                match granted {
                    Some(id) => {
                        self.revocation_id = Some(id);
                        self.state = SubscriptionState::Active;
                        Ok(())
                    },
                    None => {
                        self.state = SubscriptionState::Revoked;
                        Err(SdkError::from_marshal(MarshalError::new(
                            "registration result carries no revocation operation",
                        )))
                    },
                }
            },
        }
    }

    /// Whether the subscription is live.
    pub fn is_active(&self) -> (r: bool)
        ensures
            r == (self.state() is Active),
    {
        match self.state {
            SubscriptionState::Active => true,
            _ => false,
        }
    }

    /// Revokes the subscription. Always succeeds and always leaves the
    /// handle revoked; the returned identifier, if any, is the host
    /// revocation operation the owner must now invoke — handed out only on
    /// the transition out of `Active`, so the host operation runs at most
    /// once however often revoke is called.
    pub fn revoke(&mut self) -> (invoke: Option<u64>)
        requires
            old(self).inv(),
        ensures
            final(self).inv(),
            final(self).state() is Revoked,
            final(self).callback() == old(self).callback(),
            final(self).revocation() == old(self).revocation(),
            final(self).released() == old(self).released(),
            invoke == revoke_invocation(old(self).state(), old(self).revocation()),
    {
        let was_active = self.is_active();
        self.state = SubscriptionState::Revoked;
        if was_active {
            self.revocation_id
        } else {
            None
        }
    }

    /// Closes the handle at the end of its owned lifetime: revokes it if it
    /// is still live and releases the callback object, in that order. The
    /// owner must perform the returned actions in order. Closing an already
    /// closed handle does nothing.
    pub fn close(&mut self) -> (actions: Vec<HandleAction>)
        requires
            old(self).inv(),
        ensures
            final(self).inv(),
            final(self).state() is Revoked,
            final(self).released(),
            final(self).callback() == old(self).callback(),
            actions@ == close_actions(
                old(self).state(),
                old(self).revocation(),
                old(self).callback(),
                old(self).released(),
            ),
    {
        let mut actions: Vec<HandleAction> = Vec::new();
        let was_active = self.is_active();
        let already_released = self.callback_released;
        if was_active {
            match self.revocation_id {
                Some(id) => {
                    actions.push(HandleAction::InvokeRevocation(id));
                },
                None => {
                },
            }
        }
        if !already_released {
            actions.push(HandleAction::ReleaseCallback(self.callback_id));
        }
        self.state = SubscriptionState::Revoked;
        self.callback_released = true;
        proof {
            assert(actions@ =~= close_actions(
                old(self).state(),
                old(self).revocation(),
                old(self).callback(),
                old(self).released(),
            ));
        }
        actions
    }

    /// Delivers one host event to the subscription's typed callback. The
    /// event payload is decoded strictly; a payload that fails to decode is
    /// swallowed for that event only — the subscription stays in whatever
    /// state it was, and later well-formed events are unaffected. Nothing is
    /// delivered on a handle that is not live.
    pub fn deliver_event<T: DynCodec>(&self, payload: &DynamicValue) -> (r: Option<T>)
        ensures
            match r {
                Option::Some(t) => self.state() is Active && T::decodable(payload@)
                    && T::decodes_to(payload@, t),
                Option::None => !(self.state() is Active) || !T::decodable(payload@),
            },
            self.state() is Active && T::decodable(payload@) ==> r is Some,
    {
        if !self.is_active() {
            return None;
        }
        match T::decode_dyn(payload) {
            Ok(t) => Some(t),
            Err(_) => None,
        }
    }
}

} // verus!
