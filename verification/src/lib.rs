//! Typed bridge core for a host-embedded 3D design tool's JavaScript object
//! model.
//!
//! The host exposes a catalogue of asynchronous operations and event sources
//! that exchange untyped, self-describing values. This crate holds the part of
//! the binding layer that carries real invariants: the tagged dynamic value
//! model, the codec between typed request/response shapes and dynamic values,
//! the call bridge (one settlement per call, classified outcomes), and the
//! subscription lifecycle (idempotent revocation, revoke before release).
//! The thin asynchronous glue that talks to the actual JavaScript runtime
//! lives outside this crate and drives these state machines.

pub mod call;
pub mod codec;
pub mod dynamic;
pub mod error;
pub mod subscription;
pub mod types;

use vstd::prelude::*;

verus! {

/// The result type used throughout the bridge.
pub type SdkResult<T> = Result<T, crate::error::SdkError>;

} // verus!
