//! An eventually-consistent latest-value broadcast cell.
//!
//! A channel carries a monotonically replaced "current snapshot" of a value
//! from a single writer to many independent readers. Intermediate snapshots
//! may be dropped; the final write (or the close that follows it) is always
//! delivered to every live reader exactly once.
//!
//! This crate holds the decision core of such a channel: the snapshot cell
//! and its state machine, the per-subscriber delivery slots, the registry,
//! the reader-side deduplication, and the step functions that drive the
//! combinators. Everything here is sequential and verified; the surrounding
//! runtime (locks, wakers, spawned tasks) drives these functions and is kept
//! outside the verified core.

pub mod change;
pub mod combinators;
pub mod error;
pub mod laws;
pub mod reader;
pub mod shared_state;
pub mod subscribers;

use vstd::prelude::*;
use vstd::pervasive::cloned;
use vstd::std_specs::cmp::PartialEqSpec;

verus! {

/// Payload carried by a channel: cheap to clone and comparable for equality,
/// so that a reader can suppress a redundant re-delivery of the snapshot it
/// last observed.
pub trait Value: 'static + Send + Clone + Eq + PartialEqSpec {

}

impl<T: 'static + Send + Clone + Eq + PartialEqSpec> Value for T {

}

/// The channel's guarantees are stated for payload types whose `==` decides
/// real equality and whose `clone` returns an equal value. Every contract
/// that depends on comparing or copying payloads is conditioned on this.
pub open spec fn values_exact<T: Clone + PartialEqSpec>() -> bool {
    &&& T::obeys_eq_spec()
    &&& forall|a: T, b: T| #[trigger] a.eq_spec(&b) <==> a == b
    &&& forall|a: T, b: T| #[trigger] cloned::<T>(a, b) ==> b == a
}

} // verus!
