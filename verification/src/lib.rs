//! A cooperative, single-threaded actor execution engine.
//!
//! An actor owns a `u64` state cell and processes scripted message handlers
//! one at a time for exclusive messages and with bounded interleaving for
//! concurrent messages. The engine is deterministic: asynchronous work is
//! modelled by a virtual clock that the embedding advances, and every
//! external poll outcome is a function of that clock. The driver multiplexes
//! the mailbox, delayed one-shot tasks and attached streams through a
//! three-phase lifecycle with graceful and forced shutdown.
//!
//! - [`system`] owns everything: the actor, its mailbox, the task caches,
//!   the virtual clock, and the ghost history the laws speak of.
//! - [`context_future`] is the driver: one `tick` is one poll of it.
//! - [`address`] and [`request`] are the send side: strong and weak
//!   addresses, recipients, and the two-phase request with dual timeouts.
//! - [`context`] is the facade handlers schedule timers and streams on.
//! - [`task_cache`] keeps in-flight concurrent tasks under stable indices,
//!   and [`waker`] records which of them asked to be polled.
//! - [`laws`] states the engine's guarantees: exclusion, per-sender order,
//!   at-most-once replies, graceful drain, forced stop and cancellation.

use vstd::prelude::*;

pub mod address;
pub mod context;
pub mod context_future;
pub mod error;
pub mod laws;
pub mod message;
pub mod request;
pub mod system;
pub mod task_cache;
pub mod waker;

verus! {

/// Lifecycle state of the actor as observed by handlers.
#[derive(Clone, Copy, PartialEq, Eq, Structural, Debug)]
pub enum ActorState {
    Running,
    StopGraceful,
    Stop,
}

} // verus!
