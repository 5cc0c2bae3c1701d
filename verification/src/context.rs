//! The per-handler context facade and the join handle for scheduled work.

use vstd::prelude::*;

use crate::address::Addr;
use crate::message::MessageBody;
use crate::system::{ActorSystem, CancelCell, FutureMessage, StreamMessage};
use crate::ActorState;

verus! {

/// Handle to a scheduled delayed task or attached stream. Cancelling drops
/// the pending work at its next poll.
pub struct ContextJoinHandle {
    pub cell: usize,
}

impl ContextJoinHandle {
    /// Cancel the task associated with this handle. The task observes the
    /// cancellation before its next dispatch and is dropped.
    pub fn cancel(self, sys: &mut ActorSystem)
        ensures
            final(sys).cancels@.len() == old(sys).cancels@.len(),
            self.cell < old(sys).cancels@.len() ==> final(sys).cancels@ == old(
                sys,
            ).cancels@.update(
                self.cell as int,
                CancelCell { cancelled: true, ..old(sys).cancels@[self.cell as int] },
            ),
            self.cell >= old(sys).cancels@.len() ==> final(sys).cancels@ == old(sys).cancels@,
            *final(sys) == (ActorSystem { cancels: final(sys).cancels, ..*old(sys) }),
            ActorSystem::step_rel(*old(sys), *final(sys)),
            old(sys).wf() ==> final(sys).wf(),
    {
        sys.cancel_cell(self.cell);
    }

    /// Whether the task associated with this handle has terminated: it
    /// completed, was cancelled, or was dropped at shutdown.
    pub fn is_terminated(&self, sys: &ActorSystem) -> (r: bool)
        ensures
            r == !sys.cell_live(self.cell as int),
    {
        !sys.cell_is_live(self.cell)
    }
}

/// A stream to attach to an actor: its first item is due after
/// `first_delay`, further items every `period`, `count` bounds how many it
/// yields in all (none means endless), and `item` is the message each item
/// becomes.
pub struct StreamSpec {
    pub first_delay: u64,
    pub period: u64,
    pub count: Option<u64>,
    pub item: MessageBody,
}

/// The context handed to a handler: a facade over the actor system for
/// scheduling timers, attaching streams, self-addressing and stopping.
pub struct Context {
    _priv: (),
}

impl Context {
    /// Build a context. The driver hands one to each handler it invokes;
    /// the embedding may build one to act in a handler's stead between
    /// polls of the driver.
    pub fn new() -> (c: Context) {
        Context { _priv: () }
    }

    /// Schedule a repeating concurrent message every `dur`.
    pub fn run_interval(&self, sys: &mut ActorSystem, dur: u64, f: MessageBody) -> (h:
        ContextJoinHandle)
        ensures
            h.cell == old(sys).cancels@.len(),
            final(sys).cancels@ == old(sys).cancels@.push(
                (CancelCell { cancelled: false, live: true }),
            ),
            final(sys).stream_cache@ == old(sys).stream_cache@.push(
                (StreamMessage {
                    next_due: crate::message::sat_add(old(sys).now, dur),
                    period: dur,
                    remaining: None,
                    cancel: old(sys).cancels@.len() as usize,
                    exclusive: false,
                    body: f,
                }),
            ),
            ActorSystem::sched_frame(*old(sys), *final(sys)),
            ActorSystem::step_rel(*old(sys), *final(sys)),
            final(sys).last_handle == old(sys).last_handle,
            final(sys).future_cache == old(sys).future_cache,
            old(sys).wf() ==> final(sys).wf(),
    {
        sys.sched_interval(dur, false, f)
    }

    /// Schedule a repeating exclusive message every `dur`.
    pub fn run_wait_interval(&self, sys: &mut ActorSystem, dur: u64, f: MessageBody) -> (h:
        ContextJoinHandle)
        ensures
            h.cell == old(sys).cancels@.len(),
            final(sys).cancels@ == old(sys).cancels@.push(
                (CancelCell { cancelled: false, live: true }),
            ),
            final(sys).stream_cache@ == old(sys).stream_cache@.push(
                (StreamMessage {
                    next_due: crate::message::sat_add(old(sys).now, dur),
                    period: dur,
                    remaining: None,
                    cancel: old(sys).cancels@.len() as usize,
                    exclusive: true,
                    body: f,
                }),
            ),
            ActorSystem::sched_frame(*old(sys), *final(sys)),
            ActorSystem::step_rel(*old(sys), *final(sys)),
            final(sys).last_handle == old(sys).last_handle,
            final(sys).future_cache == old(sys).future_cache,
            old(sys).wf() ==> final(sys).wf(),
    {
        sys.sched_interval(dur, true, f)
    }

    /// Schedule a one-shot concurrent message after `dur`.
    pub fn run_later(&self, sys: &mut ActorSystem, dur: u64, f: MessageBody) -> (h:
        ContextJoinHandle)
        ensures
            h.cell == old(sys).cancels@.len(),
            final(sys).cancels@ == old(sys).cancels@.push(
                (CancelCell { cancelled: false, live: true }),
            ),
            final(sys).future_cache@ == old(sys).future_cache@.push(
                (FutureMessage {
                    deadline: crate::message::sat_add(old(sys).now, dur),
                    cancel: old(sys).cancels@.len() as usize,
                    exclusive: false,
                    body: f,
                }),
            ),
            ActorSystem::sched_frame(*old(sys), *final(sys)),
            ActorSystem::step_rel(*old(sys), *final(sys)),
            final(sys).last_handle == old(sys).last_handle,
            final(sys).stream_cache == old(sys).stream_cache,
            old(sys).wf() ==> final(sys).wf(),
    {
        sys.sched_later(dur, false, f)
    }

    /// Schedule a one-shot exclusive message after `dur`.
    pub fn run_wait_later(&self, sys: &mut ActorSystem, dur: u64, f: MessageBody) -> (h:
        ContextJoinHandle)
        ensures
            h.cell == old(sys).cancels@.len(),
            final(sys).cancels@ == old(sys).cancels@.push(
                (CancelCell { cancelled: false, live: true }),
            ),
            final(sys).future_cache@ == old(sys).future_cache@.push(
                (FutureMessage {
                    deadline: crate::message::sat_add(old(sys).now, dur),
                    cancel: old(sys).cancels@.len() as usize,
                    exclusive: true,
                    body: f,
                }),
            ),
            ActorSystem::sched_frame(*old(sys), *final(sys)),
            ActorSystem::step_rel(*old(sys), *final(sys)),
            final(sys).last_handle == old(sys).last_handle,
            final(sys).stream_cache == old(sys).stream_cache,
            old(sys).wf() ==> final(sys).wf(),
    {
        sys.sched_later(dur, true, f)
    }

    /// Stop the actor gracefully: close the channel; the driver drains the
    /// remaining messages and then stops.
    pub fn stop(&self, sys: &mut ActorSystem)
        ensures
            *final(sys) == (ActorSystem {
                closed: true,
                act_state: ActorState::StopGraceful,
                ..*old(sys)
            }),
            old(sys).wf() ==> final(sys).wf(),
            ActorSystem::step_rel(*old(sys), *final(sys)),
    {
        sys.closed = true;
        sys.act_state = ActorState::StopGraceful;
    }

    /// The actor's own address, while the channel is open.
    pub fn address(&self, sys: &mut ActorSystem) -> (r: Option<Addr>)
        ensures
            old(sys).wf() ==> final(sys).wf(),
            ActorSystem::step_rel(*old(sys), *final(sys)),
            (!old(sys).closed && old(sys).addr_count < usize::MAX) ==> r is Some
                && *final(sys) == (ActorSystem {
                addr_count: (old(sys).addr_count + 1) as usize,
                next_sender: final(sys).next_sender,
                ..*old(sys)
            }),
            (old(sys).closed || old(sys).addr_count == usize::MAX) ==> r is None
                && *final(sys) == *old(sys),
    {
        if !sys.is_closed() && sys.addr_count < usize::MAX {
            sys.addr_count = sys.addr_count + 1;
            let a = Addr { id: Ghost(sys.next_sender@) };
            proof {
                sys.next_sender@ = sys.next_sender@ + 1;
            }
            Some(a)
        } else {
            None
        }
    }

    /// Attach a stream whose items become concurrent messages.
    pub fn add_stream(&self, sys: &mut ActorSystem, s: StreamSpec) -> (h: ContextJoinHandle)
        ensures
            h.cell == old(sys).cancels@.len(),
            final(sys).cancels@ == old(sys).cancels@.push(
                (CancelCell { cancelled: false, live: true }),
            ),
            final(sys).stream_cache@ == old(sys).stream_cache@.push(
                (StreamMessage {
                    next_due: crate::message::sat_add(old(sys).now, s.first_delay),
                    period: s.period,
                    remaining: s.count,
                    cancel: old(sys).cancels@.len() as usize,
                    exclusive: false,
                    body: s.item,
                }),
            ),
            ActorSystem::sched_frame(*old(sys), *final(sys)),
            ActorSystem::step_rel(*old(sys), *final(sys)),
            final(sys).last_handle == old(sys).last_handle,
            final(sys).future_cache == old(sys).future_cache,
            old(sys).wf() ==> final(sys).wf(),
    {
        sys.sched_stream(s.first_delay, s.period, s.count, false, s.item)
    }

    /// Attach a stream whose items become exclusive messages.
    pub fn add_wait_stream(&self, sys: &mut ActorSystem, s: StreamSpec) -> (h: ContextJoinHandle)
        ensures
            h.cell == old(sys).cancels@.len(),
            final(sys).cancels@ == old(sys).cancels@.push(
                (CancelCell { cancelled: false, live: true }),
            ),
            final(sys).stream_cache@ == old(sys).stream_cache@.push(
                (StreamMessage {
                    next_due: crate::message::sat_add(old(sys).now, s.first_delay),
                    period: s.period,
                    remaining: s.count,
                    cancel: old(sys).cancels@.len() as usize,
                    exclusive: true,
                    body: s.item,
                }),
            ),
            ActorSystem::sched_frame(*old(sys), *final(sys)),
            ActorSystem::step_rel(*old(sys), *final(sys)),
            final(sys).last_handle == old(sys).last_handle,
            final(sys).future_cache == old(sys).future_cache,
            old(sys).wf() ==> final(sys).wf(),
    {
        sys.sched_stream(s.first_delay, s.period, s.count, true, s.item)
    }
}

} // verus!
