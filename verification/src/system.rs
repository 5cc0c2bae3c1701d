//! The actor system: one actor, its mailbox, its in-flight tasks, its
//! timers and streams, and the virtual clock, all in one owned structure.
//!
//! The embedding drives the system by enqueuing envelopes through an
//! address, advancing the clock, and ticking the driver. Ghost fields
//! record the history the library's laws speak of: the status of every
//! message ever enqueued and the order handlers were dispatched in.

use vstd::prelude::*;

use crate::context::ContextJoinHandle;
use crate::message::{
    op_data, op_reply, op_reply_value, op_sched_count, sat_add, Envelope, EnvKind, HandlerOp,
    MessageBody,
};
use crate::task_cache::TaskRef;
use crate::waker::WakeQueue;
use crate::ActorState;

verus! {

/// Default deadline for enqueuing a message, in virtual milliseconds.
pub const DEFAULT_TIMEOUT_MS: u64 = 10000;

/// Fairness cap: consecutive yields taken from one stream per cycle.
pub const STREAM_YIELD_CAP: u64 = 16;

/// The driver's lifecycle phase. Transitions are one-way, in this order.
#[derive(Clone, Copy, PartialEq, Eq, Structural, Debug)]
pub enum Phase {
    Starting,
    Running,
    Stopping,
    Stopped,
}

/// A reply slot: the receiving half is read by a message request.
#[derive(Clone, Copy, PartialEq, Eq, Structural, Debug)]
pub enum SlotState {
    /// Not yet fulfilled.
    Pending,
    /// Fulfilled, exactly once, with this value.
    Filled(u64),
    /// The sending half went away without fulfilling it.
    Closed,
}

/// A cancellation cell shared between a join handle and a scheduled task.
#[derive(Clone, Copy, PartialEq, Eq, Structural, Debug)]
pub struct CancelCell {
    /// The handle asked for cancellation.
    pub cancelled: bool,
    /// The scheduled task still exists (it has not completed, been
    /// cancelled, or been dropped at shutdown).
    pub live: bool,
}

/// Ghost record: where a message enqueued into the mailbox stands.
pub enum MsgStatus {
    /// Still in the mailbox.
    Queued,
    /// Handed to its handler.
    Dispatched,
    /// Dropped undispatched by a forced stop.
    Discarded,
}

/// Ghost record: what caused one dispatch.
pub enum DispatchSrc {
    /// A mailbox message, tagged with its sender and sequence number.
    Mailbox { sender: int, seq: int },
    /// A delayed one-shot, identified by its cancellation cell.
    Timer { cell: int },
    /// An attached stream, identified by its cancellation cell.
    Stream { cell: int },
}

/// The exclusive task slot: at most one such task exists, and while it has
/// started no concurrent task may be resident.
pub struct ExclusiveTask {
    pub body: MessageBody,
    pub reply: Option<usize>,
    /// The script has run (the handler was invoked).
    pub started: bool,
    /// Virtual time at which the handler's work completes; meaningful only
    /// once started.
    pub deadline: u64,
    /// The value the reply slot will be fulfilled with; meaningful only
    /// once started.
    pub reply_val: u64,
}

impl ExclusiveTask {
    /// The value the reply slot receives, given the state cell at the
    /// time the handler is invoked.
    pub open spec fn reply_value_at(self, data: u64) -> u64 {
        if self.started {
            self.reply_val
        } else {
            op_reply_value(self.body.op, data)
        }
    }

    /// The state cell after the script has run on `data` (already run,
    /// if the handler was invoked earlier).
    pub open spec fn data_after(self, data: u64) -> u64 {
        if self.started {
            data
        } else {
            op_data(self.body.op, data)
        }
    }

    /// The virtual instant the work completes, if the handler is invoked
    /// at `now`.
    pub open spec fn deadline_after(self, now: u64) -> u64 {
        if self.started {
            self.deadline
        } else {
            sat_add(now, self.body.work)
        }
    }
}

/// The mutable state of a task in the task table. The script itself sits
/// in the parallel table of bodies and never changes after creation.
#[derive(Clone, Copy, PartialEq, Eq, Structural, Debug)]
pub struct TaskMeta {
    pub reply: Option<usize>,
    /// The script has run (the handler was invoked).
    pub started: bool,
    /// Virtual time at which the handler's work completes; meaningful only
    /// once started.
    pub deadline: u64,
    /// The value the reply slot will be fulfilled with; meaningful only
    /// once started.
    pub reply_val: u64,
    /// The task completed and left the cache.
    pub done: bool,
}

impl TaskMeta {
    /// The value the reply slot receives, given the script and the state
    /// cell at the time the handler is invoked.
    pub open spec fn reply_value_at(self, body: MessageBody, data: u64) -> u64 {
        if self.started {
            self.reply_val
        } else {
            op_reply_value(body.op, data)
        }
    }

    /// The state cell after the script has run on `data` (already run, if
    /// the handler was invoked earlier).
    pub open spec fn data_after(self, body: MessageBody, data: u64) -> u64 {
        if self.started {
            data
        } else {
            op_data(body.op, data)
        }
    }

    /// The virtual instant the work completes, if the handler is invoked
    /// at `now`.
    pub open spec fn deadline_after(self, body: MessageBody, now: u64) -> u64 {
        if self.started {
            self.deadline
        } else {
            sat_add(now, body.work)
        }
    }
}

/// A parked concurrent task: its waker fires when the virtual clock
/// reaches the deadline.
#[derive(Clone, Copy, PartialEq, Eq, Structural, Debug)]
pub struct SleepEntry {
    pub idx: usize,
    pub deadline: u64,
}

/// A scheduled one-shot message.
pub struct FutureMessage {
    pub deadline: u64,
    pub cancel: usize,
    pub exclusive: bool,
    pub body: MessageBody,
}

/// An attached stream: an interval source, optionally finite.
pub struct StreamMessage {
    pub next_due: u64,
    pub period: u64,
    pub remaining: Option<u64>,
    pub cancel: usize,
    pub exclusive: bool,
    pub body: MessageBody,
}

/// The whole actor system.
pub struct ActorSystem {
    /// The actor's state cell.
    pub data: u64,
    /// Script run by the lifecycle hook before the first message.
    pub on_start_body: MessageBody,
    /// Script run by the lifecycle hook after the last message.
    pub on_stop_body: MessageBody,
    /// The bounded mailbox, front at index zero.
    pub mailbox: Vec<Envelope>,
    /// Mailbox capacity.
    pub cap: usize,
    /// The receiver closed the channel: no further sends are accepted.
    pub closed: bool,
    /// Number of live strong addresses.
    pub addr_count: usize,
    /// Fire-and-forget sends waiting for mailbox room.
    pub bg_queue: Vec<Envelope>,
    /// Actor state as observed by handlers.
    pub act_state: ActorState,
    /// Driver phase.
    pub phase: Phase,
    /// The exclusive task slot.
    pub cache_mut: Option<ExclusiveTask>,
    /// Stable indices of in-flight concurrent tasks.
    pub cache_ref: TaskRef,
    /// Scripts of tasks in the task table, by task id.
    pub bodies: Vec<MessageBody>,
    /// Mutable task state, parallel to `bodies`.
    pub metas: Vec<TaskMeta>,
    /// Indices whose tasks signalled readiness.
    pub queue: WakeQueue,
    /// Concurrent tasks waiting on the clock, with the deadline at which
    /// their waker fires.
    pub sleepers: Vec<SleepEntry>,
    /// Pending one-shots.
    pub future_cache: Vec<FutureMessage>,
    /// Attached streams.
    pub stream_cache: Vec<StreamMessage>,
    /// Slot fulfilled when the actor has fully stopped.
    pub drop_notify: Option<usize>,
    /// A concurrent task was added this cycle; sweep once more.
    pub extra_poll: bool,
    /// The driver asked to be polled again.
    pub woken: bool,
    /// A forced stop was processed.
    pub forced: bool,
    /// The virtual clock, in milliseconds.
    pub now: u64,
    /// Reply slots.
    pub slots: Vec<SlotState>,
    /// Cancellation cells.
    pub cancels: Vec<CancelCell>,
    /// The join handle produced by the most recent handler-scheduled task.
    pub last_handle: Option<ContextJoinHandle>,
    /// Ghost: next mailbox sequence number.
    pub next_seq: Ghost<int>,
    /// Ghost: next fresh address tag.
    pub next_sender: Ghost<int>,
    /// Ghost: status of every message ever enqueued, by sequence number.
    pub msg_status: Ghost<Map<int, MsgStatus>>,
    /// Ghost: every dispatch, in dispatch order.
    pub dispatch_log: Ghost<Seq<DispatchSrc>>,
}

/// The dispatch came from the mailbox.
pub open spec fn src_is_mailbox(s: DispatchSrc) -> bool {
    match s {
        DispatchSrc::Mailbox { .. } => true,
        _ => false,
    }
}

/// The sequence number of a mailbox dispatch (zero otherwise).
pub open spec fn src_seq(s: DispatchSrc) -> int {
    match s {
        DispatchSrc::Mailbox { seq, .. } => seq,
        _ => 0,
    }
}

/// The sender tag of a mailbox dispatch (zero otherwise).
pub open spec fn src_sender(s: DispatchSrc) -> int {
    match s {
        DispatchSrc::Mailbox { sender, .. } => sender,
        _ => 0,
    }
}

pub open spec fn phase_index(p: Phase) -> int {
    match p {
        Phase::Starting => 0,
        Phase::Running => 1,
        Phase::Stopping => 2,
        Phase::Stopped => 3,
    }
}

/// Phases only ever move forward.
pub open spec fn phase_le(a: Phase, b: Phase) -> bool {
    phase_index(a) <= phase_index(b)
}

/// Every slab entry points into the task table.
pub open spec fn cache_ok(entries: Map<usize, u64>, bodies_len: int) -> bool {
    &&& entries.dom().finite()
    &&& forall|k: usize|
        #[trigger] entries.dom().contains(k) ==> (entries[k] as int) < bodies_len
}

/// A message with sequence number `s` stands in the queue.
pub open spec fn seq_in_queue(q: Seq<Envelope>, s: int) -> bool {
    exists|i: int| 0 <= i < q.len() && (#[trigger] q[i]).seq@ == s && q[i].is_msg()
}

/// Queue sequence numbers are strictly increasing and below `next`.
pub open spec fn queue_ordered(q: Seq<Envelope>, next: int) -> bool {
    &&& forall|i: int, j: int|
        0 <= i < j < q.len() ==> (#[trigger] q[i]).seq@ < (#[trigger] q[j]).seq@
    &&& forall|i: int| 0 <= i < q.len() ==> (#[trigger] q[i]).seq@ < next
}

/// Every message in the queue is recorded as queued.
pub open spec fn queue_statuses_queued(q: Seq<Envelope>, st: Map<int, MsgStatus>) -> bool {
    forall|i: int|
        0 <= i < q.len() && (#[trigger] q[i]).is_msg() ==> st.dom().contains(q[i].seq@) && st[
            q[i].seq@
        ] is Queued
}

/// Mailbox dispatches happen in sequence order.
pub open spec fn log_ordered(log: Seq<DispatchSrc>) -> bool {
    forall|d: int, e: int|
        0 <= d < e < log.len() && src_is_mailbox(#[trigger] log[d]) && src_is_mailbox(
            #[trigger] log[e],
        ) ==> src_seq(log[d]) < src_seq(log[e])
}

/// Every mailbox dispatch is recorded as dispatched.
pub open spec fn log_statuses_dispatched(
    log: Seq<DispatchSrc>,
    st: Map<int, MsgStatus>,
    next: int,
) -> bool {
    forall|d: int|
        0 <= d < log.len() && src_is_mailbox(#[trigger] log[d]) ==> src_seq(log[d]) < next
            && st.dom().contains(src_seq(log[d])) && st[src_seq(log[d])] is Dispatched
}

/// Everything dispatched precedes everything still queued.
pub open spec fn log_before_queue(q: Seq<Envelope>, log: Seq<DispatchSrc>) -> bool {
    forall|i: int, d: int|
        0 <= i < q.len() && 0 <= d < log.len() && src_is_mailbox(#[trigger] log[d]) ==> src_seq(
            log[d],
        ) < (#[trigger] q[i]).seq@
}

/// Only assigned sequence numbers have a status.
pub open spec fn statuses_bounded(st: Map<int, MsgStatus>, next: int) -> bool {
    forall|s: int| #[trigger] st.dom().contains(s) ==> s < next
}

/// A message recorded as queued really stands in the queue.
pub open spec fn queued_are_in_queue(q: Seq<Envelope>, st: Map<int, MsgStatus>) -> bool {
    forall|s: int|
        #[trigger] st.dom().contains(s) && st[s] is Queued ==> seq_in_queue(q, s)
}

/// No message has been discarded.
pub open spec fn no_discards(st: Map<int, MsgStatus>) -> bool {
    forall|s: int| #[trigger] st.dom().contains(s) ==> !(st[s] is Discarded)
}

/// The parked tasks still waiting after the clock reaches `t`: those whose
/// deadline lies beyond it, in their original order.
pub open spec fn sleepers_kept(sl: Seq<SleepEntry>, t: u64) -> Seq<SleepEntry>
    decreases sl.len(),
{
    if sl.len() == 0 {
        Seq::empty()
    } else {
        let rest = sleepers_kept(sl.drop_last(), t);
        if sl.last().deadline > t {
            rest.push(sl.last())
        } else {
            rest
        }
    }
}

/// The indices whose wakers fire when the clock reaches `t`: the parked
/// tasks whose deadline has passed, in their original order.
pub open spec fn sleepers_fired(sl: Seq<SleepEntry>, t: u64) -> Seq<usize>
    decreases sl.len(),
{
    if sl.len() == 0 {
        Seq::empty()
    } else {
        let rest = sleepers_fired(sl.drop_last(), t);
        if sl.last().deadline <= t {
            rest.push(sl.last().idx)
        } else {
            rest
        }
    }
}

/// Fire the wakers of parked tasks whose deadline has passed: each one
/// enqueues its task's index, in park order, and re-schedules the driver;
/// the rest stay parked.
fn fire_due_sleepers(sleepers: &mut Vec<SleepEntry>, queue: &mut WakeQueue, woken: &mut bool, t: u64)
    ensures
        *old(woken) ==> *final(woken),
        final(sleepers)@ == sleepers_kept(old(sleepers)@, t),
        final(queue)@ == old(queue)@ + sleepers_fired(old(sleepers)@, t),
{
    let ghost sl0 = sleepers@;
    let ghost q0 = queue@;
    let ghost w0: bool = *woken;
    let mut kept: Vec<SleepEntry> = Vec::new();
    let mut k: usize = 0;
    while k < sleepers.len()
        invariant
            k <= sleepers@.len(),
            sleepers@ == sl0,
            kept@ == sleepers_kept(sl0.take(k as int), t),
            queue@ == q0 + sleepers_fired(sl0.take(k as int), t),
            w0 ==> *woken,
        decreases sleepers@.len() - k,
    {
        let e = sleepers[k];
        proof {
            assert(sl0.take(k + 1).drop_last() =~= sl0.take(k as int));
            assert(sl0.take(k + 1).last() == sl0[k as int]);
        }
        if e.deadline <= t {
            let w = crate::waker::ActorWaker::new(e.idx);
            w.wake(queue, woken);
        } else {
            kept.push(e);
        }
        k = k + 1;
    }
    proof {
        assert(sl0.take(sl0.len() as int) =~= sl0);
    }
    *sleepers = kept;
}

impl ActorSystem {
    /// The concurrent task cache's contents.
    pub open spec fn slab_map(self) -> Map<usize, u64> {
        self.cache_ref.entries()
    }

    /// Number of in-flight concurrent tasks.
    pub open spec fn concurrent_count(self) -> nat {
        self.slab_map().dom().len()
    }

    /// The exclusive slot holds a task whose handler has been invoked.
    pub open spec fn ex_started(self) -> bool {
        match self.cache_mut {
            Some(t) => t.started,
            None => false,
        }
    }

    /// Some handler task is resident in the driver.
    pub open spec fn have_cache(self) -> bool {
        self.concurrent_count() > 0 || self.cache_mut is Some
    }

    /// The dispatch-log entry at `d`.
    pub open spec fn dsrc(self, d: int) -> DispatchSrc {
        self.dispatch_log@[d]
    }

    /// A message with sequence number `s` is in the mailbox.
    pub open spec fn in_queue(self, s: int) -> bool {
        seq_in_queue(self.mailbox@, s)
    }

    /// Status recorded for sequence number `s`.
    pub open spec fn status_of(self, s: int) -> MsgStatus {
        self.msg_status@[s]
    }

    /// `s` has a recorded status.
    pub open spec fn tracks(self, s: int) -> bool {
        self.msg_status@.dom().contains(s)
    }

    /// Well-formedness of the task caches and the exclusion discipline.
    pub open spec fn wf_cache(self) -> bool {
        &&& self.cap >= 1
        &&& cache_ok(self.slab_map(), self.bodies@.len() as int)
        &&& self.metas@.len() == self.bodies@.len()
        &&& (self.phase is Starting ==> self.concurrent_count() == 0)
        &&& (self.ex_started() ==> self.concurrent_count() == 0)
    }

    /// Well-formedness of the mailbox, the ghost status map and the
    /// dispatch log.
    pub open spec fn wf_order(self) -> bool {
        &&& queue_ordered(self.mailbox@, self.next_seq@)
        &&& queue_statuses_queued(self.mailbox@, self.msg_status@)
        &&& log_ordered(self.dispatch_log@)
        &&& log_statuses_dispatched(self.dispatch_log@, self.msg_status@, self.next_seq@)
        &&& log_before_queue(self.mailbox@, self.dispatch_log@)
        &&& statuses_bounded(self.msg_status@, self.next_seq@)
        &&& queued_are_in_queue(self.mailbox@, self.msg_status@)
        &&& (!self.forced ==> no_discards(self.msg_status@))
        &&& ((self.phase is Stopping || self.phase is Stopped) ==> self.mailbox@.len() == 0
            && self.closed)
    }

    /// The system invariant: established by the constructor, preserved by
    /// every operation.
    pub open spec fn wf(self) -> bool {
        self.wf_cache() && self.wf_order()
    }

    /// Reply slots resolve at most once: a fulfilled or closed slot never
    /// changes again, and slots are never removed.
    pub open spec fn slots_monotone(pre: ActorSystem, post: ActorSystem) -> bool {
        &&& post.slots@.len() >= pre.slots@.len()
        &&& forall|i: int|
            0 <= i < pre.slots@.len() && !(#[trigger] pre.slots@[i] is Pending)
                ==> post.slots@[i] == pre.slots@[i]
    }

    /// Cancellation is permanent, and a terminated task never comes back.
    pub open spec fn cancels_monotone(pre: ActorSystem, post: ActorSystem) -> bool {
        &&& post.cancels@.len() >= pre.cancels@.len()
        &&& forall|i: int|
            0 <= i < pre.cancels@.len() ==> ((#[trigger] pre.cancels@[i]).cancelled
                ==> post.cancels@[i].cancelled) && (!pre.cancels@[i].live
                ==> !post.cancels@[i].live)
    }

    /// Recorded message statuses never go back: a dispatched message stays
    /// dispatched, a discarded one stays discarded.
    pub open spec fn status_monotone(pre: ActorSystem, post: ActorSystem) -> bool {
        forall|s: int|
            #[trigger] pre.tracks(s) ==> post.tracks(s) && (pre.status_of(s) is Dispatched
                ==> post.status_of(s) is Dispatched) && (pre.status_of(s) is Discarded
                ==> post.status_of(s) is Discarded)
    }

    /// A timer or stream dispatch whose cancellation cell was already
    /// cancelled in `pre` never happens after `pre`.
    pub open spec fn src_allowed(pre: ActorSystem, src: DispatchSrc) -> bool {
        match src {
            DispatchSrc::Mailbox { .. } => true,
            DispatchSrc::Timer { cell } => 0 <= cell < pre.cancels@.len()
                ==> !pre.cancels@[cell].cancelled,
            DispatchSrc::Stream { cell } => 0 <= cell < pre.cancels@.len()
                ==> !pre.cancels@[cell].cancelled,
        }
    }

    /// The dispatch log only grows, and no new dispatch comes from a source
    /// that was already cancelled.
    pub open spec fn dispatches_monotone(pre: ActorSystem, post: ActorSystem) -> bool {
        &&& pre.dispatch_log@.is_prefix_of(post.dispatch_log@)
        &&& forall|d: int|
            pre.dispatch_log@.len() <= d < post.dispatch_log@.len() ==> Self::src_allowed(
                pre,
                #[trigger] post.dispatch_log@[d],
            )
    }

    /// Everything an engine step may do to the observable history: the
    /// clock stands still, phases move forward, slots and cancellation
    /// cells resolve monotonically, history only grows, and once the driver
    /// is stopping nothing further is dispatched.
    pub open spec fn step_rel(pre: ActorSystem, post: ActorSystem) -> bool {
        &&& Self::slots_monotone(pre, post)
        &&& Self::cancels_monotone(pre, post)
        &&& Self::status_monotone(pre, post)
        &&& Self::dispatches_monotone(pre, post)
        &&& phase_le(pre.phase, post.phase)
        &&& ((pre.phase is Stopping || pre.phase is Stopped) ==> post.dispatch_log@
            == pre.dispatch_log@)
        &&& post.now == pre.now
        &&& post.cap == pre.cap
    }

    /// The state of slot `i`; an out-of-range slot reads as closed.
    pub open spec fn slot_spec(self, i: int) -> SlotState {
        if 0 <= i < self.slots@.len() {
            self.slots@[i]
        } else {
            SlotState::Closed
        }
    }

    /// The cancellation cell at `i` is still attached to live work.
    pub open spec fn cell_live(self, i: int) -> bool {
        0 <= i < self.cancels@.len() && self.cancels@[i].live
    }

    /// The cancellation cell at `i` has been cancelled.
    pub open spec fn cell_cancelled_spec(self, i: int) -> bool {
        0 <= i < self.cancels@.len() && self.cancels@[i].cancelled
    }

    /// Allocate a fresh, pending reply slot.
    pub(crate) fn alloc_slot(&mut self) -> (i: usize)
        ensures
            i == old(self).slots@.len(),
            final(self).slots@ == old(self).slots@.push(SlotState::Pending),
            *final(self) == (ActorSystem { slots: final(self).slots, ..*old(self) }),
            Self::step_rel(*old(self), *final(self)),
            old(self).wf() ==> final(self).wf(),
    {
        let i = self.slots.len();
        self.slots.push(SlotState::Pending);
        i
    }

    /// Fulfil slot `i` with `v`, if it is still pending; a slot resolves at
    /// most once, so a resolved slot is left alone.
    pub(crate) fn fill_slot(&mut self, i: usize, v: u64)
        ensures
            final(self).slots@.len() == old(self).slots@.len(),
            old(self).slot_spec(i as int) is Pending ==> final(self).slots@ == old(
                self,
            ).slots@.update(i as int, SlotState::Filled(v)),
            !(old(self).slot_spec(i as int) is Pending) ==> final(self).slots@ == old(self).slots@,
            *final(self) == (ActorSystem { slots: final(self).slots, ..*old(self) }),
            Self::step_rel(*old(self), *final(self)),
            old(self).wf() ==> final(self).wf(),
    {
        if i < self.slots.len() {
            if matches!(self.slots[i], SlotState::Pending) {
                self.slots.set(i, SlotState::Filled(v));
            }
        }
    }

    /// Close slot `i`, if it is still pending: its sending half went away.
    pub(crate) fn close_slot(&mut self, i: usize)
        ensures
            final(self).slots@.len() == old(self).slots@.len(),
            old(self).slot_spec(i as int) is Pending ==> final(self).slots@ == old(
                self,
            ).slots@.update(i as int, SlotState::Closed),
            !(old(self).slot_spec(i as int) is Pending) ==> final(self).slots@ == old(self).slots@,
            *final(self) == (ActorSystem { slots: final(self).slots, ..*old(self) }),
            Self::step_rel(*old(self), *final(self)),
            old(self).wf() ==> final(self).wf(),
    {
        if i < self.slots.len() {
            if matches!(self.slots[i], SlotState::Pending) {
                self.slots.set(i, SlotState::Closed);
            }
        }
    }

    /// Read slot `i`.
    pub fn slot_state(&self, i: usize) -> (r: SlotState)
        ensures
            r == self.slot_spec(i as int),
    {
        if i < self.slots.len() {
            self.slots[i]
        } else {
            SlotState::Closed
        }
    }

    /// Allocate a fresh cancellation cell, uncancelled and live.
    pub(crate) fn new_cancel(&mut self) -> (i: usize)
        ensures
            i == old(self).cancels@.len(),
            final(self).cancels@ == old(self).cancels@.push(
                CancelCell { cancelled: false, live: true },
            ),
            *final(self) == (ActorSystem { cancels: final(self).cancels, ..*old(self) }),
            Self::step_rel(*old(self), *final(self)),
            old(self).wf() ==> final(self).wf(),
    {
        let i = self.cancels.len();
        self.cancels.push(CancelCell { cancelled: false, live: true });
        i
    }

    /// Mark cell `i` cancelled.
    pub(crate) fn cancel_cell(&mut self, i: usize)
        ensures
            final(self).cancels@.len() == old(self).cancels@.len(),
            i < old(self).cancels@.len() ==> final(self).cancels@ == old(self).cancels@.update(
                i as int,
                CancelCell { cancelled: true, ..old(self).cancels@[i as int] },
            ),
            i >= old(self).cancels@.len() ==> final(self).cancels@ == old(self).cancels@,
            *final(self) == (ActorSystem { cancels: final(self).cancels, ..*old(self) }),
            Self::step_rel(*old(self), *final(self)),
            old(self).wf() ==> final(self).wf(),
    {
        if i < self.cancels.len() {
            let live = self.cancels[i].live;
            self.cancels.set(i, CancelCell { cancelled: true, live });
        }
    }

    /// Mark cell `i` dead: its task completed or was dropped.
    pub(crate) fn kill_cell(&mut self, i: usize)
        ensures
            final(self).cancels@.len() == old(self).cancels@.len(),
            i < old(self).cancels@.len() ==> final(self).cancels@ == old(self).cancels@.update(
                i as int,
                CancelCell { live: false, ..old(self).cancels@[i as int] },
            ),
            i >= old(self).cancels@.len() ==> final(self).cancels@ == old(self).cancels@,
            *final(self) == (ActorSystem { cancels: final(self).cancels, ..*old(self) }),
            Self::step_rel(*old(self), *final(self)),
            old(self).wf() ==> final(self).wf(),
    {
        if i < self.cancels.len() {
            let cancelled = self.cancels[i].cancelled;
            self.cancels.set(i, CancelCell { cancelled, live: false });
        }
    }

    /// Whether cell `i` is still attached to live work.
    pub(crate) fn cell_is_live(&self, i: usize) -> (r: bool)
        ensures
            r == self.cell_live(i as int),
    {
        if i < self.cancels.len() {
            self.cancels[i].live
        } else {
            false
        }
    }

    /// Whether cell `i` has been cancelled.
    pub(crate) fn cell_is_cancelled(&self, i: usize) -> (r: bool)
        ensures
            r == self.cell_cancelled_spec(i as int),
    {
        if i < self.cancels.len() {
            self.cancels[i].cancelled
        } else {
            false
        }
    }

    /// Advance the virtual clock to `t` and wake the driver; the waker of
    /// every parked task whose deadline has passed fires, queuing its
    /// index, in park order, for the next sweep. The clock never runs
    /// backwards.
    pub fn advance_to(&mut self, t: u64)
        requires
            old(self).now <= t,
        ensures
            final(self).now == t,
            final(self).woken,
            final(self).sleepers@ == sleepers_kept(old(self).sleepers@, t),
            final(self).queue@ == old(self).queue@ + sleepers_fired(old(self).sleepers@, t),
            *final(self) == (ActorSystem {
                now: t,
                woken: true,
                queue: final(self).queue,
                sleepers: final(self).sleepers,
                ..*old(self)
            }),
            old(self).wf() ==> final(self).wf(),
    {
        self.now = t;
        self.woken = true;
        fire_due_sleepers(&mut self.sleepers, &mut self.queue, &mut self.woken, t);
    }

    /// Whether the mailbox has been closed to new sends.
    pub fn is_closed(&self) -> (r: bool)
        ensures
            r == self.closed,
    {
        self.closed
    }

    /// Take the join handle produced by the most recent handler-scheduled
    /// task, if one has not been taken yet.
    pub fn take_last_handle(&mut self) -> (h: Option<ContextJoinHandle>)
        ensures
            h == old(self).last_handle,
            *final(self) == (ActorSystem { last_handle: None, ..*old(self) }),
            old(self).wf() ==> final(self).wf(),
            Self::step_rel(*old(self), *final(self)),
    {
        self.last_handle.take()
    }

    /// `t` is a virtual instant at which the system has work to do: a
    /// parked handler task's wake-up, the started exclusive task's work
    /// deadline, a delayed one-shot's deadline, or a stream's next item.
    pub open spec fn wait_instant(self, t: u64) -> bool {
        ||| exists|j: int|
            0 <= j < self.sleepers@.len() && (#[trigger] self.sleepers@[j]).deadline == t
        ||| (match self.cache_mut {
            Some(tk) => tk.started && tk.deadline == t,
            None => false,
        })
        ||| exists|j: int|
            0 <= j < self.future_cache@.len() && (#[trigger] self.future_cache@[j]).deadline == t
        ||| exists|j: int|
            0 <= j < self.stream_cache@.len() && (#[trigger] self.stream_cache@[j]).next_due == t
    }

    /// The earliest virtual instant at which the system has work to do,
    /// or nothing if no work is scheduled. The embedding sleeps until this
    /// instant and then advances the clock to it.
    pub fn next_deadline(&self) -> (r: Option<u64>)
        ensures
            match r {
                Some(t) => self.wait_instant(t) && (forall|t2: u64|
                    #[trigger] self.wait_instant(t2) ==> t <= t2),
                None => forall|t2: u64| !(#[trigger] self.wait_instant(t2)),
            },
    {
        let mut best: Option<u64> = None;
        let mut i: usize = 0;
        while i < self.sleepers.len()
            invariant
                i <= self.sleepers@.len(),
                match best {
                    Some(t) => self.wait_instant(t) && (forall|j: int|
                        0 <= j < i ==> t <= (#[trigger] self.sleepers@[j]).deadline),
                    None => i == 0,
                },
            decreases self.sleepers@.len() - i,
        {
            let d = self.sleepers[i].deadline;
            best = match best {
                Some(t) => if d < t {
                    Some(d)
                } else {
                    Some(t)
                },
                None => Some(d),
            };
            i = i + 1;
        }
        match &self.cache_mut {
            Some(tk) => {
                if tk.started {
                    let d = tk.deadline;
                    best = match best {
                        Some(t) => if d < t {
                            Some(d)
                        } else {
                            Some(t)
                        },
                        None => Some(d),
                    };
                }
            },
            None => {},
        }
        proof {
            assert(match best {
                Some(t) => self.wait_instant(t) && (forall|j: int|
                    0 <= j < self.sleepers@.len() ==> t <= (#[trigger] self.sleepers@[j]).deadline)
                    && (match self.cache_mut {
                    Some(tk) => tk.started ==> t <= tk.deadline,
                    None => true,
                }),
                None => self.sleepers@.len() == 0 && !self.ex_started(),
            });
        }
        let ghost ex_done = best;
        let mut i2: usize = 0;
        while i2 < self.future_cache.len()
            invariant
                i2 <= self.future_cache@.len(),
                match best {
                    Some(t) => self.wait_instant(t) && (forall|j: int|
                        0 <= j < i2 ==> t <= (#[trigger] self.future_cache@[j]).deadline) && (
                    match ex_done {
                        Some(t0) => t <= t0,
                        None => true,
                    }),
                    None => ex_done is None && i2 == 0,
                },
                ex_done is None ==> self.sleepers@.len() == 0 && !self.ex_started(),
                (match ex_done {
                    Some(t0) => (forall|j: int|
                        0 <= j < self.sleepers@.len() ==> t0 <= (
                        #[trigger] self.sleepers@[j]).deadline) && (match self.cache_mut {
                        Some(tk) => tk.started ==> t0 <= tk.deadline,
                        None => true,
                    }),
                    None => true,
                }),
            decreases self.future_cache@.len() - i2,
        {
            let d = self.future_cache[i2].deadline;
            best = match best {
                Some(t) => if d < t {
                    Some(d)
                } else {
                    Some(t)
                },
                None => Some(d),
            };
            i2 = i2 + 1;
        }
        proof {
            assert(match best {
                Some(t) => self.wait_instant(t) && (forall|j: int|
                    0 <= j < self.sleepers@.len() ==> t <= (#[trigger] self.sleepers@[j]).deadline)
                    && (match self.cache_mut {
                    Some(tk) => tk.started ==> t <= tk.deadline,
                    None => true,
                }) && (forall|j: int|
                    0 <= j < self.future_cache@.len() ==> t <= (
                    #[trigger] self.future_cache@[j]).deadline),
                None => self.sleepers@.len() == 0 && !self.ex_started()
                    && self.future_cache@.len() == 0,
            });
        }
        let ghost fut_done = best;
        let mut i3: usize = 0;
        while i3 < self.stream_cache.len()
            invariant
                i3 <= self.stream_cache@.len(),
                match best {
                    Some(t) => self.wait_instant(t) && (forall|j: int|
                        0 <= j < i3 ==> t <= (#[trigger] self.stream_cache@[j]).next_due) && (
                    match fut_done {
                        Some(t0) => t <= t0,
                        None => true,
                    }),
                    None => fut_done is None && i3 == 0,
                },
                fut_done is None ==> self.sleepers@.len() == 0 && !self.ex_started()
                    && self.future_cache@.len() == 0,
                (match fut_done {
                    Some(t0) => (forall|j: int|
                        0 <= j < self.sleepers@.len() ==> t0 <= (
                        #[trigger] self.sleepers@[j]).deadline) && (match self.cache_mut {
                        Some(tk) => tk.started ==> t0 <= tk.deadline,
                        None => true,
                    }) && (forall|j: int|
                        0 <= j < self.future_cache@.len() ==> t0 <= (
                        #[trigger] self.future_cache@[j]).deadline),
                    None => true,
                }),
            decreases self.stream_cache@.len() - i3,
        {
            let d = self.stream_cache[i3].next_due;
            best = match best {
                Some(t) => if d < t {
                    Some(d)
                } else {
                    Some(t)
                },
                None => Some(d),
            };
            i3 = i3 + 1;
        }
        best
    }

    /// The driver asked to be polled again since the last tick.
    pub fn is_woken(&self) -> (r: bool)
        ensures
            r == self.woken,
    {
        self.woken
    }

    /// Build a fresh system for one actor: its state cell, the mailbox
    /// capacity, the capacity hint for the concurrent task cache, and the
    /// two lifecycle scripts. The driver starts in the `Starting` phase
    /// with one strong address outstanding.
    pub fn new(
        data: u64,
        cap: usize,
        size_hint: usize,
        on_start: MessageBody,
        on_stop: MessageBody,
    ) -> (s: ActorSystem)
        requires
            cap >= 1,
        ensures
            s.wf(),
            s.data == data,
            s.cap == cap,
            s.on_start_body == on_start,
            s.on_stop_body == on_stop,
            s.phase is Starting,
            s.act_state is Running,
            s.addr_count == 1,
            s.now == 0,
            !s.closed,
            !s.forced,
            !s.woken,
            s.mailbox@.len() == 0,
            s.bg_queue@.len() == 0,
            s.slots@.len() == 0,
            s.cancels@.len() == 0,
            s.future_cache@.len() == 0,
            s.stream_cache@.len() == 0,
            s.cache_mut is None,
            s.drop_notify is None,
            s.concurrent_count() == 0,
            !s.extra_poll,
            s.queue@.len() == 0,
            s.sleepers@.len() == 0,
            s.bodies@.len() == 0,
            s.metas@.len() == 0,
            s.last_handle is None,
            s.dispatch_log@.len() == 0,
            s.msg_status@.dom() =~= Set::<int>::empty(),
            s.next_seq@ == 0,
            s.next_sender@ == 1,
    {
        ActorSystem {
            data,
            on_start_body: on_start,
            on_stop_body: on_stop,
            mailbox: Vec::new(),
            cap,
            closed: false,
            addr_count: 1,
            bg_queue: Vec::new(),
            act_state: ActorState::Running,
            phase: Phase::Starting,
            cache_mut: None,
            cache_ref: TaskRef::new(size_hint),
            bodies: Vec::new(),
            metas: Vec::new(),
            queue: WakeQueue::new(),
            sleepers: Vec::new(),
            future_cache: Vec::new(),
            stream_cache: Vec::new(),
            drop_notify: None,
            extra_poll: false,
            woken: false,
            forced: false,
            now: 0,
            slots: Vec::new(),
            cancels: Vec::new(),
            last_handle: None,
            next_seq: Ghost(0),
            next_sender: Ghost(1),
            msg_status: Ghost(Map::empty()),
            dispatch_log: Ghost(Seq::empty()),
        }
    }

    /// Append `env` to the mailbox, assigning it the next sequence number
    /// and recording a message as queued. The driver is woken.
    pub(crate) fn enqueue_envelope(&mut self, env: Envelope)
        requires
            old(self).wf(),
            old(self).mailbox@.len() < old(self).cap,
            !old(self).closed,
        ensures
            final(self).wf(),
            Self::step_rel(*old(self), *final(self)),
            final(self).mailbox@ == old(self).mailbox@.push(
                (Envelope { kind: env.kind, sender: env.sender, seq: Ghost(old(self).next_seq@) }),
            ),
            final(self).next_seq@ == old(self).next_seq@ + 1,
            env.is_msg() ==> final(self).msg_status@ == old(self).msg_status@.insert(
                old(self).next_seq@,
                MsgStatus::Queued,
            ),
            !env.is_msg() ==> final(self).msg_status@ == old(self).msg_status@,
            final(self).woken,
            final(self).slots@ == old(self).slots@,
            final(self).cancels@ == old(self).cancels@,
            final(self).dispatch_log@ == old(self).dispatch_log@,
            *final(self) == (ActorSystem {
                mailbox: final(self).mailbox,
                msg_status: final(self).msg_status,
                next_seq: final(self).next_seq,
                woken: true,
                ..*old(self)
            }),
    {
        let ghost pre = *old(self);
        let ghost s = pre.next_seq@;
        let is_msg_exec = matches!(env.kind, EnvKind::Msg { .. });
        let env2 = Envelope { kind: env.kind, sender: env.sender, seq: Ghost(s) };
        let ghost env2s = env2;
        let ghost is_msg = env2.is_msg();
        proof {
            // the new sequence number is fresh
            assert(!pre.msg_status@.dom().contains(s));
        }
        self.mailbox.push(env2);
        self.next_seq = Ghost(s + 1);
        if is_msg_exec {
            proof {
                self.msg_status@ = self.msg_status@.insert(s, MsgStatus::Queued);
            }
        }
        self.woken = true;
        proof {
            let q0 = pre.mailbox@;
            let q1 = self.mailbox@;
            assert(q1 == q0.push(env2));
            assert forall|i: int, j: int| 0 <= i < j < q1.len() implies (#[trigger] q1[i]).seq@ < (
            #[trigger] q1[j]).seq@ by {
                if j < q0.len() {
                    assert(queue_ordered(q0, s));
                } else {
                    assert(q1[j] == env2);
                    assert(queue_ordered(q0, s));
                }
            }
            assert forall|i: int| 0 <= i < q1.len() implies (#[trigger] q1[i]).seq@
                < self.next_seq@ by {
                if i < q0.len() {
                    assert(queue_ordered(q0, s));
                }
            }
            assert(queue_ordered(q1, self.next_seq@));
            assert forall|i: int|
                0 <= i < q1.len() && (#[trigger] q1[i]).is_msg() implies self.msg_status@.dom().contains(
                q1[i].seq@,
            ) && self.msg_status@[q1[i].seq@] is Queued by {
                if i < q0.len() {
                    assert(queue_statuses_queued(q0, pre.msg_status@));
                    assert(q1[i] == q0[i]);
                    assert(q0[i].seq@ < s);
                }
            }
            assert forall|s2: int|
                #[trigger] self.msg_status@.dom().contains(s2) && self.msg_status@[s2] is Queued implies seq_in_queue(
                q1,
                s2,
            ) by {
                if s2 == s && is_msg {
                    assert(q1[q0.len() as int] == env2s);
                } else {
                    assert(pre.msg_status@.dom().contains(s2));
                    assert(queued_are_in_queue(q0, pre.msg_status@));
                    let i = choose|i: int|
                        0 <= i < q0.len() && (#[trigger] q0[i]).seq@ == s2 && q0[i].is_msg();
                    assert(q1[i] == q0[i]);
                }
            }
            assert forall|i: int, d: int|
                0 <= i < q1.len() && 0 <= d < self.dispatch_log@.len() && src_is_mailbox(
                    #[trigger] self.dispatch_log@[d],
                ) implies src_seq(self.dispatch_log@[d]) < (#[trigger] q1[i]).seq@ by {
                assert(log_statuses_dispatched(self.dispatch_log@, pre.msg_status@, s));
                if i < q0.len() {
                    assert(log_before_queue(q0, pre.dispatch_log@));
                }
            }
            assert(self.wf());
        }
    }

    /// How many waiting fire-and-forget sends a flush moves: all of them,
    /// capped by the room left in the mailbox.
    pub open spec fn bg_moved(self) -> int {
        let room = self.cap - self.mailbox@.len();
        if room < 0 {
            0
        } else if self.bg_queue@.len() <= room {
            self.bg_queue@.len() as int
        } else {
            room
        }
    }

    /// Move waiting fire-and-forget sends into the mailbox, in send order,
    /// while there is room; if the channel has closed they are dropped.
    pub(crate) fn flush_bg(&mut self)
        requires
            old(self).wf(),
        ensures
            final(self).wf(),
            Self::step_rel(*old(self), *final(self)),
            final(self).slots@ == old(self).slots@,
            final(self).cancels@ == old(self).cancels@,
            final(self).dispatch_log@ == old(self).dispatch_log@,
            final(self).data == old(self).data,
            final(self).phase == old(self).phase,
            final(self).act_state == old(self).act_state,
            final(self).cache_mut == old(self).cache_mut,
            final(self).cache_ref == old(self).cache_ref,
            final(self).bodies == old(self).bodies,
            final(self).metas == old(self).metas,
            final(self).queue == old(self).queue,
            final(self).sleepers == old(self).sleepers,
            final(self).future_cache == old(self).future_cache,
            final(self).stream_cache == old(self).stream_cache,
            final(self).drop_notify == old(self).drop_notify,
            final(self).forced == old(self).forced,
            final(self).closed == old(self).closed,
            final(self).addr_count == old(self).addr_count,
            final(self).extra_poll == old(self).extra_poll,
            final(self).last_handle == old(self).last_handle,
            final(self).on_start_body == old(self).on_start_body,
            final(self).on_stop_body == old(self).on_stop_body,
            old(self).closed ==> final(self).bg_queue@.len() == 0 && final(self).mailbox == old(
                self,
            ).mailbox && final(self).next_seq == old(self).next_seq && final(self).msg_status
                == old(self).msg_status,
            !old(self).closed ==> ({
                let moved = old(self).bg_moved();
                &&& final(self).bg_queue@ == old(self).bg_queue@.skip(moved)
                &&& final(self).mailbox@.len() == old(self).mailbox@.len() + moved
                &&& (forall|k: int|
                    0 <= k < old(self).mailbox@.len() ==> final(self).mailbox@[k] == old(
                        self,
                    ).mailbox@[k])
                &&& (forall|k: int|
                    0 <= k < moved ==> final(self).mailbox@[old(self).mailbox@.len() + k] == (
                    Envelope {
                        kind: old(self).bg_queue@[k].kind,
                        sender: old(self).bg_queue@[k].sender,
                        seq: Ghost(old(self).next_seq@ + k),
                    }))
                &&& final(self).next_seq@ == old(self).next_seq@ + moved
            }),
    {
        let ghost s0 = *self;
        if self.closed {
            // the channel is gone: these sends fail silently
            self.bg_queue = Vec::new();
            return ;
        }
        let ghost moved = s0.bg_moved();
        let mut k: usize = 0;
        while self.bg_queue.len() > 0 && self.mailbox.len() < self.cap
            invariant
                s0 == *old(self),
                self.wf(),
                Self::step_rel(s0, *self),
                self.slots@ == s0.slots@,
                self.cancels@ == s0.cancels@,
                self.dispatch_log@ == s0.dispatch_log@,
                self.data == s0.data,
                self.phase == s0.phase,
                self.act_state == s0.act_state,
                self.cache_mut == s0.cache_mut,
                self.cache_ref == s0.cache_ref,
                self.bodies == s0.bodies,
                self.metas == s0.metas,
                self.queue == s0.queue,
                self.sleepers == s0.sleepers,
                self.future_cache == s0.future_cache,
                self.stream_cache == s0.stream_cache,
                self.drop_notify == s0.drop_notify,
                self.forced == s0.forced,
                self.closed == s0.closed,
                !self.closed,
                self.addr_count == s0.addr_count,
                self.extra_poll == s0.extra_poll,
                self.last_handle == s0.last_handle,
                self.on_start_body == s0.on_start_body,
                self.on_stop_body == s0.on_stop_body,
                self.bg_queue@ == s0.bg_queue@.skip(k as int),
                k <= s0.bg_queue@.len(),
                self.mailbox@.len() == s0.mailbox@.len() + k,
                k > 0 ==> s0.mailbox@.len() + k <= s0.cap,
                forall|j: int|
                    0 <= j < s0.mailbox@.len() ==> self.mailbox@[j] == s0.mailbox@[j],
                forall|j: int|
                    0 <= j < k ==> self.mailbox@[s0.mailbox@.len() + j] == (Envelope {
                        kind: s0.bg_queue@[j].kind,
                        sender: s0.bg_queue@[j].sender,
                        seq: Ghost(s0.next_seq@ + j),
                    }),
                self.next_seq@ == s0.next_seq@ + k,
            decreases self.bg_queue@.len(),
        {
            let ghost pre_bg = self.bg_queue@;
            let env = self.bg_queue.remove(0);
            proof {
                assert(pre_bg == s0.bg_queue@.skip(k as int));
                assert(env == s0.bg_queue@[k as int]);
                assert forall|j: int|
                    0 <= j < self.bg_queue@.len() implies #[trigger] self.bg_queue@[j]
                    == s0.bg_queue@.skip(k + 1)[j] by {
                    assert(self.bg_queue@[j] == pre_bg[j + 1]);
                }
                assert(self.bg_queue@ =~= s0.bg_queue@.skip(k + 1));
            }
            let ghost mid = *self;
            self.enqueue_envelope(env);
            proof {
                Self::lemma_step_trans(s0, mid, *self);
            }
            k = k + 1;
        }
        proof {
            // at either exit the number moved is exactly the cap-bounded
            // count
            if self.bg_queue@.len() == 0 {
                assert(k == s0.bg_queue@.len());
            } else {
                assert(s0.mailbox@.len() + k >= s0.cap);
            }
            assert(k == moved);
        }
    }

    /// Fields a context scheduling call leaves untouched: everything but
    /// the cancellation cells, the two scheduling caches and the last
    /// handle.
    pub open spec fn sched_frame(pre: ActorSystem, post: ActorSystem) -> bool {
        post == (ActorSystem {
            cancels: post.cancels,
            future_cache: post.future_cache,
            stream_cache: post.stream_cache,
            last_handle: post.last_handle,
            ..pre
        })
    }

    /// Schedule a one-shot message after `delay`; returns the handle that
    /// cancels it.
    pub(crate) fn sched_later(&mut self, delay: u64, exclusive: bool, item: MessageBody) -> (h:
        ContextJoinHandle)
        ensures
            h.cell == old(self).cancels@.len(),
            final(self).cancels@ == old(self).cancels@.push(
                (CancelCell { cancelled: false, live: true }),
            ),
            final(self).future_cache@ == old(self).future_cache@.push(
                (FutureMessage {
                    deadline: sat_add(old(self).now, delay),
                    cancel: old(self).cancels@.len() as usize,
                    exclusive,
                    body: item,
                }),
            ),
            final(self).stream_cache == old(self).stream_cache,
            final(self).last_handle == old(self).last_handle,
            Self::sched_frame(*old(self), *final(self)),
            Self::step_rel(*old(self), *final(self)),
            old(self).wf() ==> final(self).wf(),
    {
        let c = self.new_cancel();
        let deadline = crate::message::exec_sat_add(self.now, delay);
        self.future_cache.push(FutureMessage { deadline, cancel: c, exclusive, body: item });
        ContextJoinHandle { cell: c }
    }

    /// Schedule a repeating message every `period`; the first dispatch is
    /// one period from now.
    pub(crate) fn sched_interval(&mut self, period: u64, exclusive: bool, item: MessageBody) -> (h:
        ContextJoinHandle)
        ensures
            h.cell == old(self).cancels@.len(),
            final(self).cancels@ == old(self).cancels@.push(
                (CancelCell { cancelled: false, live: true }),
            ),
            final(self).stream_cache@ == old(self).stream_cache@.push(
                (StreamMessage {
                    next_due: sat_add(old(self).now, period),
                    period,
                    remaining: None,
                    cancel: old(self).cancels@.len() as usize,
                    exclusive,
                    body: item,
                }),
            ),
            final(self).future_cache == old(self).future_cache,
            final(self).last_handle == old(self).last_handle,
            Self::sched_frame(*old(self), *final(self)),
            Self::step_rel(*old(self), *final(self)),
            old(self).wf() ==> final(self).wf(),
    {
        let c = self.new_cancel();
        let next_due = crate::message::exec_sat_add(self.now, period);
        self.stream_cache.push(
            StreamMessage { next_due, period, remaining: None, cancel: c, exclusive, body: item },
        );
        ContextJoinHandle { cell: c }
    }

    /// Attach a stream: its first item is due after `first_delay`, further
    /// items every `period`, and `count` bounds how many it yields in all.
    pub(crate) fn sched_stream(
        &mut self,
        first_delay: u64,
        period: u64,
        count: Option<u64>,
        exclusive: bool,
        item: MessageBody,
    ) -> (h: ContextJoinHandle)
        ensures
            h.cell == old(self).cancels@.len(),
            final(self).cancels@ == old(self).cancels@.push(
                (CancelCell { cancelled: false, live: true }),
            ),
            final(self).stream_cache@ == old(self).stream_cache@.push(
                (StreamMessage {
                    next_due: sat_add(old(self).now, first_delay),
                    period,
                    remaining: count,
                    cancel: old(self).cancels@.len() as usize,
                    exclusive,
                    body: item,
                }),
            ),
            final(self).future_cache == old(self).future_cache,
            final(self).last_handle == old(self).last_handle,
            Self::sched_frame(*old(self), *final(self)),
            Self::step_rel(*old(self), *final(self)),
            old(self).wf() ==> final(self).wf(),
    {
        let c = self.new_cancel();
        let next_due = crate::message::exec_sat_add(self.now, first_delay);
        self.stream_cache.push(
            StreamMessage { next_due, period, remaining: count, cancel: c, exclusive, body: item },
        );
        ContextJoinHandle { cell: c }
    }

    /// Run a handler script on the actor: apply its effect on the state
    /// cell, perform its context requests (scheduling, graceful stop), and
    /// return the reply it produces, if any.
    pub(crate) fn apply_op(&mut self, op: &HandlerOp) -> (r: Option<u64>)
        requires
            old(self).wf(),
        ensures
            final(self).wf(),
            Self::step_rel(*old(self), *final(self)),
            final(self).data == op_data(*op, old(self).data),
            r == op_reply(*op, old(self).data),
            final(self).mailbox == old(self).mailbox,
            final(self).msg_status == old(self).msg_status,
            final(self).dispatch_log == old(self).dispatch_log,
            final(self).next_seq == old(self).next_seq,
            final(self).slots == old(self).slots,
            final(self).cancels@.len() == old(self).cancels@.len() + op_sched_count(*op),
            final(self).future_cache@.len() + final(self).stream_cache@.len() == old(
                self,
            ).future_cache@.len() + old(self).stream_cache@.len() + op_sched_count(*op),
            forall|i: int|
                0 <= i < old(self).cancels@.len() ==> final(self).cancels@[i] == old(
                    self,
                ).cancels@[i],
            final(self).phase == old(self).phase,
            final(self).cache_mut == old(self).cache_mut,
            final(self).cache_ref == old(self).cache_ref,
            final(self).bodies == old(self).bodies,
            final(self).metas == old(self).metas,
            final(self).queue == old(self).queue,
            final(self).addr_count == old(self).addr_count,
            final(self).forced == old(self).forced,
            final(self).extra_poll == old(self).extra_poll,
            final(self).woken == old(self).woken,
            final(self).now == old(self).now,
            final(self).bg_queue == old(self).bg_queue,
            final(self).drop_notify == old(self).drop_notify,
            final(self).on_start_body == old(self).on_start_body,
            final(self).on_stop_body == old(self).on_stop_body,
            old(self).closed ==> final(self).closed,
            (final(self).act_state == old(self).act_state || final(self).act_state
                == ActorState::StopGraceful),
        decreases *op,
    {
        match op {
            HandlerOp::Nop => None,
            HandlerOp::Add(v) => {
                self.data = crate::message::exec_sat_add(self.data, *v);
                None
            },
            HandlerOp::Sub(v) => {
                self.data = crate::message::exec_sat_sub(self.data, *v);
                None
            },
            HandlerOp::ReplyData => Some(self.data),
            HandlerOp::ReplyConst(v) => Some(*v),
            HandlerOp::FetchInc => {
                let r = self.data;
                self.data = crate::message::exec_sat_add(self.data, 1);
                Some(r)
            },
            HandlerOp::ContextStop => {
                let c = crate::context::Context::new();
                c.stop(self);
                None
            },
            HandlerOp::Later { delay, exclusive, item } => {
                let c = crate::context::Context::new();
                let h = if *exclusive {
                    c.run_wait_later(self, *delay, item.duplicate())
                } else {
                    c.run_later(self, *delay, item.duplicate())
                };
                self.last_handle = Some(h);
                None
            },
            HandlerOp::Interval { period, exclusive, item } => {
                let c = crate::context::Context::new();
                let h = if *exclusive {
                    c.run_wait_interval(self, *period, item.duplicate())
                } else {
                    c.run_interval(self, *period, item.duplicate())
                };
                self.last_handle = Some(h);
                None
            },
            HandlerOp::Attach { exclusive, first_delay, period, count, item } => {
                let c = crate::context::Context::new();
                let to_attach = crate::context::StreamSpec {
                    first_delay: *first_delay,
                    period: *period,
                    count: *count,
                    item: item.duplicate(),
                };
                let h = if *exclusive {
                    c.add_wait_stream(self, to_attach)
                } else {
                    c.add_stream(self, to_attach)
                };
                self.last_handle = Some(h);
                None
            },
            HandlerOp::Chain(a, b) => {
                let ghost m0 = *self;
                let ra = self.apply_op(a);
                let ghost m1 = *self;
                let rb = self.apply_op(b);
                proof {
                    Self::lemma_step_trans(m0, m1, *self);
                }
                match rb {
                    Some(v) => Some(v),
                    None => ra,
                }
            },
        }
    }

    /// Popping the front envelope keeps the queue-side invariants, provided
    /// the popped message's status is no longer recorded as queued and no
    /// other status changed.
    pub proof fn lemma_pop_front(
        q: Seq<Envelope>,
        next: int,
        st0: Map<int, MsgStatus>,
        st1: Map<int, MsgStatus>,
    )
        requires
            q.len() > 0,
            queue_ordered(q, next),
            queue_statuses_queued(q, st0),
            queued_are_in_queue(q, st0),
            forall|s: int|
                #[trigger] st1.dom().contains(s) && s != q[0].seq@ ==> st0.dom().contains(s)
                    && st1[s] == st0[s],
            forall|s: int|
                #[trigger] st0.dom().contains(s) && s != q[0].seq@ ==> st1.dom().contains(s),
            (st1.dom().contains(q[0].seq@) ==> !(st1[q[0].seq@] is Queued)),
        ensures
            queue_ordered(q.skip(1), next),
            queue_statuses_queued(q.skip(1), st1),
            queued_are_in_queue(q.skip(1), st1),
    {
        let q1 = q.skip(1);
        assert forall|i: int, j: int| 0 <= i < j < q1.len() implies (#[trigger] q1[i]).seq@ < (
        #[trigger] q1[j]).seq@ by {
            assert(q1[i] == q[i + 1]);
            assert(q1[j] == q[j + 1]);
        }
        assert forall|i: int| 0 <= i < q1.len() implies (#[trigger] q1[i]).seq@ < next by {
            assert(q1[i] == q[i + 1]);
        }
        assert forall|i: int|
            0 <= i < q1.len() && (#[trigger] q1[i]).is_msg() implies st1.dom().contains(q1[i].seq@)
            && st1[q1[i].seq@] is Queued by {
            assert(q1[i] == q[i + 1]);
            assert(q[0].seq@ < q[i + 1].seq@);
        }
        assert forall|s: int|
            #[trigger] st1.dom().contains(s) && st1[s] is Queued implies seq_in_queue(q1, s) by {
            assert(s != q[0].seq@);
            assert(st0.dom().contains(s) && st0[s] is Queued);
            let i = choose|i: int| 0 <= i < q.len() && (#[trigger] q[i]).seq@ == s && q[i].is_msg();
            if i == 0 {
                assert(false);
            } else {
                assert(q1[i - 1] == q[i]);
            }
        }
    }

    /// `step_rel` composes: two engine steps are one.
    pub proof fn lemma_step_trans(a: ActorSystem, b: ActorSystem, c: ActorSystem)
        requires
            Self::step_rel(a, b),
            Self::step_rel(b, c),
        ensures
            Self::step_rel(a, c),
    {
        assert forall|d: int|
            a.dispatch_log@.len() <= d < c.dispatch_log@.len() implies Self::src_allowed(
            a,
            #[trigger] c.dispatch_log@[d],
        ) by {
            if d < b.dispatch_log@.len() {
                assert(c.dispatch_log@[d] == b.dispatch_log@[d]);
                assert(Self::src_allowed(a, b.dispatch_log@[d]));
            } else {
                assert(Self::src_allowed(b, c.dispatch_log@[d]));
                match c.dispatch_log@[d] {
                    DispatchSrc::Timer { cell } | DispatchSrc::Stream { cell } => {
                        if 0 <= cell < a.cancels@.len() && a.cancels@[cell].cancelled {
                            assert(b.cancels@[cell].cancelled);
                        }
                    },
                    _ => {},
                }
            }
        }
        assert(a.dispatch_log@.is_prefix_of(c.dispatch_log@));
    }
}

} // verus!
