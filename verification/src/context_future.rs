//! The driver: the single future that multiplexes the mailbox, the delayed
//! one-shots, the attached streams and the in-flight handler tasks, through
//! the three-phase lifecycle.
//!
//! One call of `tick` is one poll of the driver. Within a tick the driver
//! sweeps ready concurrent tasks (only those whose wakers fired), advances
//! the exclusive slot, dispatches due timers and stream items, and drains
//! the mailbox; an exclusive dispatch re-enters the cycle, bounded by a
//! work budget measured at entry — when the budget runs out the driver
//! wakes itself and continues on the next tick.

use vstd::prelude::*;

use crate::message::{Envelope, MessageBody};
use crate::system::{src_is_mailbox, ActorSystem, DispatchSrc, Phase, SlotState, TaskMeta};
use crate::waker::ActorWaker;
use crate::ActorState;

verus! {

/// What one running cycle decided.
#[derive(Clone, Copy, PartialEq, Eq, Structural, Debug)]
pub enum RunOutcome {
    /// Nothing further can happen until an external event.
    Pending,
    /// An exclusive task was installed or more sweeps are owed: run the
    /// cycle again.
    Reenter,
    /// The actor is shutting down: move to the stopping phase.
    ToStopping,
}

impl ActorSystem {
    /// Fields a concurrent-task sweep leaves untouched, and the monotone
    /// facts it respects.
    pub open spec fn drain_frame(pre: ActorSystem, post: ActorSystem) -> bool {
        &&& post.mailbox == pre.mailbox
        &&& post.msg_status == pre.msg_status
        &&& post.next_seq == pre.next_seq
        &&& post.dispatch_log == pre.dispatch_log
        &&& post.cache_mut == pre.cache_mut
        &&& post.phase == pre.phase
        &&& post.bg_queue == pre.bg_queue
        &&& post.addr_count == pre.addr_count
        &&& post.drop_notify == pre.drop_notify
        &&& post.forced == pre.forced
        &&& post.extra_poll == pre.extra_poll
        &&& post.on_start_body == pre.on_start_body
        &&& post.on_stop_body == pre.on_stop_body
        &&& post.bodies == pre.bodies
        &&& (pre.closed ==> post.closed)
        &&& (post.act_state == pre.act_state || post.act_state == ActorState::StopGraceful)
        &&& post.cancels@.len() >= pre.cancels@.len()
        &&& (forall|i: int| 0 <= i < pre.cancels@.len() ==> post.cancels@[i] == pre.cancels@[i])
    }

    /// Install a message as a new concurrent task: invoke it lazily by
    /// storing its script in the task table, hand its stable index to the
    /// cache, and wake that index so the next sweep polls it.
    pub(crate) fn add_concurrent(&mut self, body: MessageBody, reply: Option<usize>)
        requires
            old(self).wf(),
            !old(self).ex_started(),
            !(old(self).phase is Starting),
        ensures
            final(self).wf(),
            Self::step_rel(*old(self), *final(self)),
            final(self).mailbox == old(self).mailbox,
            final(self).msg_status == old(self).msg_status,
            final(self).next_seq == old(self).next_seq,
            final(self).dispatch_log == old(self).dispatch_log,
            final(self).cache_mut == old(self).cache_mut,
            final(self).phase == old(self).phase,
            final(self).slots == old(self).slots,
            final(self).cancels == old(self).cancels,
            final(self).future_cache == old(self).future_cache,
            final(self).stream_cache == old(self).stream_cache,
            final(self).data == old(self).data,
            final(self).act_state == old(self).act_state,
            final(self).closed == old(self).closed,
            final(self).addr_count == old(self).addr_count,
            final(self).bg_queue == old(self).bg_queue,
            final(self).drop_notify == old(self).drop_notify,
            final(self).forced == old(self).forced,
            final(self).woken == old(self).woken,
            final(self).last_handle == old(self).last_handle,
            final(self).on_start_body == old(self).on_start_body,
            final(self).on_stop_body == old(self).on_stop_body,
            final(self).extra_poll,
            final(self).bodies@ == old(self).bodies@.push(body),
            final(self).metas@ == old(self).metas@.push(
                (TaskMeta { reply, started: false, deadline: 0, reply_val: 0, done: false }),
            ),
            final(self).sleepers == old(self).sleepers,
            final(self).queue@.len() == old(self).queue@.len() + 1,
            old(self).queue@.is_prefix_of(final(self).queue@),
            !old(self).slab_map().dom().contains(final(self).queue@.last()),
            final(self).slab_map() == old(self).slab_map().insert(
                final(self).queue@.last(),
                old(self).bodies@.len() as u64,
            ),
    {
        let tid = self.bodies.len() as u64;
        self.bodies.push(body);
        self.metas.push(
            TaskMeta { reply, started: false, deadline: 0, reply_val: 0, done: false },
        );
        let idx = self.cache_ref.add_task(tid);
        self.queue.enqueue(idx);
        self.extra_poll = true;
        proof {
            assert(self.slab_map() == old(self).slab_map().insert(idx, tid));
        }
    }

    /// Install a message as the exclusive task. The slot must be free; the
    /// handler is not invoked until the cycle polls the slot with no
    /// concurrent task resident.
    pub(crate) fn add_exclusive(&mut self, body: MessageBody, reply: Option<usize>)
        requires
            old(self).wf(),
            old(self).cache_mut is None,
        ensures
            final(self).wf(),
            Self::step_rel(*old(self), *final(self)),
            *final(self) == (ActorSystem { cache_mut: final(self).cache_mut, ..*old(self) }),
            final(self).cache_mut == Some(
                (crate::system::ExclusiveTask {
                    body,
                    reply,
                    started: false,
                    deadline: 0,
                    reply_val: 0,
                }),
            ),
            !final(self).ex_started(),
    {
        self.cache_mut = Some(
            crate::system::ExclusiveTask { body, reply, started: false, deadline: 0, reply_val: 0 },
        );
    }

    /// Poll the exclusive slot: invoke the handler if it has not run yet
    /// (which requires quiescence of the concurrent cache), then complete
    /// it once its work deadline has passed, fulfilling its reply slot.
    /// Returns whether the task completed and left the slot.
    pub(crate) fn poll_exclusive(&mut self) -> (done: bool)
        requires
            old(self).wf(),
            old(self).cache_mut is Some,
            old(self).concurrent_count() == 0,
        ensures
            final(self).wf(),
            Self::step_rel(*old(self), *final(self)),
            final(self).mailbox == old(self).mailbox,
            final(self).msg_status == old(self).msg_status,
            final(self).next_seq == old(self).next_seq,
            final(self).dispatch_log == old(self).dispatch_log,
            final(self).phase == old(self).phase,
            final(self).cache_ref == old(self).cache_ref,
            final(self).bodies == old(self).bodies,
            final(self).metas == old(self).metas,
            final(self).queue == old(self).queue,
            final(self).bg_queue == old(self).bg_queue,
            final(self).addr_count == old(self).addr_count,
            final(self).drop_notify == old(self).drop_notify,
            final(self).forced == old(self).forced,
            final(self).extra_poll == old(self).extra_poll,
            final(self).woken == old(self).woken,
            final(self).concurrent_count() == 0,
            (old(self).closed ==> final(self).closed),
            (final(self).act_state == old(self).act_state || final(self).act_state
                == ActorState::StopGraceful),
            final(self).cancels@.len() >= old(self).cancels@.len(),
            forall|i: int|
                0 <= i < old(self).cancels@.len() ==> final(self).cancels@[i] == old(
                    self,
                ).cancels@[i],
            done ==> final(self).cache_mut is None,
            !done ==> final(self).cache_mut is Some && final(self).ex_started(),
            done == (old(self).now >= old(self).cache_mut->Some_0.deadline_after(old(self).now)),
            final(self).data == old(self).cache_mut->Some_0.data_after(old(self).data),
            !done ==> final(self).cache_mut == Some(
                (crate::system::ExclusiveTask {
                    body: old(self).cache_mut->Some_0.body,
                    reply: old(self).cache_mut->Some_0.reply,
                    started: true,
                    deadline: old(self).cache_mut->Some_0.deadline_after(old(self).now),
                    reply_val: old(self).cache_mut->Some_0.reply_value_at(old(self).data),
                }),
            ),
            !done ==> final(self).slots@ == old(self).slots@,
            done ==> (match old(self).cache_mut->Some_0.reply {
                Some(rs) => final(self).slots@ == (if old(self).slot_spec(rs as int) is Pending {
                    old(self).slots@.update(
                        rs as int,
                        SlotState::Filled(
                            old(self).cache_mut->Some_0.reply_value_at(old(self).data),
                        ),
                    )
                } else {
                    old(self).slots@
                }),
                None => final(self).slots@ == old(self).slots@,
            }),
    {
        let ghost s0 = *old(self);
        let t = match self.cache_mut.take() {
            Some(t) => t,
            None => vstd::pervasive::unreached(),
        };
        let mut started = t.started;
        let mut deadline = t.deadline;
        let mut reply_val = t.reply_val;
        if !started {
            // the handler runs now: apply its script and arm its work
            // deadline
            let opc = t.body.op.duplicate();
            let r = self.apply_op(&opc);
            reply_val = match r {
                Some(v) => v,
                None => 0,
            };
            deadline = crate::message::exec_sat_add(self.now, t.body.work);
            started = true;
        }
        if self.now >= deadline {
            match t.reply {
                Some(rs) => {
                    self.fill_slot(rs, reply_val);
                },
                None => {},
            }
            true
        } else {
            self.cache_mut = Some(
                crate::system::ExclusiveTask {
                    body: t.body,
                    reply: t.reply,
                    started,
                    deadline,
                    reply_val,
                },
            );
            false
        }
    }

    /// Poll the concurrent task whose cache index is `idx`. A stale index
    /// (its task already left the cache) is silently dropped. The handler
    /// is invoked on first poll; once its work deadline has passed the task
    /// completes, fulfils its reply slot and leaves the cache; otherwise
    /// it is parked until the clock reaches its deadline.
    pub(crate) fn poll_concurrent_at(&mut self, idx: usize)
        requires
            old(self).wf(),
        ensures
            final(self).wf(),
            Self::step_rel(*old(self), *final(self)),
            Self::drain_frame(*old(self), *final(self)),
            final(self).slots@.len() == old(self).slots@.len(),
            final(self).queue == old(self).queue,
            final(self).woken == old(self).woken,
            final(self).concurrent_count() <= old(self).concurrent_count(),
            final(self).metas@.len() == old(self).metas@.len(),
            forall|t: int|
                0 <= t < old(self).metas@.len() ==> ({
                    let m0 = old(self).metas@[t];
                    let m1 = #[trigger] final(self).metas@[t];
                    &&& (m0.started ==> m1.started && m1.deadline == m0.deadline)
                    &&& m1.reply == m0.reply
                    &&& (m0.done ==> m1.done)
                }),
            forall|i2: int|
                0 <= i2 < old(self).slots@.len() && (#[trigger] old(self).slots@[i2]) is Pending
                    ==> (final(self).slots@[i2] is Pending || final(self).slots@[i2] is Filled),
            forall|t: int|
                0 <= t < old(self).metas@.len() && !old(self).metas@[t].done && (
                #[trigger] final(self).metas@[t]).done ==> (match final(self).metas@[t].reply {
                    Some(rs) => !(final(self).slot_spec(rs as int) is Pending),
                    None => true,
                }),
            forall|k2: usize|
                !(#[trigger] old(self).slab_map().dom().contains(k2))
                    ==> !final(self).slab_map().dom().contains(k2),
            forall|k2: usize|
                k2 != idx && #[trigger] old(self).slab_map().dom().contains(k2)
                    ==> final(self).slab_map().dom().contains(k2) && final(self).slab_map()[k2]
                    == old(self).slab_map()[k2],
            !old(self).slab_map().dom().contains(idx) ==> *final(self) == *old(self),
            old(self).slab_map().dom().contains(idx) ==> ({
                let tid = old(self).slab_map()[idx] as int;
                let m = old(self).metas@[tid];
                let b = old(self).bodies@[tid];
                &&& (m.done ==> *final(self) == (ActorSystem {
                    cache_ref: final(self).cache_ref,
                    ..*old(self)
                }) && !final(self).slab_map().dom().contains(idx))
                &&& (!m.done ==> final(self).data == m.data_after(b, old(self).data))
                &&& ((!m.done && old(self).now >= m.deadline_after(b, old(self).now))
                    ==> !final(self).slab_map().dom().contains(idx) && (match m.reply {
                    Some(rs) => final(self).slots@ == (if old(self).slot_spec(rs as int) is Pending {
                        old(self).slots@.update(
                            rs as int,
                            SlotState::Filled(m.reply_value_at(b, old(self).data)),
                        )
                    } else {
                        old(self).slots@
                    }),
                    None => final(self).slots@ == old(self).slots@,
                }))
                &&& ((!m.done && old(self).now < m.deadline_after(b, old(self).now))
                    ==> final(self).slots@ == old(self).slots@ && final(self).slab_map() == old(
                    self,
                ).slab_map())
            }),
    {
        let ghost s0 = *old(self);
        if !self.cache_ref.contains(idx) {
            // a stale index: its task already left the cache
            return ;
        }
        let tid = self.cache_ref.get(idx);
        let blen = self.bodies.len();
        proof {
            // the cache invariant bounds every task id by the table length
            assert((tid as int) < self.bodies@.len());
            assert(blen <= usize::MAX);
        }
        let b = tid as usize;
        let m = self.metas[b];
        if m.done {
            let _ = self.cache_ref.try_remove(idx);
            return ;
        }
        let mut started = m.started;
        let mut deadline = m.deadline;
        let mut reply_val = m.reply_val;
        if !started {
            let opc = self.bodies[b].op.duplicate();
            let ghost mid = *self;
            let r = self.apply_op(&opc);
            proof {
                Self::lemma_step_trans(s0, mid, *self);
            }
            reply_val = match r {
                Some(v) => v,
                None => 0,
            };
            deadline = crate::message::exec_sat_add(self.now, self.bodies[b].work);
            started = true;
        }
        if self.now >= deadline {
            // completed: leave the cache and fulfil the reply
            let _ = self.cache_ref.try_remove(idx);
            self.metas.set(
                b,
                TaskMeta { reply: m.reply, started, deadline, reply_val, done: true },
            );
            match m.reply {
                Some(rs) => {
                    let ghost mid2 = *self;
                    self.fill_slot(rs, reply_val);
                    proof {
                        Self::lemma_step_trans(s0, mid2, *self);
                    }
                },
                None => {},
            }
        } else {
            // still working: record progress and park the task; its waker
            // fires when the clock reaches the deadline
            self.metas.set(
                b,
                TaskMeta { reply: m.reply, started, deadline, reply_val, done: false },
            );
            self.sleepers.push(crate::system::SleepEntry { idx, deadline });
        }
    }

    /// Sweep the wake queue: pop at most as many indices as there are
    /// resident concurrent tasks and poll each one that is still live —
    /// every woken task whose work deadline has passed completes and
    /// leaves the cache. If the cap was reached with indices still queued
    /// the driver wakes itself so the sweep continues on the next tick,
    /// keeping timers, streams and the mailbox from starving.
    pub(crate) fn drain_wake_queue(&mut self)
        requires
            old(self).wf(),
        ensures
            final(self).wf(),
            Self::step_rel(*old(self), *final(self)),
            Self::drain_frame(*old(self), *final(self)),
            final(self).slots@.len() == old(self).slots@.len(),
            old(self).concurrent_count() == 0 ==> *final(self) == *old(self),
            final(self).queue@ == old(self).queue@.skip(
                (if old(self).concurrent_count() <= old(self).queue@.len() {
                    old(self).concurrent_count() as int
                } else {
                    old(self).queue@.len() as int
                }),
            ),
            final(self).woken == (old(self).woken || (old(self).concurrent_count() > 0 && old(
                self,
            ).queue@.len() > old(self).concurrent_count())),
            forall|k: int|
                #![trigger old(self).queue@[k]]
                0 <= k < (if old(self).concurrent_count() <= old(self).queue@.len() {
                    old(self).concurrent_count() as int
                } else {
                    old(self).queue@.len() as int
                }) ==> ({
                    let idx = old(self).queue@[k];
                    let lm = old(self).slab_map();
                    (lm.dom().contains(idx) && ({
                        let m = old(self).metas@[lm[idx] as int];
                        m.started && !m.done && old(self).now >= m.deadline
                    })) ==> !final(self).slab_map().dom().contains(idx) && (match old(self).metas@[lm[idx] as int].reply {
                        Some(rs) => (old(self).slot_spec(rs as int) is Pending
                            ==> final(self).slot_spec(rs as int) is Filled),
                        None => true,
                    })
                }),
            forall|i2: int|
                0 <= i2 < old(self).slots@.len() && (#[trigger] old(self).slots@[i2]) is Pending
                    ==> (final(self).slots@[i2] is Pending || final(self).slots@[i2] is Filled),
    {
        let ghost s0 = *old(self);
        let cap = self.cache_ref.len();
        if cap == 0 {
            return ;
        }
        let mut polled: usize = 0;
        while polled < cap
            invariant
                s0 == *old(self),
                self.wf(),
                Self::step_rel(s0, *self),
                Self::drain_frame(s0, *self),
                self.slots@.len() == s0.slots@.len(),
                polled <= cap,
                cap == s0.concurrent_count(),
                polled <= s0.queue@.len(),
                self.queue@ == s0.queue@.skip(polled as int),
                self.woken == s0.woken,
                self.metas@.len() == s0.metas@.len(),
                forall|t: int|
                    0 <= t < s0.metas@.len() ==> ({
                        let m0 = s0.metas@[t];
                        let m1 = #[trigger] self.metas@[t];
                        &&& (m0.started ==> m1.started && m1.deadline == m0.deadline && m1.reply
                            == m0.reply)
                        &&& (m0.done ==> m1.done)
                    }),
                forall|k2: usize|
                    #[trigger] self.slab_map().dom().contains(k2) ==> s0.slab_map().dom().contains(
                        k2,
                    ) && self.slab_map()[k2] == s0.slab_map()[k2],
                forall|i2: int|
                    0 <= i2 < s0.slots@.len() && (#[trigger] s0.slots@[i2]) is Pending ==> (
                    self.slots@[i2] is Pending || self.slots@[i2] is Filled),
                forall|t: int|
                    0 <= t < s0.metas@.len() && !s0.metas@[t].done && (
                    #[trigger] self.metas@[t]).done ==> (match self.metas@[t].reply {
                        Some(rs) => !(self.slot_spec(rs as int) is Pending),
                        None => true,
                    }),
                forall|k: int|
                    #![trigger s0.queue@[k]]
                    0 <= k < polled ==> ({
                        let idx = s0.queue@[k];
                        let lm = s0.slab_map();
                        (lm.dom().contains(idx) && ({
                            let m = s0.metas@[lm[idx] as int];
                            m.started && !m.done && s0.now >= m.deadline
                        })) ==> !self.slab_map().dom().contains(idx)
                    }),
                forall|idx2: usize|
                    #[trigger] s0.slab_map().dom().contains(idx2) && ({
                        let m = s0.metas@[s0.slab_map()[idx2] as int];
                        m.started && !m.done && s0.now >= m.deadline
                    }) && !self.slab_map().dom().contains(idx2) ==> (match s0.metas@[s0.slab_map()[idx2] as int].reply {
                        Some(rs) => !(self.slot_spec(rs as int) is Pending),
                        None => true,
                    }),
            decreases cap - polled,
        {
            match self.queue.pop_front() {
                Some(idx) => {
                    let ghost mid = *self;
                    self.poll_concurrent_at(idx);
                    proof {
                        Self::lemma_step_trans(s0, mid, *self);
                        assert(self.queue@ == s0.queue@.skip(polled + 1));
                        assert(idx == s0.queue@[polled as int]);
                        assert forall|k2: usize|
                            #[trigger] self.slab_map().dom().contains(k2) implies s0.slab_map().dom().contains(
                            k2,
                        ) && self.slab_map()[k2] == s0.slab_map()[k2] by {
                            assert(mid.slab_map().dom().contains(k2));
                            if k2 != idx {
                                assert(self.slab_map()[k2] == mid.slab_map()[k2]);
                            }
                        }
                        let lm = s0.slab_map();
                        let tid0 = lm[idx] as int;
                        if lm.dom().contains(idx) && s0.metas@[tid0].started
                            && !s0.metas@[tid0].done && s0.now >= s0.metas@[tid0].deadline {
                            if mid.slab_map().dom().contains(idx) {
                                assert(mid.slab_map()[idx] == lm[idx]);
                                assert(mid.metas@[tid0].started);
                                assert(mid.metas@[tid0].deadline == s0.metas@[tid0].deadline);
                                assert(!self.slab_map().dom().contains(idx));
                            } else {
                                assert(!self.slab_map().dom().contains(idx));
                            }
                        }
                    }
                    polled = polled + 1;
                },
                None => {
                    proof {
                        assert(s0.queue@.skip(polled as int).len() == 0);
                        assert(self.queue@ == s0.queue@.skip(s0.queue@.len() as int));
                    }
                    return ;
                },
            }
        }
        if self.queue.len() > 0 {
            // the cap was hit with wakes still queued: continue next tick
            self.woken = true;
        }
    }

    /// Fields a timer or stream scan leaves untouched, and the monotone
    /// facts it respects. Unlike a concurrent sweep it may dispatch (grow
    /// the log) and install an exclusive task.
    pub open spec fn scan_frame(pre: ActorSystem, post: ActorSystem) -> bool {
        &&& post.mailbox == pre.mailbox
        &&& post.msg_status == pre.msg_status
        &&& post.next_seq == pre.next_seq
        &&& post.phase == pre.phase
        &&& post.bg_queue == pre.bg_queue
        &&& post.addr_count == pre.addr_count
        &&& post.drop_notify == pre.drop_notify
        &&& post.forced == pre.forced
        &&& post.on_start_body == pre.on_start_body
        &&& post.on_stop_body == pre.on_stop_body
        &&& post.data == pre.data
        &&& (pre.closed ==> post.closed)
        &&& post.act_state == pre.act_state
        &&& post.slots@.len() == pre.slots@.len()
        &&& post.cancels@.len() == pre.cancels@.len()
        &&& (forall|i: int|
            0 <= i < pre.cancels@.len() ==> (#[trigger] post.cancels@[i]).cancelled
                == pre.cancels@[i].cancelled)
    }

    /// The cancellation cell `c` is marked cancelled in `cs`.
    pub open spec fn cancelled_in(cs: Seq<crate::system::CancelCell>, c: usize) -> bool {
        c < cs.len() && cs[c as int].cancelled
    }

    /// The delayed one-shots a scan leaves pending: those neither due nor
    /// cancelled, in their original order.
    pub open spec fn timers_kept(
        fc: Seq<crate::system::FutureMessage>,
        cs: Seq<crate::system::CancelCell>,
        now: u64,
    ) -> Seq<crate::system::FutureMessage>
        decreases fc.len(),
    {
        if fc.len() == 0 {
            Seq::empty()
        } else {
            let rest = Self::timers_kept(fc.drop_last(), cs, now);
            let f = fc.last();
            if !Self::cancelled_in(cs, f.cancel) && f.deadline > now {
                rest.push(f)
            } else {
                rest
            }
        }
    }

    /// The delayed one-shots a scan dispatches: those due and not
    /// cancelled, in their original order.
    pub open spec fn timers_fired(
        fc: Seq<crate::system::FutureMessage>,
        cs: Seq<crate::system::CancelCell>,
        now: u64,
    ) -> Seq<crate::system::FutureMessage>
        decreases fc.len(),
    {
        if fc.len() == 0 {
            Seq::empty()
        } else {
            let rest = Self::timers_fired(fc.drop_last(), cs, now);
            let f = fc.last();
            if !Self::cancelled_in(cs, f.cancel) && f.deadline <= now {
                rest.push(f)
            } else {
                rest
            }
        }
    }

    /// No delayed one-shot is due yet.
    pub open spec fn timers_idle(self) -> bool {
        forall|j: int|
            0 <= j < self.future_cache@.len() ==> (#[trigger] self.future_cache@[j]).deadline
                > self.now
    }

    /// No stream item is due yet.
    pub open spec fn streams_idle(self) -> bool {
        forall|j: int|
            0 <= j < self.stream_cache@.len() ==> (#[trigger] self.stream_cache@[j]).next_due
                > self.now
    }

    /// Scan the delayed one-shots: every cancelled entry is dropped, and
    /// every entry whose deadline has passed is dispatched — its script
    /// becomes a new concurrent task (or installs the exclusive slot,
    /// which ends the scan so the driver can re-enter). When no exclusive
    /// entry was due, exactly the due, uncancelled entries were dispatched,
    /// in order.
    pub(crate) fn poll_future_cache(&mut self) -> (installed: bool)
        requires
            old(self).wf(),
            old(self).cache_mut is None,
            old(self).phase is Running,
        ensures
            final(self).wf(),
            Self::step_rel(*old(self), *final(self)),
            Self::scan_frame(*old(self), *final(self)),
            installed ==> final(self).cache_mut is Some && !final(self).ex_started(),
            installed ==> (match final(self).cache_mut {
                Some(tk) => tk.reply is None && !tk.started && tk.deadline == 0 && tk.reply_val
                    == 0,
                None => false,
            }),
            !installed ==> final(self).cache_mut is None,
            !installed ==> final(self).timers_idle(),
            final(self).woken == old(self).woken,
            old(self).queue@.len() <= final(self).queue@.len(),
            old(self).bodies@.is_prefix_of(final(self).bodies@),
            forall|d: int|
                old(self).dispatch_log@.len() <= d < final(self).dispatch_log@.len()
                    ==> !src_is_mailbox(#[trigger] final(self).dispatch_log@[d]),
            final(self).stream_cache == old(self).stream_cache,
            !installed ==> final(self).future_cache@ == Self::timers_kept(
                old(self).future_cache@,
                old(self).cancels@,
                old(self).now,
            ),
            !installed ==> final(self).bodies@ == old(self).bodies@ + Self::timers_fired(
                old(self).future_cache@,
                old(self).cancels@,
                old(self).now,
            ).map_values(|f: crate::system::FutureMessage| f.body),
            !installed ==> final(self).dispatch_log@ == old(self).dispatch_log@
                + Self::timers_fired(
                old(self).future_cache@,
                old(self).cancels@,
                old(self).now,
            ).map_values(|f: crate::system::FutureMessage| (DispatchSrc::Timer {
                cell: f.cancel as int,
            })),
    {
        let ghost s0 = *old(self);
        let ghost orig = s0.future_cache@;
        let ghost cs0 = s0.cancels@;
        let ghost body_of = |f: crate::system::FutureMessage| f.body;
        let ghost src_of = |f: crate::system::FutureMessage|
            (DispatchSrc::Timer { cell: f.cancel as int });
        let mut i: usize = 0;
        let ghost mut p: int = 0;
        loop
            invariant
                s0 == *old(self),
                orig == s0.future_cache@,
                cs0 == s0.cancels@,
                body_of == (|f: crate::system::FutureMessage| f.body),
                src_of == (|f: crate::system::FutureMessage|
                    (DispatchSrc::Timer { cell: f.cancel as int })),
                self.wf(),
                Self::step_rel(s0, *self),
                Self::scan_frame(s0, *self),
                self.cache_mut is None,
                self.phase is Running,
                self.stream_cache == s0.stream_cache,
                self.woken == s0.woken,
                s0.queue@.len() <= self.queue@.len(),
                forall|j: int|
                    0 <= j < i ==> (#[trigger] self.future_cache@[j]).deadline > self.now,
                i <= self.future_cache@.len(),
                0 <= p <= orig.len(),
                i == Self::timers_kept(orig.take(p), cs0, s0.now).len(),
                self.future_cache@ == Self::timers_kept(orig.take(p), cs0, s0.now) + orig.skip(p),
                self.bodies@ == s0.bodies@ + Self::timers_fired(orig.take(p), cs0, s0.now)
                    .map_values(body_of),
                self.dispatch_log@ == s0.dispatch_log@ + Self::timers_fired(
                    orig.take(p),
                    cs0,
                    s0.now,
                ).map_values(src_of),
            decreases orig.len() - p,
        {
            if i >= self.future_cache.len() {
                proof {
                    assert(orig.skip(p).len() == 0);
                    assert(p == orig.len());
                    assert(orig.take(p) =~= orig);
                }
                return false;
            }
            proof {
                assert(self.future_cache@[i as int] == orig.skip(p)[0]);
                assert(orig.skip(p)[0] == orig[p]);
                assert(orig.take(p + 1).drop_last() =~= orig.take(p));
                assert(orig.take(p + 1).last() == orig[p]);
            }
            let deadline = self.future_cache[i].deadline;
            let cancel = self.future_cache[i].cancel;
            let excl = self.future_cache[i].exclusive;
            let cancelled = self.cell_is_cancelled(cancel);
            proof {
                assert(cancelled == Self::cancelled_in(cs0, cancel));
            }
            if cancelled {
                // cancellation observed before dispatch: drop the entry
                let ghost pre_fc = self.future_cache@;
                let fm = self.future_cache.remove(i);
                proof {
                    assert forall|j: int|
                        0 <= j < self.future_cache@.len() implies #[trigger] self.future_cache@[j]
                        == (Self::timers_kept(orig.take(p + 1), cs0, s0.now) + orig.skip(p + 1))[j]
                    by {
                        if j < i {
                            assert(self.future_cache@[j] == pre_fc[j]);
                        } else {
                            assert(self.future_cache@[j] == pre_fc[j + 1]);
                            assert(pre_fc[j + 1] == orig.skip(p)[j + 1 - i]);
                            assert(orig.skip(p)[j + 1 - i] == orig[p + j + 1 - i]);
                            assert(orig.skip(p + 1)[j - i] == orig[p + 1 + j - i]);
                        }
                    }
                    assert(self.future_cache@ =~= Self::timers_kept(orig.take(p + 1), cs0, s0.now)
                        + orig.skip(p + 1));
                }
                let ghost mid = *self;
                self.kill_cell(fm.cancel);
                proof {
                    Self::lemma_step_trans(s0, mid, *self);
                    p = p + 1;
                }
            } else if self.now >= deadline {
                let ghost pre_fc = self.future_cache@;
                let fm = self.future_cache.remove(i);
                proof {
                    assert forall|j: int|
                        0 <= j < self.future_cache@.len() implies #[trigger] self.future_cache@[j]
                        == (Self::timers_kept(orig.take(p + 1), cs0, s0.now) + orig.skip(p + 1))[j]
                    by {
                        if j < i {
                            assert(self.future_cache@[j] == pre_fc[j]);
                        } else {
                            assert(self.future_cache@[j] == pre_fc[j + 1]);
                            assert(pre_fc[j + 1] == orig.skip(p)[j + 1 - i]);
                            assert(orig.skip(p)[j + 1 - i] == orig[p + j + 1 - i]);
                            assert(orig.skip(p + 1)[j - i] == orig[p + 1 + j - i]);
                        }
                    }
                    assert(self.future_cache@ =~= Self::timers_kept(orig.take(p + 1), cs0, s0.now)
                        + orig.skip(p + 1));
                }
                let ghost mid = *self;
                self.kill_cell(fm.cancel);
                proof {
                    Self::lemma_step_trans(s0, mid, *self);
                }
                self.dispatch_log = Ghost(
                    self.dispatch_log@.push(DispatchSrc::Timer { cell: fm.cancel as int }),
                );
                proof {
                    let fired1 = Self::timers_fired(orig.take(p + 1), cs0, s0.now);
                    let fired0 = Self::timers_fired(orig.take(p), cs0, s0.now);
                    assert(fired1 == fired0.push(orig[p]));
                    assert(fired1.map_values(src_of) =~= fired0.map_values(src_of).push(
                        src_of(orig[p]),
                    ));
                    assert(fired1.map_values(body_of) =~= fired0.map_values(body_of).push(
                        body_of(orig[p]),
                    ));
                }
                if excl {
                    let ghost mid2 = *self;
                    self.add_exclusive(fm.body, None);
                    proof {
                        Self::lemma_step_trans(s0, mid2, *self);
                    }
                    return true;
                } else {
                    let ghost mid2 = *self;
                    self.add_concurrent(fm.body, None);
                    proof {
                        Self::lemma_step_trans(s0, mid2, *self);
                        p = p + 1;
                    }
                }
            } else {
                proof {
                    let kept1 = Self::timers_kept(orig.take(p + 1), cs0, s0.now);
                    let kept0 = Self::timers_kept(orig.take(p), cs0, s0.now);
                    assert(kept1 == kept0.push(orig[p]));
                    assert forall|j: int|
                        0 <= j < self.future_cache@.len() implies #[trigger] self.future_cache@[j]
                        == (kept1 + orig.skip(p + 1))[j] by {
                        if j < i {
                        } else if j == i {
                            assert(self.future_cache@[j] == orig[p]);
                        } else {
                            assert(self.future_cache@[j] == orig.skip(p)[j - i]);
                            assert(orig.skip(p)[j - i] == orig[p + j - i]);
                            assert(orig.skip(p + 1)[j - i - 1] == orig[p + j - i]);
                        }
                    }
                    assert(self.future_cache@ =~= kept1 + orig.skip(p + 1));
                    p = p + 1;
                }
                i = i + 1;
            }
        }
    }

    /// An endless stream with cancellation cell `c` stands attached.
    pub open spec fn endless_attached(sc: Seq<crate::system::StreamMessage>, c: usize) -> bool {
        exists|k: int|
            0 <= k < sc.len() && (#[trigger] sc[k]).cancel == c && sc[k].remaining is None
    }

    /// Scan the attached streams. Each stream yields every item now due, up
    /// to the fairness cap per cycle — hitting the cap re-schedules the
    /// driver instead of starving the other inputs. A cancelled or
    /// exhausted stream is removed; an exclusive item installs the
    /// exclusive slot and ends the scan — an uncancelled endless stream is
    /// never dropped.
    pub(crate) fn poll_streams(&mut self) -> (installed: bool)
        requires
            old(self).wf(),
            old(self).cache_mut is None,
            old(self).phase is Running,
        ensures
            final(self).wf(),
            Self::step_rel(*old(self), *final(self)),
            Self::scan_frame(*old(self), *final(self)),
            installed ==> final(self).cache_mut is Some && !final(self).ex_started(),
            installed ==> (match final(self).cache_mut {
                Some(tk) => tk.reply is None && !tk.started && tk.deadline == 0 && tk.reply_val
                    == 0,
                None => false,
            }),
            !installed ==> final(self).cache_mut is None,
            (!installed && !final(self).woken) ==> final(self).streams_idle(),
            final(self).woken ==> old(self).woken || !final(self).streams_idle(),
            old(self).queue@.len() <= final(self).queue@.len(),
            old(self).bodies@.is_prefix_of(final(self).bodies@),
            forall|d: int|
                old(self).dispatch_log@.len() <= d < final(self).dispatch_log@.len()
                    ==> !src_is_mailbox(#[trigger] final(self).dispatch_log@[d]),
            final(self).dispatch_log@.len() <= old(self).dispatch_log@.len() + 16 * old(
                self,
            ).stream_cache@.len(),
            forall|d: int|
                old(self).dispatch_log@.len() <= d < final(self).dispatch_log@.len() ==> (
                #[trigger] final(self).dispatch_log@[d]) matches DispatchSrc::Stream { .. },
            final(self).future_cache == old(self).future_cache,
            forall|j: int|
                0 <= j < old(self).stream_cache@.len() && !Self::cancelled_in(
                    old(self).cancels@,
                    (#[trigger] old(self).stream_cache@[j]).cancel,
                ) && old(self).stream_cache@[j].remaining is None ==> Self::endless_attached(
                    final(self).stream_cache@,
                    old(self).stream_cache@[j].cancel,
                ),
    {
        let ghost s0 = *old(self);
        let ghost sl0 = s0.stream_cache@;
        let ghost cs0 = s0.cancels@;
        let mut i: usize = 0;
        loop
            invariant
                s0 == *old(self),
                sl0 == s0.stream_cache@,
                cs0 == s0.cancels@,
                self.wf(),
                Self::step_rel(s0, *self),
                Self::scan_frame(s0, *self),
                self.cache_mut is None,
                self.phase is Running,
                self.future_cache == s0.future_cache,
                s0.queue@.len() <= self.queue@.len(),
                s0.bodies@.is_prefix_of(self.bodies@),
                !self.woken ==> forall|j: int|
                    0 <= j < i ==> (#[trigger] self.stream_cache@[j]).next_due > self.now,
                i <= self.stream_cache@.len(),
                self.woken ==> s0.woken || (exists|k: int|
                    0 <= k < i && (#[trigger] self.stream_cache@[k]).next_due <= self.now),
                self.dispatch_log@.len() <= s0.dispatch_log@.len() + 16 * (i + sl0.len()
                    - self.stream_cache@.len()),
                forall|d: int|
                    s0.dispatch_log@.len() <= d < self.dispatch_log@.len() ==> (
                    #[trigger] self.dispatch_log@[d]) matches DispatchSrc::Stream { .. },
                forall|j: int|
                    0 <= j < sl0.len() && !Self::cancelled_in(
                        cs0,
                        (#[trigger] sl0[j]).cancel,
                    ) && sl0[j].remaining is None ==> Self::endless_attached(
                        self.stream_cache@,
                        sl0[j].cancel,
                    ),
            decreases self.stream_cache@.len() - i,
        {
            if i >= self.stream_cache.len() {
                return false;
            }
            let ghost head = self.stream_cache@;
            let sm = self.stream_cache.remove(i);
            let ghost sc = self.stream_cache@;
            if self.cell_is_cancelled(sm.cancel) {
                // cancellation observed before the next item: drop the
                // stream
                proof {
                    assert(Self::cancelled_in(cs0, sm.cancel));
                }
                let ghost mid = *self;
                self.kill_cell(sm.cancel);
                proof {
                    Self::lemma_step_trans(s0, mid, *self);
                    assert(Self::cancelled_in(cs0, sm.cancel));
                    assert forall|j: int| 0 <= j < i implies #[trigger] self.stream_cache@[j]
                        == head[j] by {}
                        if self.woken && !s0.woken {
                            let k = choose|k: int|
                                0 <= k < i && (#[trigger] head[k]).next_due <= self.now;
                            assert(self.stream_cache@[k] == head[k]);
                            assert(self.stream_cache@[k].next_due <= self.now);
                            assert(!self.streams_idle());
                        }
                    assert forall|j: int|
                        0 <= j < sl0.len() && !Self::cancelled_in(
                            cs0,
                            (#[trigger] sl0[j]).cancel,
                        ) && sl0[j].remaining is None implies Self::endless_attached(
                        self.stream_cache@,
                        sl0[j].cancel,
                    ) by {
                        let c = sl0[j].cancel;
                        let k = choose|k: int|
                            0 <= k < head.len() && (#[trigger] head[k]).cancel == c
                                && head[k].remaining is None;
                        assert(k != i) by {
                            if k == i {
                                assert(head[i as int] == sm);
                            }
                        }
                        if k < i {
                            assert(self.stream_cache@[k] == head[k]);
                        } else {
                            assert(self.stream_cache@[k - 1] == head[k]);
                        }
                    }
                }
            } else {
                let mut next_due = sm.next_due;
                let mut remaining = sm.remaining;
                let mut yields: u64 = 0;
                let mut excl_installed = false;
                let mut exhausted = false;
                let ghost w0: bool = self.woken;
                let ghost lbase = self.dispatch_log@.len();
                proof {
                    // the cell was not cancelled when the scan started
                    assert(Self::src_allowed(s0, DispatchSrc::Stream { cell: sm.cancel as int }));
                }
                while yields < crate::system::STREAM_YIELD_CAP
                    invariant_except_break
                        !exhausted,
                    invariant
                        s0 == *old(self),
                        self.wf(),
                        Self::step_rel(s0, *self),
                        Self::scan_frame(s0, *self),
                        self.stream_cache@ == sc,
                        !excl_installed ==> self.cache_mut is None,
                        excl_installed ==> self.cache_mut is Some && !self.ex_started(),
                        excl_installed ==> (match self.cache_mut {
                            Some(tk) => tk.reply is None && !tk.started && tk.deadline == 0
                                && tk.reply_val == 0,
                            None => false,
                        }),
                        self.phase is Running,
                        Self::src_allowed(s0, (DispatchSrc::Stream { cell: sm.cancel as int })),
                        self.woken == w0,
                        yields <= crate::system::STREAM_YIELD_CAP,
                        self.future_cache == s0.future_cache,
                        s0.queue@.len() <= self.queue@.len(),
                        s0.bodies@.is_prefix_of(self.bodies@),
                        sm.remaining is None ==> remaining is None,
                        self.dispatch_log@.len() == lbase + yields,
                        forall|d: int|
                            s0.dispatch_log@.len() <= d < self.dispatch_log@.len() ==> (
                            #[trigger] self.dispatch_log@[d]) matches DispatchSrc::Stream { .. },
                    ensures
                        s0 == *old(self),
                        self.wf(),
                        Self::step_rel(s0, *self),
                        Self::scan_frame(s0, *self),
                        self.stream_cache@ == sc,
                        !excl_installed ==> self.cache_mut is None,
                        excl_installed ==> self.cache_mut is Some && !self.ex_started(),
                        excl_installed ==> (match self.cache_mut {
                            Some(tk) => tk.reply is None && !tk.started && tk.deadline == 0
                                && tk.reply_val == 0,
                            None => false,
                        }),
                        self.phase is Running,
                        exhausted ==> !excl_installed,
                        (!excl_installed && !exhausted && yields
                            < crate::system::STREAM_YIELD_CAP) ==> self.now < next_due,
                        self.woken == w0,
                        yields <= crate::system::STREAM_YIELD_CAP,
                        self.future_cache == s0.future_cache,
                        s0.queue@.len() <= self.queue@.len(),
                        s0.bodies@.is_prefix_of(self.bodies@),
                        sm.remaining is None ==> remaining is None,
                        exhausted ==> sm.remaining is Some,
                        self.dispatch_log@.len() <= lbase + 16,
                        forall|d: int|
                            s0.dispatch_log@.len() <= d < self.dispatch_log@.len() ==> (
                            #[trigger] self.dispatch_log@[d]) matches DispatchSrc::Stream { .. },
                    decreases crate::system::STREAM_YIELD_CAP - yields,
                {
                    if excl_installed {
                        break ;
                    }
                    if matches!(remaining, Some(0u64)) {
                        // the stream has yielded everything it had
                        exhausted = true;
                        break ;
                    }
                    if self.now < next_due {
                        break ;
                    }
                    self.dispatch_log = Ghost(
                        self.dispatch_log@.push(DispatchSrc::Stream { cell: sm.cancel as int }),
                    );
                    let body = sm.body.duplicate();
                    next_due = crate::message::exec_sat_add(next_due, sm.period);
                    remaining = match remaining {
                        Some(n) => Some(n - 1),
                        None => None,
                    };
                    yields = yields + 1;
                    if sm.exclusive {
                        let ghost mid = *self;
                        self.add_exclusive(body, None);
                        proof {
                            Self::lemma_step_trans(s0, mid, *self);
                        }
                        excl_installed = true;
                    } else {
                        let ghost mid = *self;
                        self.add_concurrent(body, None);
                        proof {
                            Self::lemma_step_trans(s0, mid, *self);
                        }
                    }
                }
                if exhausted {
                    proof {
                        assert(sm.remaining is Some);
                    }
                    let ghost mid = *self;
                    self.kill_cell(sm.cancel);
                    proof {
                        Self::lemma_step_trans(s0, mid, *self);
                        assert(sm.remaining is Some);
                        assert forall|j: int| 0 <= j < i implies #[trigger] self.stream_cache@[j]
                            == head[j] by {}
                            if self.woken && !s0.woken {
                            let k = choose|k: int|
                                0 <= k < i && (#[trigger] head[k]).next_due <= self.now;
                            assert(self.stream_cache@[k] == head[k]);
                            assert(self.stream_cache@[k].next_due <= self.now);
                            assert(!self.streams_idle());
                        }
                    assert forall|j: int|
                        0 <= j < sl0.len() && !Self::cancelled_in(
                            cs0,
                            (#[trigger] sl0[j]).cancel,
                        ) && sl0[j].remaining is None implies Self::endless_attached(
                        self.stream_cache@,
                        sl0[j].cancel,
                    ) by {
                        let c = sl0[j].cancel;
                        let k = choose|k: int|
                            0 <= k < head.len() && (#[trigger] head[k]).cancel == c
                                && head[k].remaining is None;
                        assert(k != i) by {
                            if k == i {
                                assert(head[i as int] == sm);
                            }
                        }
                        if k < i {
                            assert(self.stream_cache@[k] == head[k]);
                        } else {
                            assert(self.stream_cache@[k - 1] == head[k]);
                        }
                    }
                    }
                } else {
                    self.stream_cache.insert(
                        i,
                        crate::system::StreamMessage {
                            next_due,
                            period: sm.period,
                            remaining,
                            cancel: sm.cancel,
                            exclusive: sm.exclusive,
                            body: sm.body,
                        },
                    );
                    if yields >= 16 && self.now >= next_due {
                        // fairness cap hit with items still due: let the
                        // driver come back for the rest on the next tick
                        self.woken = true;
                    }
                    proof {
                        assert forall|j: int| 0 <= j < i implies #[trigger] self.stream_cache@[j]
                            == head[j] by {
                            assert(self.stream_cache@[j] == sc[j]);
                        }
                        assert(self.stream_cache@[i as int].next_due == next_due);
                        if self.woken && !s0.woken {
                            if w0 {
                                let k = choose|k: int|
                                    0 <= k < i && (#[trigger] head[k]).next_due <= self.now;
                                assert(self.stream_cache@[k] == head[k]);
                                assert(self.stream_cache@[k].next_due <= self.now);
                            } else {
                                assert(self.stream_cache@[i as int].next_due <= self.now);
                            }
                            assert(!self.streams_idle());
                        }
                        assert forall|j: int|
                            0 <= j < sl0.len() && !Self::cancelled_in(
                                cs0,
                                (#[trigger] sl0[j]).cancel,
                            ) && sl0[j].remaining is None implies Self::endless_attached(
                            self.stream_cache@,
                            sl0[j].cancel,
                        ) by {
                            let c = sl0[j].cancel;
                            let k = choose|k: int|
                                0 <= k < head.len() && (#[trigger] head[k]).cancel == c
                                    && head[k].remaining is None;
                            if k == i {
                                assert(head[i as int] == sm);
                                assert(sm.remaining is None);
                                assert(remaining is None);
                                assert(self.stream_cache@[i as int].cancel == c);
                                assert(self.stream_cache@[i as int].remaining is None);
                            } else if k < i {
                                assert(self.stream_cache@[k] == sc[k]);
                                assert(sc[k] == head[k]);
                            } else {
                                assert(self.stream_cache@[k] == sc[k - 1] || true);
                                assert(sc[k - 1] == head[k]);
                                assert(self.stream_cache@[k] == head[k]);
                            }
                        }
                    }
                    if excl_installed {
                        return true;
                    }
                    i = i + 1;
                }
            }
        }
    }

    /// Whether any handler task is resident in the driver.
    pub(crate) fn have_cache_exec(&self) -> (r: bool)
        requires
            self.wf(),
        ensures
            r == self.have_cache(),
    {
        !self.cache_ref.is_empty() || self.cache_mut.is_some()
    }

    /// Discard every envelope still in the mailbox: a forced stop drops
    /// them undispatched, closing their reply slots so waiting requests
    /// observe "closed".
    fn discard_mailbox(&mut self)
        requires
            old(self).wf(),
            old(self).forced,
            old(self).phase is Running,
        ensures
            final(self).wf(),
            Self::step_rel(*old(self), *final(self)),
            final(self).mailbox@.len() == 0,
            final(self).slots@.len() == old(self).slots@.len(),
            final(self).stream_cache == old(self).stream_cache,
            final(self).future_cache == old(self).future_cache,
            final(self).queue == old(self).queue,
            final(self).woken == old(self).woken,
            final(self).bodies == old(self).bodies,
            final(self).dispatch_log == old(self).dispatch_log,
            forall|i: int|
                0 <= i < old(self).mailbox@.len() ==> (match (#[trigger] old(self).mailbox@[i]).kind {
                    crate::message::EnvKind::Msg { reply: Some(rs), .. } => !(final(self).slot_spec(
                        rs as int,
                    ) is Pending),
                    crate::message::EnvKind::State { confirm, .. } => !(final(self).slot_spec(
                        confirm as int,
                    ) is Pending),
                    _ => true,
                }),
            final(self).dispatch_log == old(self).dispatch_log,
            final(self).phase == old(self).phase,
            final(self).closed == old(self).closed,
            final(self).forced,
            final(self).cache_mut == old(self).cache_mut,
            final(self).now == old(self).now,
            final(self).drop_notify == old(self).drop_notify,
            final(self).act_state == old(self).act_state,
    {
        let ghost s0 = *old(self);
        let ghost q0 = s0.mailbox@;
        loop
            invariant
                s0 == *old(self),
                q0 == s0.mailbox@,
                self.wf(),
                Self::step_rel(s0, *self),
                self.dispatch_log == s0.dispatch_log,
                self.slots@.len() == s0.slots@.len(),
                self.phase == s0.phase,
                self.phase is Running,
                self.closed == s0.closed,
                self.forced,
                self.cache_mut == s0.cache_mut,
                self.now == s0.now,
                self.drop_notify == s0.drop_notify,
                self.act_state == s0.act_state,
                self.stream_cache == s0.stream_cache,
                self.future_cache == s0.future_cache,
                self.queue == s0.queue,
                self.woken == s0.woken,
                self.bodies == s0.bodies,
                self.mailbox@.len() <= q0.len(),
                self.mailbox@ =~= q0.skip(q0.len() - self.mailbox@.len()),
                forall|i: int|
                    0 <= i < q0.len() - self.mailbox@.len() ==> (match (
                    #[trigger] q0[i]).kind {
                        crate::message::EnvKind::Msg { reply: Some(rs), .. } => !(self.slot_spec(
                            rs as int,
                        ) is Pending),
                        crate::message::EnvKind::State { confirm, .. } => !(self.slot_spec(
                            confirm as int,
                        ) is Pending),
                        _ => true,
                    }),
            decreases self.mailbox@.len(),
        {
            if self.mailbox.len() == 0 {
                return ;
            }
            let ghost processed = q0.len() - self.mailbox@.len();
            let ghost pre = *self;
            let ghost pre_q = self.mailbox@;
            let env = self.mailbox.remove(0);
            proof {
                assert(pre_q == q0.skip(processed));
                assert(q0.skip(processed)[0] == q0[processed]);
                assert(env == q0[processed]);
                assert forall|j: int|
                    0 <= j < self.mailbox@.len() implies #[trigger] self.mailbox@[j] == q0.skip(
                    processed + 1,
                )[j] by {
                    assert(self.mailbox@[j] == pre_q[j + 1]);
                    assert(pre_q[j + 1] == q0[processed + 1 + j]);
                }
                assert(self.mailbox@ =~= q0.skip(processed + 1));
            }
            match env.kind {
                crate::message::EnvKind::Msg { reply, .. } => {
                    self.msg_status = Ghost(
                        self.msg_status@.insert(env.seq@, crate::system::MsgStatus::Discarded),
                    );
                    proof {
                        Self::lemma_pop_front(
                            pre.mailbox@,
                            pre.next_seq@,
                            pre.msg_status@,
                            self.msg_status@,
                        );
                        assert(self.wf());
                    }
                    match reply {
                        Some(rs) => {
                            let ghost mid = *self;
                            self.close_slot(rs);
                            proof {
                                Self::lemma_step_trans(s0, mid, *self);
                                assert(!(self.slot_spec(rs as int) is Pending));
                            }
                        },
                        None => {},
                    }
                },
                crate::message::EnvKind::State { confirm, .. } => {
                    proof {
                        Self::lemma_pop_front(
                            pre.mailbox@,
                            pre.next_seq@,
                            pre.msg_status@,
                            self.msg_status@,
                        );
                        assert(self.wf());
                    }
                    let ghost mid = *self;
                    self.close_slot(confirm);
                    proof {
                        Self::lemma_step_trans(s0, mid, *self);
                        assert(!(self.slot_spec(confirm as int) is Pending));
                    }
                },
            }
            proof {
                assert forall|i: int|
                    0 <= i < processed + 1 implies (match (#[trigger] q0[i]).kind {
                    crate::message::EnvKind::Msg { reply: Some(rs), .. } => !(self.slot_spec(
                        rs as int,
                    ) is Pending),
                    crate::message::EnvKind::State { confirm, .. } => !(self.slot_spec(
                        confirm as int,
                    ) is Pending),
                    _ => true,
                }) by {
                    if i < processed {
                        match q0[i].kind {
                            crate::message::EnvKind::Msg { reply, .. } => {
                                match reply {
                                    Some(rs) => {
                                        assert(!(pre.slot_spec(rs as int) is Pending));
                                    },
                                    None => {},
                                }
                            },
                            crate::message::EnvKind::State { confirm, .. } => {
                                assert(!(pre.slot_spec(confirm as int) is Pending));
                            },
                        }
                    }
                }
            }
        }
    }

    /// Assemble the mailbox drain's effect clause: split the state at the
    /// drain's entry into what the earlier phases appended and what the
    /// drain itself appended.
    proof fn mb_assemble(
        pre: ActorSystem,
        post: ActorSystem,
        eb: Seq<MessageBody>,
        el: Seq<DispatchSrc>,
        qm: Seq<Envelope>,
    )
        requires
            (exists|b: Seq<MessageBody>| #![trigger pre.bodies@ + b] eb == pre.bodies@ + b),
            pre.dispatch_log@.is_prefix_of(el),
            forall|d: int|
                pre.dispatch_log@.len() <= d < el.len() ==> !src_is_mailbox(#[trigger] el[d]),
            post.bodies@ == eb + Self::mb_conc_bodies(qm),
            post.dispatch_log@ == el + Self::mb_log_delta(qm),
        ensures
            (exists|b: Seq<MessageBody>|
                #![trigger pre.bodies@ + b]
                post.bodies@ == pre.bodies@ + b + Self::mb_conc_bodies(qm)),
            (exists|l: Seq<DispatchSrc>|
                #![trigger pre.dispatch_log@ + l]
                post.dispatch_log@ == pre.dispatch_log@ + l + Self::mb_log_delta(qm) && (
                forall|d: int| 0 <= d < l.len() ==> !src_is_mailbox(#[trigger] l[d]))),
    {
        let b = choose|b: Seq<MessageBody>| #![trigger pre.bodies@ + b] eb == pre.bodies@ + b;
        assert(post.bodies@ == pre.bodies@ + b + Self::mb_conc_bodies(qm));
        let l = el.subrange(pre.dispatch_log@.len() as int, el.len() as int);
        assert(el =~= pre.dispatch_log@ + l);
        assert(post.dispatch_log@ == pre.dispatch_log@ + l + Self::mb_log_delta(qm));
        assert forall|d: int| 0 <= d < l.len() implies !src_is_mailbox(#[trigger] l[d]) by {
            assert(l[d] == el[pre.dispatch_log@.len() + d]);
        }
    }

    /// The scripts of the concurrent messages one mailbox drain installs:
    /// message bodies in queue order, up to the first exclusive message or
    /// forced stop request.
    pub open spec fn mb_conc_bodies(q: Seq<Envelope>) -> Seq<MessageBody>
        decreases q.len(),
    {
        if q.len() == 0 {
            Seq::empty()
        } else {
            match q[0].kind {
                crate::message::EnvKind::Msg { exclusive, body, .. } => if exclusive {
                    Seq::empty()
                } else {
                    seq![body] + Self::mb_conc_bodies(q.skip(1))
                },
                crate::message::EnvKind::State { force, .. } => if force {
                    Seq::empty()
                } else {
                    Self::mb_conc_bodies(q.skip(1))
                },
            }
        }
    }

    /// The exclusive task one mailbox drain installs: the first exclusive
    /// message, unless a forced stop request or the queue's end comes
    /// first.
    pub open spec fn mb_excl_install(q: Seq<Envelope>) -> Option<crate::system::ExclusiveTask>
        decreases q.len(),
    {
        if q.len() == 0 {
            None
        } else {
            match q[0].kind {
                crate::message::EnvKind::Msg { exclusive, body, reply } => if exclusive {
                    Some(
                        crate::system::ExclusiveTask {
                            body,
                            reply,
                            started: false,
                            deadline: 0,
                            reply_val: 0,
                        },
                    )
                } else {
                    Self::mb_excl_install(q.skip(1))
                },
                crate::message::EnvKind::State { force, .. } => if force {
                    None
                } else {
                    Self::mb_excl_install(q.skip(1))
                },
            }
        }
    }

    /// The dispatch records one mailbox drain appends: one per message
    /// handed to a handler, in queue order.
    pub open spec fn mb_log_delta(q: Seq<Envelope>) -> Seq<DispatchSrc>
        decreases q.len(),
    {
        if q.len() == 0 {
            Seq::empty()
        } else {
            match q[0].kind {
                crate::message::EnvKind::Msg { exclusive, .. } => if exclusive {
                    seq![DispatchSrc::Mailbox { sender: q[0].sender@, seq: q[0].seq@ }]
                } else {
                    seq![DispatchSrc::Mailbox { sender: q[0].sender@, seq: q[0].seq@ }]
                        + Self::mb_log_delta(q.skip(1))
                },
                crate::message::EnvKind::State { force, .. } => if force {
                    Seq::empty()
                } else {
                    Self::mb_log_delta(q.skip(1))
                },
            }
        }
    }

    /// One cycle of the running phase: sweep ready concurrent tasks,
    /// advance the exclusive slot, dispatch due timers and stream items,
    /// then drain the mailbox until it is pending. Deciding to re-enter,
    /// wait, or stop is the driver state machine of the running phase.
    ///
    /// Unless the cycle parked on a pending exclusive task or a scan
    /// installed one, the mailbox was drained: its concurrent messages'
    /// scripts entered the task table in queue order (`mb_conc_bodies`),
    /// each drained message was recorded in the dispatch history
    /// (`mb_log_delta`), and the exclusive slot holds exactly the first
    /// exclusive message, if the drain reached one (`mb_excl_install`).
    #[verifier::rlimit(100)]
    pub(crate) fn poll_running_once(&mut self) -> (o: RunOutcome)
        requires
            old(self).wf(),
            old(self).phase is Running,
        ensures
            final(self).wf(),
            Self::step_rel(*old(self), *final(self)),
            final(self).phase is Running,
            final(self).now == old(self).now,
            final(self).slots@.len() == old(self).slots@.len(),
            o is ToStopping ==> final(self).mailbox@.len() == 0 && final(self).closed
                && final(self).act_state is StopGraceful,
            (o is ToStopping && !final(self).forced) ==> !final(self).have_cache(),
            (match old(self).drop_notify {
                Some(d) => final(self).drop_notify == Some(d) || !(final(self).slot_spec(d as int)
                    is Pending),
                None => true,
            }),
            final(self).drop_notify == old(self).drop_notify || (final(self).closed
                && final(self).act_state is StopGraceful),
            o is Reenter ==> (final(self).cache_mut is Some && !final(self).ex_started()) || (
            final(self).extra_poll && final(self).mailbox@.len() == 0),
            final(self).woken ==> old(self).woken || final(self).queue@.len() > 0
                || !final(self).streams_idle(),
            o is Pending ==> final(self).mailbox@.len() == 0 || final(self).cache_mut is Some,
            (o is Pending && final(self).cache_mut is None && final(self).closed)
                ==> final(self).have_cache(),
            (o is Pending && final(self).cache_mut is None) ==> final(self).mailbox@.len() == 0,
            (o is Pending && final(self).cache_mut is None && !final(self).woken
                && final(self).act_state is Running) ==> final(self).timers_idle()
                && final(self).streams_idle(),
            ({
                let qm = old(self).mailbox@;
                ||| (o is Pending && final(self).cache_mut is Some && final(self).bodies@ == old(
                    self,
                ).bodies@ && final(self).dispatch_log@ == old(self).dispatch_log@)
                ||| (o is Reenter && final(self).cache_mut is Some && !final(self).ex_started()
                    && (exists|b: Seq<MessageBody>|
                    #![trigger old(self).bodies@ + b]
                    final(self).bodies@ == old(self).bodies@ + b))
                ||| ((exists|b: Seq<MessageBody>|
                    #![trigger old(self).bodies@ + b]
                    final(self).bodies@ == old(self).bodies@ + b + Self::mb_conc_bodies(qm)) && (
                exists|l: Seq<DispatchSrc>|
                    #![trigger old(self).dispatch_log@ + l]
                    final(self).dispatch_log@ == old(self).dispatch_log@ + l + Self::mb_log_delta(
                        qm,
                    ) && (forall|d: int| 0 <= d < l.len() ==> !src_is_mailbox(#[trigger] l[d])))
                    && (match Self::mb_excl_install(qm) {
                    Some(tk) => final(self).cache_mut == Some(tk) && o is Reenter,
                    None => final(self).cache_mut is None,
                }))
            }),
    {
        let ghost s0 = *old(self);
        // 1. sweep the concurrent tasks whose wakers fired
        self.drain_wake_queue();
        // 2. advance the exclusive slot; it waits for quiescence of the
        // concurrent cache before its handler runs
        if self.cache_mut.is_some() {
            if !self.cache_ref.is_empty() {
                return RunOutcome::Pending;
            }
            let ghost mid = *self;
            let done = self.poll_exclusive();
            proof {
                Self::lemma_step_trans(s0, mid, *self);
            }
            if !done {
                return RunOutcome::Pending;
            }
        }
        self.extra_poll = false;
        // 3./4. while the actor is running, dispatch due timers and stream
        // items
        if matches!(self.act_state, ActorState::Running) {
            let ghost mid = *self;
            if self.poll_future_cache() {
                proof {
                    Self::lemma_step_trans(s0, mid, *self);
                    assert(s0.bodies@.is_prefix_of(self.bodies@));
                    assert(self.bodies@ =~= s0.bodies@ + self.bodies@.subrange(
                        s0.bodies@.len() as int,
                        self.bodies@.len() as int,
                    ));
                }
                return RunOutcome::Reenter;
            }
            proof {
                Self::lemma_step_trans(s0, mid, *self);
            }
            let ghost mid2 = *self;
            if self.poll_streams() {
                proof {
                    Self::lemma_step_trans(s0, mid2, *self);
                    assert(s0.bodies@.is_prefix_of(self.bodies@));
                    assert(self.bodies@ =~= s0.bodies@ + self.bodies@.subrange(
                        s0.bodies@.len() as int,
                        self.bodies@.len() as int,
                    ));
                }
                return RunOutcome::Reenter;
            }
            proof {
                Self::lemma_step_trans(s0, mid2, *self);
                assert(s0.bodies@.is_prefix_of(self.bodies@));
                assert forall|d: int|
                    s0.dispatch_log@.len() <= d < self.dispatch_log@.len() implies !src_is_mailbox(
                    #[trigger] self.dispatch_log@[d],
                ) by {
                    if d < mid2.dispatch_log@.len() {
                        assert(!src_is_mailbox(mid2.dispatch_log@[d]));
                        assert(self.dispatch_log@[d] == mid2.dispatch_log@[d]);
                    }
                }
            }
        }
        // 5. drain the mailbox
        let ghost qm = s0.mailbox@;
        let ghost eb = self.bodies@;
        let ghost el = self.dispatch_log@;
        let ghost mut p: int = 0;
        proof {
            assert(self.mailbox@ == qm);
            assert(qm.skip(0) =~= qm);
            assert(s0.bodies@.is_prefix_of(eb));
            assert(eb =~= s0.bodies@ + eb.subrange(s0.bodies@.len() as int, eb.len() as int));
            assert(s0.dispatch_log@.is_prefix_of(el));
            assert forall|d: int|
                s0.dispatch_log@.len() <= d < el.len() implies !src_is_mailbox(
                #[trigger] el[d],
            ) by {}
        }
        loop
            invariant
                s0 == *old(self),
                self.wf(),
                Self::step_rel(s0, *self),
                self.cache_mut is None,
                self.phase is Running,
                self.now == s0.now,
                self.slots@.len() == s0.slots@.len(),
                self.drop_notify == s0.drop_notify || (self.closed && self.act_state
                    is StopGraceful),
                self.woken ==> s0.woken || self.queue@.len() > 0 || !self.streams_idle(),
                (match s0.drop_notify {
                    Some(d) => self.drop_notify == Some(d) || !(self.slot_spec(d as int)
                        is Pending),
                    None => true,
                }),
                (self.act_state is Running && !self.woken) ==> self.timers_idle()
                    && self.streams_idle(),
                qm == s0.mailbox@,
                0 <= p <= qm.len(),
                self.mailbox@ == qm.skip(p),
                (exists|b: Seq<MessageBody>|
                    #![trigger s0.bodies@ + b]
                    eb == s0.bodies@ + b),
                s0.dispatch_log@.is_prefix_of(el),
                forall|d: int|
                    s0.dispatch_log@.len() <= d < el.len() ==> !src_is_mailbox(#[trigger] el[d]),
                eb + Self::mb_conc_bodies(qm) == self.bodies@ + Self::mb_conc_bodies(qm.skip(p)),
                el + Self::mb_log_delta(qm) == self.dispatch_log@ + Self::mb_log_delta(
                    qm.skip(p),
                ),
                Self::mb_excl_install(qm) == Self::mb_excl_install(qm.skip(p)),
            decreases self.mailbox@.len(),
        {
            if self.mailbox.len() > 0 {
                let ghost pre = *self;
                let ghost envg;
                let env = self.mailbox.remove(0);
                proof {
                    envg = qm[p];
                    assert(pre.mailbox@ == qm.skip(p));
                    assert(qm.skip(p)[0] == qm[p]);
                    assert(env == qm[p]);
                    assert forall|j: int|
                        0 <= j < self.mailbox@.len() implies #[trigger] self.mailbox@[j]
                        == qm.skip(p + 1)[j] by {
                        assert(self.mailbox@[j] == pre.mailbox@[j + 1]);
                        assert(pre.mailbox@[j + 1] == qm[p + 1 + j]);
                    }
                    assert(self.mailbox@ =~= qm.skip(p + 1));
                }
                match env.kind {
                    crate::message::EnvKind::Msg { exclusive, body, reply } => {
                        self.msg_status = Ghost(
                            self.msg_status@.insert(env.seq@, crate::system::MsgStatus::Dispatched),
                        );
                        self.dispatch_log = Ghost(
                            self.dispatch_log@.push(
                                DispatchSrc::Mailbox { sender: env.sender@, seq: env.seq@ },
                            ),
                        );
                        proof {
                            Self::lemma_pop_front(
                                pre.mailbox@,
                                pre.next_seq@,
                                pre.msg_status@,
                                self.msg_status@,
                            );
                            let log1 = self.dispatch_log@;
                            let log0 = pre.dispatch_log@;
                            assert forall|d: int, e: int|
                                0 <= d < e < log1.len() && crate::system::src_is_mailbox(
                                    #[trigger] log1[d],
                                ) && crate::system::src_is_mailbox(
                                    #[trigger] log1[e],
                                ) implies crate::system::src_seq(log1[d]) < crate::system::src_seq(
                                log1[e],
                            ) by {
                                if e < log0.len() {
                                    assert(log1[d] == log0[d]);
                                    assert(log1[e] == log0[e]);
                                } else {
                                    assert(log1[e] == log1[log1.len() - 1]);
                                    if d < log0.len() {
                                        assert(log1[d] == log0[d]);
                                        assert(crate::system::log_before_queue(pre.mailbox@, log0));
                                        assert(crate::system::src_seq(log0[d])
                                            < pre.mailbox@[0].seq@);
                                    }
                                }
                            }
                            assert forall|i: int, d: int|
                                0 <= i < self.mailbox@.len() && 0 <= d < log1.len()
                                    && crate::system::src_is_mailbox(
                                    #[trigger] log1[d],
                                ) implies crate::system::src_seq(log1[d]) < (
                            #[trigger] self.mailbox@[i]).seq@ by {
                                assert(self.mailbox@[i] == pre.mailbox@[i + 1]);
                                assert(pre.mailbox@[0].seq@ < pre.mailbox@[i + 1].seq@);
                                if d < log0.len() {
                                    assert(log1[d] == log0[d]);
                                    assert(crate::system::log_before_queue(pre.mailbox@, log0));
                                }
                            }
                            assert(self.wf());
                        }
                        if exclusive {
                            let ghost mid = *self;
                            self.add_exclusive(body, reply);
                            proof {
                                Self::lemma_step_trans(s0, mid, *self);
                                // the head was the first exclusive message:
                                // the drain's effect is now complete
                                assert(Self::mb_conc_bodies(qm.skip(p))
                                    =~= Seq::<MessageBody>::empty());
                                assert(self.bodies@ == eb + Self::mb_conc_bodies(qm));
                                assert(Self::mb_log_delta(qm.skip(p)) =~= seq![
                                    (DispatchSrc::Mailbox { sender: envg.sender@, seq: envg.seq@ }),
                                ]);
                                assert(mid.dispatch_log@ == pre.dispatch_log@.push(
                                    (DispatchSrc::Mailbox { sender: envg.sender@, seq: envg.seq@ }),
                                ));
                                assert(self.dispatch_log@ =~= pre.dispatch_log@
                                    + Self::mb_log_delta(qm.skip(p)));
                                assert(self.dispatch_log@ == el + Self::mb_log_delta(qm));
                                assert(Self::mb_excl_install(qm) == Self::mb_excl_install(
                                    qm.skip(p),
                                ));
                                match qm[p].kind {
                                    crate::message::EnvKind::Msg { body: b2, reply: r2, .. } => {
                                        assert(self.cache_mut == Some(
                                            (crate::system::ExclusiveTask {
                                                body: b2,
                                                reply: r2,
                                                started: false,
                                                deadline: 0,
                                                reply_val: 0,
                                            }),
                                        ));
                                    },
                                    _ => {
                                        assert(false);
                                    },
                                }
                                Self::mb_assemble(s0, *self, eb, el, qm);
                            }
                            return RunOutcome::Reenter;
                        } else {
                            let ghost mid = *self;
                            self.add_concurrent(body, reply);
                            proof {
                                Self::lemma_step_trans(s0, mid, *self);
                                match qm[p].kind {
                                    crate::message::EnvKind::Msg { body: b2, .. } => {
                                        assert(Self::mb_conc_bodies(qm.skip(p)) =~= seq![b2]
                                            + Self::mb_conc_bodies(qm.skip(p).skip(1)));
                                        assert(qm.skip(p).skip(1) =~= qm.skip(p + 1));
                                        assert(self.bodies@ =~= mid.bodies@ + seq![b2]);
                                        assert(eb + Self::mb_conc_bodies(qm) =~= self.bodies@
                                            + Self::mb_conc_bodies(qm.skip(p + 1)));
                                    },
                                    _ => {
                                        assert(false);
                                    },
                                }
                                assert(Self::mb_log_delta(qm.skip(p)) =~= seq![
                                    (DispatchSrc::Mailbox { sender: envg.sender@, seq: envg.seq@ }),
                                ] + Self::mb_log_delta(qm.skip(p + 1)));
                                assert(self.dispatch_log@ =~= pre.dispatch_log@ + seq![
                                    (DispatchSrc::Mailbox { sender: envg.sender@, seq: envg.seq@ }),
                                ]);
                                assert(el + Self::mb_log_delta(qm) =~= self.dispatch_log@
                                    + Self::mb_log_delta(qm.skip(p + 1)));
                                assert(Self::mb_excl_install(qm.skip(p)) == Self::mb_excl_install(
                                    qm.skip(p + 1),
                                ));
                                p = p + 1;
                            }
                        }
                    },
                    crate::message::EnvKind::State { force, confirm } => {
                        proof {
                            Self::lemma_pop_front(
                                pre.mailbox@,
                                pre.next_seq@,
                                pre.msg_status@,
                                self.msg_status@,
                            );
                            assert(self.wf());
                        }
                        // the latest stop request owns the drop
                        // notification; an earlier one observes "closed"
                        let ghost at_state = *self;
                        match self.drop_notify {
                            Some(prev) => {
                                let ghost mid = *self;
                                self.close_slot(prev);
                                proof {
                                    Self::lemma_step_trans(s0, mid, *self);
                                }
                            },
                            None => {},
                        }
                        self.drop_notify = Some(confirm);
                        self.closed = true;
                        self.act_state = ActorState::StopGraceful;
                        proof {
                            // whichever stop request held the notification
                            // before, its slot is resolved now
                            match s0.drop_notify {
                                Some(d) => {
                                    if at_state.drop_notify == Some(d) {
                                        assert(!(self.slot_spec(d as int) is Pending));
                                    } else {
                                        assert(!(at_state.slot_spec(d as int) is Pending));
                                        assert(!(self.slot_spec(d as int) is Pending));
                                    }
                                },
                                None => {},
                            }
                        }
                        if force {
                            self.forced = true;
                            let ghost mid = *self;
                            self.discard_mailbox();
                            proof {
                                Self::lemma_step_trans(s0, mid, *self);
                                match s0.drop_notify {
                                    Some(d) => {
                                        assert(!(mid.slot_spec(d as int) is Pending));
                                        assert(!(self.slot_spec(d as int) is Pending));
                                    },
                                    None => {},
                                }
                                // a forced stop ends the drain here: nothing
                                // behind the stop request is installed
                                assert(qm[p].kind matches crate::message::EnvKind::State {
                                    force: true,
                                    ..
                                });
                                assert(Self::mb_conc_bodies(qm.skip(p))
                                    =~= Seq::<MessageBody>::empty());
                                assert(Self::mb_log_delta(qm.skip(p))
                                    =~= Seq::<DispatchSrc>::empty());
                                assert(self.bodies@ == eb + Self::mb_conc_bodies(qm));
                                assert(self.dispatch_log@ == el + Self::mb_log_delta(qm));
                                assert(Self::mb_excl_install(qm) is None);
                                Self::mb_assemble(s0, *self, eb, el, qm);
                            }
                            return RunOutcome::ToStopping;
                        }
                        proof {
                            // a graceful stop request keeps the drain going
                            assert(qm[p].kind matches crate::message::EnvKind::State {
                                force: false,
                                ..
                            });
                            assert(Self::mb_conc_bodies(qm.skip(p)) =~= Self::mb_conc_bodies(
                                qm.skip(p).skip(1),
                            ));
                            assert(Self::mb_log_delta(qm.skip(p)) =~= Self::mb_log_delta(
                                qm.skip(p).skip(1),
                            ));
                            assert(Self::mb_excl_install(qm.skip(p)) == Self::mb_excl_install(
                                qm.skip(p).skip(1),
                            ));
                            assert(qm.skip(p).skip(1) =~= qm.skip(p + 1));
                            p = p + 1;
                        }
                    },
                }
            } else {
                proof {
                    assert(qm.skip(p).len() == 0);
                    assert(Self::mb_conc_bodies(qm.skip(p)) =~= Seq::<MessageBody>::empty());
                    assert(Self::mb_log_delta(qm.skip(p)) =~= Seq::<DispatchSrc>::empty());
                    assert(Self::mb_excl_install(qm) is None);
                }
                if self.closed || self.addr_count == 0 {
                    // the channel is gone: finish what is in flight, then
                    // stop
                    self.closed = true;
                    self.act_state = ActorState::StopGraceful;
                    proof {
                        assert(self.bodies@ == eb + Self::mb_conc_bodies(qm));
                        assert(self.dispatch_log@ == el + Self::mb_log_delta(qm));
                        Self::mb_assemble(s0, *self, eb, el, qm);
                    }
                    if self.extra_poll {
                        return RunOutcome::Reenter;
                    } else if self.have_cache_exec() {
                        return RunOutcome::Pending;
                    } else {
                        return RunOutcome::ToStopping;
                    }
                } else {
                    proof {
                        assert(self.bodies@ == eb + Self::mb_conc_bodies(qm));
                        assert(self.dispatch_log@ == el + Self::mb_log_delta(qm));
                        Self::mb_assemble(s0, *self, eb, el, qm);
                    }
                    if self.extra_poll {
                        return RunOutcome::Reenter;
                    } else {
                        return RunOutcome::Pending;
                    }
                }
            }
        }
    }

    /// The lifecycle task a phase step polls: the resident one, or a fresh
    /// task built from the hook's script.
    pub open spec fn effective_hook(
        cur: Option<crate::system::ExclusiveTask>,
        hook: MessageBody,
    ) -> crate::system::ExclusiveTask {
        match cur {
            Some(t) => t,
            None => crate::system::ExclusiveTask {
                body: hook,
                reply: None,
                started: false,
                deadline: 0,
                reply_val: 0,
            },
        }
    }

    /// One poll of the starting phase: install the starting hook's task if
    /// it is not resident, then poll it — its script runs now and the task
    /// completes once its work deadline passes. On completion the actor
    /// state is marked running.
    pub(crate) fn poll_start_step(&mut self) -> (done: bool)
        requires
            old(self).wf(),
            old(self).phase is Starting,
        ensures
            final(self).wf(),
            Self::step_rel(*old(self), *final(self)),
            final(self).phase is Starting,
            final(self).now == old(self).now,
            final(self).slots@.len() == old(self).slots@.len(),
            final(self).woken == old(self).woken,
            final(self).drop_notify == old(self).drop_notify,
            done ==> final(self).cache_mut is None,
            ({
                let t0 = Self::effective_hook(old(self).cache_mut, old(self).on_start_body);
                &&& done == (old(self).now >= t0.deadline_after(old(self).now))
                &&& final(self).data == t0.data_after(old(self).data)
                &&& (done ==> final(self).act_state is Running)
                &&& (!done ==> final(self).cache_mut == Some(
                    (crate::system::ExclusiveTask {
                        body: t0.body,
                        reply: t0.reply,
                        started: true,
                        deadline: t0.deadline_after(old(self).now),
                        reply_val: t0.reply_value_at(old(self).data),
                    }),
                ) && (final(self).act_state == old(self).act_state || final(self).act_state
                    == ActorState::StopGraceful))
                &&& (!done ==> final(self).slots@ == old(self).slots@)
                &&& (done ==> (match t0.reply {
                    Some(rs) => final(self).slots@ == (if old(self).slot_spec(rs as int) is Pending {
                        old(self).slots@.update(
                            rs as int,
                            SlotState::Filled(t0.reply_value_at(old(self).data)),
                        )
                    } else {
                        old(self).slots@
                    }),
                    None => final(self).slots@ == old(self).slots@,
                }))
            }),
    {
        let ghost s0 = *old(self);
        if self.cache_mut.is_none() {
            let body = self.on_start_body.duplicate();
            self.add_exclusive(body, None);
        }
        let ghost mid = *self;
        let done = self.poll_exclusive();
        proof {
            Self::lemma_step_trans(s0, mid, *self);
        }
        if done {
            self.act_state = ActorState::Running;
        }
        done
    }

    /// One poll of the stopping phase: first let the in-flight concurrent
    /// tasks finish, then install and poll the stopping hook's task — its
    /// script runs now and the task completes once its work deadline
    /// passes. Once the concurrent cache is quiescent the step behaves
    /// exactly as the starting step does for its hook.
    pub(crate) fn poll_close_step(&mut self) -> (done: bool)
        requires
            old(self).wf(),
            old(self).phase is Stopping,
        ensures
            final(self).wf(),
            Self::step_rel(*old(self), *final(self)),
            final(self).phase is Stopping,
            final(self).now == old(self).now,
            final(self).slots@.len() == old(self).slots@.len(),
            final(self).woken ==> old(self).woken || final(self).queue@.len() > 0,
            final(self).drop_notify == old(self).drop_notify,
            done ==> final(self).cache_mut is None && final(self).concurrent_count() == 0,
            old(self).concurrent_count() == 0 ==> ({
                let t0 = Self::effective_hook(old(self).cache_mut, old(self).on_stop_body);
                &&& done == (old(self).now >= t0.deadline_after(old(self).now))
                &&& final(self).data == t0.data_after(old(self).data)
                &&& (final(self).act_state == old(self).act_state || final(self).act_state
                    == ActorState::StopGraceful)
                &&& (!done ==> final(self).cache_mut == Some(
                    (crate::system::ExclusiveTask {
                        body: t0.body,
                        reply: t0.reply,
                        started: true,
                        deadline: t0.deadline_after(old(self).now),
                        reply_val: t0.reply_value_at(old(self).data),
                    }),
                ))
                &&& (!done ==> final(self).slots@ == old(self).slots@)
                &&& (done ==> (match t0.reply {
                    Some(rs) => final(self).slots@ == (if old(self).slot_spec(rs as int) is Pending {
                        old(self).slots@.update(
                            rs as int,
                            SlotState::Filled(t0.reply_value_at(old(self).data)),
                        )
                    } else {
                        old(self).slots@
                    }),
                    None => final(self).slots@ == old(self).slots@,
                }))
                &&& final(self).drop_notify == old(self).drop_notify
            }),
    {
        let ghost s0 = *old(self);
        self.drain_wake_queue();
        if !self.cache_ref.is_empty() {
            return false;
        }
        if self.cache_mut.is_none() {
            let body = self.on_stop_body.duplicate();
            let ghost mid = *self;
            self.add_exclusive(body, None);
            proof {
                Self::lemma_step_trans(s0, mid, *self);
            }
        }
        let ghost mid2 = *self;
        let done = self.poll_exclusive();
        proof {
            Self::lemma_step_trans(s0, mid2, *self);
        }
        done
    }

    /// Tear down after the stopping hook has finished: the remaining
    /// scheduled work is dropped and its cancellation cells die (their
    /// handles observe termination), waiting background sends are dropped,
    /// and the stop confirmation slot — the last one a stop request
    /// supplied — is fulfilled, exactly once.
    fn finish_stop(&mut self)
        requires
            old(self).wf(),
            old(self).phase is Stopping,
        ensures
            final(self).wf(),
            Self::step_rel(*old(self), *final(self)),
            final(self).phase is Stopped,
            final(self).now == old(self).now,
            final(self).future_cache@.len() == 0,
            final(self).stream_cache@.len() == 0,
            final(self).bg_queue@.len() == 0,
            final(self).drop_notify is None,
            final(self).cache_mut == old(self).cache_mut,
            final(self).cache_ref == old(self).cache_ref,
            final(self).data == old(self).data,
            final(self).slots@.len() == old(self).slots@.len(),
            final(self).woken == old(self).woken,
            final(self).queue == old(self).queue,
            (match old(self).drop_notify {
                Some(d) => final(self).slots@ == (if old(self).slot_spec(d as int) is Pending {
                    old(self).slots@.update(d as int, SlotState::Filled(0))
                } else {
                    old(self).slots@
                }),
                None => final(self).slots@ == old(self).slots@,
            }),
            forall|j: int|
                0 <= j < old(self).future_cache@.len() ==> !final(self).cell_live(
                    old(self).future_cache@[j].cancel as int,
                ),
            forall|j: int|
                0 <= j < old(self).stream_cache@.len() ==> !final(self).cell_live(
                    old(self).stream_cache@[j].cancel as int,
                ),
    {
        let ghost s0 = *old(self);
        let ghost fl = s0.future_cache@;
        while self.future_cache.len() > 0
            invariant
                s0 == *old(self),
                self.wf(),
                Self::step_rel(s0, *self),
                self.phase is Stopping,
                self.now == s0.now,
                self.dispatch_log == s0.dispatch_log,
                self.slots@ == s0.slots@,
                self.drop_notify == s0.drop_notify,
                self.stream_cache == s0.stream_cache,
                self.bg_queue == s0.bg_queue,
                self.cache_mut == s0.cache_mut,
                self.cache_ref == s0.cache_ref,
                self.data == s0.data,
                self.woken == s0.woken,
                self.queue == s0.queue,
                self.future_cache@.len() <= fl.len(),
                self.future_cache@ =~= fl.skip(fl.len() - self.future_cache@.len()),
                forall|j: int|
                    0 <= j < fl.len() - self.future_cache@.len() ==> !self.cell_live(
                        fl[j].cancel as int,
                    ),
            decreases self.future_cache@.len(),
        {
            let ghost processed = fl.len() - self.future_cache@.len();
            let ghost pre_q = self.future_cache@;
            let fm = self.future_cache.remove(0);
            proof {
                assert(pre_q == fl.skip(processed));
                assert(fl.skip(processed)[0] == fl[processed]);
                assert(fm == fl[processed]);
                assert forall|j: int|
                    0 <= j < self.future_cache@.len() implies #[trigger] self.future_cache@[j]
                    == fl.skip(processed + 1)[j] by {
                    assert(self.future_cache@[j] == pre_q[j + 1]);
                    assert(pre_q[j + 1] == fl[processed + 1 + j]);
                }
                assert(self.future_cache@ =~= fl.skip(processed + 1));
            }
            let ghost mid = *self;
            self.kill_cell(fm.cancel);
            proof {
                Self::lemma_step_trans(s0, mid, *self);
                assert forall|j: int|
                    0 <= j < processed + 1 implies !self.cell_live(fl[j].cancel as int) by {
                    if j < processed {
                        assert(!mid.cell_live(fl[j].cancel as int));
                    }
                }
            }
        }
        let ghost sl = s0.stream_cache@;
        while self.stream_cache.len() > 0
            invariant
                s0 == *old(self),
                self.wf(),
                Self::step_rel(s0, *self),
                self.phase is Stopping,
                self.now == s0.now,
                self.dispatch_log == s0.dispatch_log,
                self.slots@ == s0.slots@,
                self.drop_notify == s0.drop_notify,
                self.future_cache@.len() == 0,
                self.bg_queue == s0.bg_queue,
                self.cache_mut == s0.cache_mut,
                self.cache_ref == s0.cache_ref,
                self.data == s0.data,
                self.woken == s0.woken,
                self.queue == s0.queue,
                self.stream_cache@.len() <= sl.len(),
                self.stream_cache@ =~= sl.skip(sl.len() - self.stream_cache@.len()),
                forall|j: int|
                    0 <= j < fl.len() ==> !self.cell_live(fl[j].cancel as int),
                forall|j: int|
                    0 <= j < sl.len() - self.stream_cache@.len() ==> !self.cell_live(
                        sl[j].cancel as int,
                    ),
            decreases self.stream_cache@.len(),
        {
            let ghost processed = sl.len() - self.stream_cache@.len();
            let ghost pre_q = self.stream_cache@;
            let sm = self.stream_cache.remove(0);
            proof {
                assert(pre_q == sl.skip(processed));
                assert(sl.skip(processed)[0] == sl[processed]);
                assert(sm == sl[processed]);
                assert forall|j: int|
                    0 <= j < self.stream_cache@.len() implies #[trigger] self.stream_cache@[j]
                    == sl.skip(processed + 1)[j] by {
                    assert(self.stream_cache@[j] == pre_q[j + 1]);
                    assert(pre_q[j + 1] == sl[processed + 1 + j]);
                }
                assert(self.stream_cache@ =~= sl.skip(processed + 1));
            }
            let ghost mid = *self;
            self.kill_cell(sm.cancel);
            proof {
                Self::lemma_step_trans(s0, mid, *self);
                assert forall|j: int|
                    0 <= j < processed + 1 implies !self.cell_live(sl[j].cancel as int) by {
                    if j < processed {
                        assert(!mid.cell_live(sl[j].cancel as int));
                    }
                }
                assert forall|j: int|
                    0 <= j < fl.len() implies !self.cell_live(fl[j].cancel as int) by {
                    assert(!mid.cell_live(fl[j].cancel as int));
                }
            }
        }
        self.bg_queue = Vec::new();
        match self.drop_notify {
            Some(d) => {
                self.drop_notify = None;
                let ghost mid = *self;
                self.fill_slot(d, 0);
                proof {
                    Self::lemma_step_trans(s0, mid, *self);
                }
            },
            None => {},
        }
        self.phase = Phase::Stopped;
    }

    /// One poll of the driver. Works through the lifecycle phases and
    /// whatever is ready, bounded by a work budget measured at entry; when
    /// the budget runs out the driver wakes itself and the caller ticks
    /// again. Returns whether the actor has fully stopped — once it has,
    /// the stop confirmation slot has been fulfilled.
    pub fn tick(&mut self) -> (stopped: bool)
        requires
            old(self).wf(),
        ensures
            final(self).wf(),
            Self::step_rel(*old(self), *final(self)),
            final(self).now == old(self).now,
            stopped == (final(self).phase is Stopped),
            (stopped && !(old(self).phase is Stopped)) ==> final(self).future_cache@.len() == 0
                && final(self).stream_cache@.len() == 0 && final(self).bg_queue@.len() == 0
                && final(self).cache_mut is None && final(self).concurrent_count() == 0
                && final(self).mailbox@.len() == 0 && final(self).drop_notify is None,
            (stopped && !(old(self).phase is Stopped)) ==> (match old(self).drop_notify {
                Some(d) => !(final(self).slot_spec(d as int) is Pending),
                None => true,
            }),
            (!final(self).woken && final(self).phase is Running && final(self).cache_mut is None)
                ==> final(self).mailbox@.len() == 0,
            (!final(self).woken && final(self).phase is Running && final(self).cache_mut is None
                && final(self).act_state is Running) ==> final(self).timers_idle()
                && final(self).streams_idle(),
            final(self).woken ==> final(self).queue@.len() > 0 || final(self).extra_poll
                || (final(self).cache_mut is Some && !final(self).ex_started())
                || !final(self).streams_idle(),
    {
        let ghost s0 = *old(self);
        let ghost mid0 = *self;
        self.flush_bg();
        proof {
            assert(Self::step_rel(s0, mid0));
            Self::lemma_step_trans(s0, mid0, *self);
        }
        let mut budget: u64 = crate::message::exec_sat_add(
            self.mailbox.len() as u64,
            self.future_cache.len() as u64,
        );
        let sl = self.stream_cache.len() as u64;
        let scap: u64 = if sl > u64::MAX / 16 {
            u64::MAX
        } else {
            sl * 16
        };
        budget = crate::message::exec_sat_add(budget, scap);
        budget = crate::message::exec_sat_add(budget, 8);
        loop
            invariant
                s0 == *old(self),
                self.wf(),
                Self::step_rel(s0, *self),
                self.now == s0.now,
                self.phase is Stopped ==> s0.phase is Stopped,
                (match s0.drop_notify {
                    Some(d) => self.drop_notify == Some(d) || !(self.slot_spec(d as int)
                        is Pending),
                    None => true,
                }),
            decreases 3 - crate::system::phase_index(self.phase), budget,
        {
            // each pass starts fresh: only this pass's own wake requests
            // survive to the caller
            self.woken = false;
            match self.phase {
                Phase::Starting => {
                    let ghost mid = *self;
                    let done = self.poll_start_step();
                    proof {
                        Self::lemma_step_trans(s0, mid, *self);
                    }
                    if !done {
                        return false;
                    }
                    self.phase = Phase::Running;
                },
                Phase::Running => {
                    let ghost mid = *self;
                    let o = self.poll_running_once();
                    proof {
                        Self::lemma_step_trans(s0, mid, *self);
                    }
                    match o {
                        RunOutcome::Pending => {
                            return false;
                        },
                        RunOutcome::Reenter => {
                            if budget == 0 {
                                self.woken = true;
                                return false;
                            }
                            budget = budget - 1;
                        },
                        RunOutcome::ToStopping => {
                            self.phase = Phase::Stopping;
                        },
                    }
                },
                Phase::Stopping => {
                    let ghost mid = *self;
                    let done = self.poll_close_step();
                    proof {
                        Self::lemma_step_trans(s0, mid, *self);
                    }
                    if !done {
                        return false;
                    }
                    let ghost mid2 = *self;
                    self.finish_stop();
                    proof {
                        Self::lemma_step_trans(s0, mid2, *self);
                        assert(self.concurrent_count() == 0);
                        assert(self.mailbox@.len() == 0);
                        match s0.drop_notify {
                            Some(d) => {
                                if mid2.drop_notify == Some(d) {
                                    assert(!(self.slot_spec(d as int) is Pending));
                                } else {
                                    assert(!(mid2.slot_spec(d as int) is Pending));
                                    assert(!(self.slot_spec(d as int) is Pending));
                                }
                            },
                            None => {},
                        }
                    }
                    return true;
                },
                Phase::Stopped => {
                    return true;
                },
            }
        }
    }
}

} // verus!
