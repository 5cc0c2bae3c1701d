//! The wake queue and the per-task waker.
//!
//! Each in-flight concurrent task is identified by its index in the task
//! cache. When a task signals readiness its waker enqueues that index here
//! and re-schedules the driver, so a drain cycle only touches tasks that
//! actually asked to be polled.

use vstd::prelude::*;

verus! {

/// Indices of concurrent tasks that signalled readiness since the last
/// drain, in signal order.
pub struct WakeQueue {
    pub items: Vec<usize>,
}

impl WakeQueue {
    pub open spec fn view(self) -> Seq<usize> {
        self.items@
    }

    pub fn new() -> (q: WakeQueue)
        ensures
            q@ == Seq::<usize>::empty(),
    {
        WakeQueue { items: Vec::new() }
    }

    /// Record that the task at `idx` asked to be polled.
    pub fn enqueue(&mut self, idx: usize)
        ensures
            final(self)@ == old(self)@.push(idx),
    {
        self.items.push(idx);
    }

    /// Take the oldest recorded index, if any.
    pub fn pop_front(&mut self) -> (r: Option<usize>)
        ensures
            match r {
                Some(idx) => old(self)@.len() > 0 && idx == old(self)@[0] && final(self)@ == old(
                    self,
                )@.skip(1),
                None => old(self)@.len() == 0 && final(self)@ == old(self)@,
            },
    {
        if self.items.len() == 0 {
            None
        } else {
            let idx = self.items.remove(0);
            Some(idx)
        }
    }

    pub fn len(&self) -> (n: usize)
        ensures
            n == self@.len(),
    {
        self.items.len()
    }
}

/// The waker bound to one concurrent task: waking records the task's index
/// on the wake queue and re-schedules the driver.
pub struct ActorWaker {
    pub idx: usize,
}

impl ActorWaker {
    pub fn new(idx: usize) -> (w: ActorWaker)
        ensures
            w.idx == idx,
    {
        ActorWaker { idx }
    }

    /// Signal readiness: enqueue the index and mark the driver woken,
    /// consuming the waker.
    pub fn wake(self, queue: &mut WakeQueue, driver_woken: &mut bool)
        ensures
            final(queue)@ == old(queue)@.push(self.idx),
            *final(driver_woken),
    {
        queue.enqueue(self.idx);
        *driver_woken = true;
    }

    /// Signal readiness without consuming the waker, for a waker shared
    /// between several holders.
    pub fn wake_by_ref(&self, queue: &mut WakeQueue, driver_woken: &mut bool)
        ensures
            final(queue)@ == old(queue)@.push(self.idx),
            *final(driver_woken),
    {
        queue.enqueue(self.idx);
        *driver_woken = true;
    }
}

} // verus!
