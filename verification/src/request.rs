//! The message request: a two-state machine with dual timeouts.
//!
//! A request first tries to enqueue its envelope (the sending state, under
//! a send deadline that covers mailbox backpressure), then awaits its reply
//! slot (the awaiting state, under an optional response deadline that is
//! armed when the envelope enters the mailbox). The two deadlines are
//! separate because a stalled mailbox is a different failure from a slow
//! handler.

use vstd::prelude::*;

use crate::error::ActixAsyncError;
use crate::message::{sat_add, Envelope};
use crate::system::{ActorSystem, SlotState, DEFAULT_TIMEOUT_MS};

verus! {

/// A request for one message: the envelope still to be sent (none once it
/// has entered the mailbox), the reply slot to await, and the timeout
/// state.
pub struct _MessageRequest {
    /// The envelope, until it has been enqueued.
    pub env: Option<Envelope>,
    /// The reply slot this request awaits.
    pub slot: usize,
    /// Virtual deadline for the enqueue.
    pub send_deadline: u64,
    /// Response timeout duration, armed when the envelope is enqueued.
    pub resp_dur: Option<u64>,
    /// Virtual deadline for the response, once armed.
    pub resp_deadline: Option<u64>,
    /// The request has been polled at least once.
    pub polled: bool,
    /// The request has resolved; it must not be polled again.
    pub done: bool,
    /// The request goes through a weak address: it upgrades on each poll
    /// and fails once no strong address is left.
    pub weak: bool,
}

/// The request surface bound to an actor's mailbox.
pub type MessageRequest = _MessageRequest;

/// What awaiting the reply slot yields: the slot's value once fulfilled,
/// "closed" if the slot was dropped, a receive timeout once the armed
/// response deadline has passed, and otherwise nothing yet.
pub open spec fn await_outcome(sys: ActorSystem, slot: int, resp_deadline: Option<u64>) -> Option<
    Result<u64, ActixAsyncError>,
> {
    match sys.slot_spec(slot) {
        SlotState::Filled(v) => Some(Ok(v)),
        SlotState::Closed => Some(Err(ActixAsyncError::Closed)),
        SlotState::Pending => match resp_deadline {
            Some(d) => if sys.now >= d {
                Some(Err(ActixAsyncError::ReceiveTimeout))
            } else {
                None
            },
            None => None,
        },
    }
}

impl _MessageRequest {
    /// Build a request from its envelope and reply slot, with the default
    /// send deadline and no response timeout.
    pub(crate) fn new(env: Envelope, slot: usize, now: u64, weak: bool) -> (r: _MessageRequest)
        ensures
            r.env == Some(env),
            r.slot == slot,
            r.send_deadline == sat_add(now, DEFAULT_TIMEOUT_MS),
            r.resp_dur is None,
            r.resp_deadline is None,
            !r.polled,
            !r.done,
            r.weak == weak,
    {
        _MessageRequest {
            env: Some(env),
            slot,
            send_deadline: crate::message::exec_sat_add(now, DEFAULT_TIMEOUT_MS),
            resp_dur: None,
            resp_deadline: None,
            polled: false,
            done: false,
            weak,
        }
    }

    /// Set the send deadline, measured from now. Allowed only before the
    /// request is first polled.
    pub fn timeout(self, sys: &ActorSystem, dur: u64) -> (r: _MessageRequest)
        requires
            !self.polled,
        ensures
            r == (_MessageRequest { send_deadline: sat_add(sys.now, dur), ..self }),
    {
        _MessageRequest { send_deadline: crate::message::exec_sat_add(sys.now, dur), ..self }
    }

    /// Set the response timeout duration; the deadline is armed when the
    /// envelope enters the mailbox. Allowed only before the request is
    /// first polled.
    pub fn timeout_response(self, dur: u64) -> (r: _MessageRequest)
        requires
            !self.polled,
        ensures
            r == (_MessageRequest { resp_dur: Some(dur), ..self }),
    {
        _MessageRequest { resp_dur: Some(dur), ..self }
    }

    /// Poll the request. In the sending state the envelope is enqueued if
    /// the mailbox has room — failing with `Closed` if the channel is gone
    /// (or, for a weak request, if no strong address is left) and with
    /// `SendTimeout` once the send deadline passes while the mailbox stays
    /// full. Once enqueued, the reply slot is awaited as `await_outcome`
    /// says. `None` means pending.
    pub fn poll(&mut self, sys: &mut ActorSystem) -> (r: Option<Result<u64, ActixAsyncError>>)
        requires
            !old(self).done,
            old(sys).wf(),
        ensures
            final(sys).wf(),
            ActorSystem::step_rel(*old(sys), *final(sys)),
            final(sys).now == old(sys).now,
            final(sys).slots@ == old(sys).slots@,
            final(sys).dispatch_log == old(sys).dispatch_log,
            final(self).polled,
            final(self).done == (r is Some),
            final(self).slot == old(self).slot,
            final(self).send_deadline == old(self).send_deadline,
            final(self).resp_dur == old(self).resp_dur,
            final(self).weak == old(self).weak,
            old(self).env is None ==> final(self).resp_deadline == old(self).resp_deadline
                && *final(sys) == *old(sys) && r == await_outcome(
                *old(sys),
                old(self).slot as int,
                old(self).resp_deadline,
            ),
            old(self).env is Some ==> {
                if (old(self).weak && old(sys).addr_count == 0) || old(sys).closed {
                    r == Some(Err::<u64, ActixAsyncError>(ActixAsyncError::Closed))
                        && *final(sys) == *old(sys)
                } else if old(sys).mailbox@.len() < old(sys).cap {
                    &&& final(sys).mailbox@ == old(sys).mailbox@.push(
                        (Envelope {
                            kind: old(self).env->Some_0.kind,
                            sender: old(self).env->Some_0.sender,
                            seq: Ghost(old(sys).next_seq@),
                        }),
                    )
                    &&& final(self).env is None
                    &&& final(self).resp_deadline == (match old(self).resp_dur {
                        Some(d) => Some(sat_add(old(sys).now, d)),
                        None => None,
                    })
                    &&& r == await_outcome(
                        *final(sys),
                        old(self).slot as int,
                        final(self).resp_deadline,
                    )
                } else if old(sys).now >= old(self).send_deadline {
                    r == Some(Err::<u64, ActixAsyncError>(ActixAsyncError::SendTimeout))
                        && *final(sys) == *old(sys)
                } else {
                    r == None::<Result<u64, ActixAsyncError>> && *final(sys) == *old(sys)
                }
            },
    {
        self.polled = true;
        match self.env.take() {
            Some(env) => {
                if (self.weak && sys.addr_count == 0) || sys.is_closed() {
                    self.done = true;
                    Some(Err(ActixAsyncError::Closed))
                } else if sys.mailbox.len() < sys.cap {
                    sys.enqueue_envelope(env);
                    self.resp_deadline = match self.resp_dur {
                        Some(d) => Some(crate::message::exec_sat_add(sys.now, d)),
                        None => None,
                    };
                    let r = self.await_slot(sys);
                    r
                } else if sys.now >= self.send_deadline {
                    self.env = Some(env);
                    self.done = true;
                    Some(Err(ActixAsyncError::SendTimeout))
                } else {
                    self.env = Some(env);
                    None
                }
            },
            None => {
                let r = self.await_slot(sys);
                r
            },
        }
    }

    /// Read the reply slot, per `await_outcome`.
    fn await_slot(&mut self, sys: &ActorSystem) -> (r: Option<Result<u64, ActixAsyncError>>)
        requires
            !old(self).done,
        ensures
            r == await_outcome(*sys, old(self).slot as int, old(self).resp_deadline),
            final(self).done == (r is Some),
            *final(self) == (_MessageRequest { done: final(self).done, ..*old(self) }),
    {
        let out: Option<Result<u64, ActixAsyncError>> = match sys.slot_state(self.slot) {
            SlotState::Filled(v) => Some(Ok(v)),
            SlotState::Closed => Some(Err(ActixAsyncError::Closed)),
            SlotState::Pending => {
                match self.resp_deadline {
                    Some(d) => {
                        if sys.now >= d {
                            Some(Err(ActixAsyncError::ReceiveTimeout))
                        } else {
                            None
                        }
                    },
                    None => None,
                }
            },
        };
        if out.is_some() {
            self.done = true;
        }
        out
    }
}

} // verus!