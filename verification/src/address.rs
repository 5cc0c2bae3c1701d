//! Addresses: the send side of the actor's mailbox.
//!
//! An `Addr` is a strong handle tagged with a ghost sender id; the system
//! counts strong handles, and when the last one is released the channel
//! closes. A `WeakAddr` upgrades while any strong handle lives. Recipients
//! bind either to one message shape, erasing the rest.

use vstd::prelude::*;

use crate::message::{sat_add, Envelope, EnvKind, MessageBody};
use crate::request::{MessageRequest, _MessageRequest};
use crate::system::{ActorSystem, SlotState, DEFAULT_TIMEOUT_MS};

verus! {

/// A strong address: while at least one exists the mailbox stays open.
#[derive(Clone, Copy)]
pub struct Addr {
    /// Ghost tag identifying this sender in the dispatch history.
    pub id: Ghost<int>,
}

/// A weak address: upgrades while a strong address lives.
#[derive(Clone, Copy)]
pub struct WeakAddr {
    pub id: Ghost<int>,
}

/// Start an actor: build its system and hand back the first strong
/// address. `cap` bounds the mailbox, `size_hint` pre-sizes the concurrent
/// task cache, and the two scripts are the lifecycle hooks run before the
/// first message and after the last.
pub fn start(
    data: u64,
    cap: usize,
    size_hint: usize,
    on_start: MessageBody,
    on_stop: MessageBody,
) -> (r: (ActorSystem, Addr))
    requires
        cap >= 1,
    ensures
        r.0.wf(),
        r.0.data == data,
        r.0.cap == cap,
        r.0.on_start_body == on_start,
        r.0.on_stop_body == on_stop,
        r.0.phase is Starting,
        r.0.act_state is Running,
        r.0.addr_count == 1,
        r.0.now == 0,
        !r.0.closed,
        !r.0.forced,
        !r.0.woken,
        r.0.mailbox@.len() == 0,
        r.0.bg_queue@.len() == 0,
        r.0.slots@.len() == 0,
        r.0.cancels@.len() == 0,
        r.0.future_cache@.len() == 0,
        r.0.stream_cache@.len() == 0,
        r.0.cache_mut is None,
        r.0.drop_notify is None,
        r.0.concurrent_count() == 0,
        !r.0.extra_poll,
        r.0.queue@.len() == 0,
        r.0.sleepers@.len() == 0,
        r.0.bodies@.len() == 0,
        r.0.metas@.len() == 0,
        r.0.last_handle is None,
        r.0.dispatch_log@.len() == 0,
        r.0.msg_status@.dom() =~= Set::<int>::empty(),
        r.0.next_seq@ == 0,
        r.1.id@ == 0,
{
    let sys = ActorSystem::new(data, cap, size_hint, on_start, on_stop);
    (sys, Addr { id: Ghost(0) })
}

/// What a successful send-side call leaves behind: one fresh pending reply
/// slot, everything else untouched.
pub open spec fn sent_request(
    pre: ActorSystem,
    post: ActorSystem,
    req: _MessageRequest,
    sender: int,
    exclusive: bool,
    body: MessageBody,
    weak: bool,
) -> bool {
    &&& post == (ActorSystem { slots: post.slots, ..pre })
    &&& post.slots@ == pre.slots@.push(SlotState::Pending)
    &&& req.slot == pre.slots@.len()
    &&& req.env == Some(
        (Envelope {
            kind: EnvKind::Msg { exclusive, body, reply: Some(pre.slots@.len() as usize) },
            sender: Ghost(sender),
            seq: Ghost(0),
        }),
    )
    &&& req.send_deadline == sat_add(pre.now, DEFAULT_TIMEOUT_MS)
    &&& req.resp_dur is None
    &&& req.resp_deadline is None
    &&& !req.polled
    &&& !req.done
    &&& req.weak == weak
}

impl Addr {
    /// Send a concurrent message: its handler runs with shared access,
    /// interleaved with other concurrent handlers.
    pub fn send(&self, sys: &mut ActorSystem, msg: MessageBody) -> (req: MessageRequest)
        ensures
            old(sys).wf() ==> final(sys).wf(),
            ActorSystem::step_rel(*old(sys), *final(sys)),
            sent_request(*old(sys), *final(sys), req, self.id@, false, msg, false),
    {
        let slot = sys.alloc_slot();
        let env = Envelope {
            kind: EnvKind::Msg { exclusive: false, body: msg, reply: Some(slot) },
            sender: Ghost(self.id@),
            seq: Ghost(0),
        };
        _MessageRequest::new(env, slot, sys.now, false)
    }

    /// Send an exclusive message: its handler runs alone, with mutable
    /// access, and blocks admission of new messages while it is pending.
    pub fn wait(&self, sys: &mut ActorSystem, msg: MessageBody) -> (req: MessageRequest)
        ensures
            old(sys).wf() ==> final(sys).wf(),
            ActorSystem::step_rel(*old(sys), *final(sys)),
            sent_request(*old(sys), *final(sys), req, self.id@, true, msg, false),
    {
        let slot = sys.alloc_slot();
        let env = Envelope {
            kind: EnvKind::Msg { exclusive: true, body: msg, reply: Some(slot) },
            sender: Ghost(self.id@),
            seq: Ghost(0),
        };
        _MessageRequest::new(env, slot, sys.now, false)
    }

    /// Send a concurrent closure, as a script.
    pub fn run(&self, sys: &mut ActorSystem, func: MessageBody) -> (req: MessageRequest)
        ensures
            old(sys).wf() ==> final(sys).wf(),
            ActorSystem::step_rel(*old(sys), *final(sys)),
            sent_request(*old(sys), *final(sys), req, self.id@, false, func, false),
    {
        self.send(sys, func)
    }

    /// Send an exclusive closure, as a script.
    pub fn run_wait(&self, sys: &mut ActorSystem, func: MessageBody) -> (req: MessageRequest)
        ensures
            old(sys).wf() ==> final(sys).wf(),
            ActorSystem::step_rel(*old(sys), *final(sys)),
            sent_request(*old(sys), *final(sys), req, self.id@, true, func, false),
    {
        self.wait(sys, func)
    }

    /// Send a concurrent message and ignore the result: the envelope waits
    /// in the background for mailbox room and carries no reply slot.
    pub fn do_send(&self, sys: &mut ActorSystem, msg: MessageBody)
        ensures
            *final(sys) == (ActorSystem { bg_queue: final(sys).bg_queue, ..*old(sys) }),
            final(sys).bg_queue@ == old(sys).bg_queue@.push(
                (Envelope {
                    kind: EnvKind::Msg { exclusive: false, body: msg, reply: None },
                    sender: Ghost(self.id@),
                    seq: Ghost(0),
                }),
            ),
            old(sys).wf() ==> final(sys).wf(),
            ActorSystem::step_rel(*old(sys), *final(sys)),
    {
        sys.bg_queue.push(
            Envelope {
                kind: EnvKind::Msg { exclusive: false, body: msg, reply: None },
                sender: Ghost(self.id@),
                seq: Ghost(0),
            },
        );
    }

    /// Send an exclusive message and ignore the result.
    pub fn do_wait(&self, sys: &mut ActorSystem, msg: MessageBody)
        ensures
            *final(sys) == (ActorSystem { bg_queue: final(sys).bg_queue, ..*old(sys) }),
            final(sys).bg_queue@ == old(sys).bg_queue@.push(
                (Envelope {
                    kind: EnvKind::Msg { exclusive: true, body: msg, reply: None },
                    sender: Ghost(self.id@),
                    seq: Ghost(0),
                }),
            ),
            old(sys).wf() ==> final(sys).wf(),
            ActorSystem::step_rel(*old(sys), *final(sys)),
    {
        sys.bg_queue.push(
            Envelope {
                kind: EnvKind::Msg { exclusive: true, body: msg, reply: None },
                sender: Ghost(self.id@),
                seq: Ghost(0),
            },
        );
    }

    /// Ask the actor to stop. Graceful: the channel closes and every
    /// message already enqueued is still handled. Forced: the channel
    /// closes and nothing further is dispatched. The request resolves once
    /// the actor has fully stopped.
    pub fn stop(&self, sys: &mut ActorSystem, graceful: bool) -> (req: MessageRequest)
        ensures
            old(sys).wf() ==> final(sys).wf(),
            ActorSystem::step_rel(*old(sys), *final(sys)),
            *final(sys) == (ActorSystem { slots: final(sys).slots, ..*old(sys) }),
            final(sys).slots@ == old(sys).slots@.push(SlotState::Pending),
            req.slot == old(sys).slots@.len(),
            req.env == Some(
                (Envelope {
                    kind: EnvKind::State {
                        force: !graceful,
                        confirm: old(sys).slots@.len() as usize,
                    },
                    sender: Ghost(self.id@),
                    seq: Ghost(0),
                }),
            ),
            req.send_deadline == sat_add(old(sys).now, DEFAULT_TIMEOUT_MS),
            req.resp_dur is None,
            req.resp_deadline is None,
            !req.polled,
            !req.done,
            !req.weak,
    {
        let slot = sys.alloc_slot();
        let env = Envelope {
            kind: EnvKind::State { force: !graceful, confirm: slot },
            sender: Ghost(self.id@),
            seq: Ghost(0),
        };
        _MessageRequest::new(env, slot, sys.now, false)
    }

    /// A weak handle on the same mailbox.
    pub fn downgrade(&self) -> (w: WeakAddr)
        ensures
            w.id == self.id,
    {
        WeakAddr { id: Ghost(self.id@) }
    }

    /// A recipient bound to this address.
    pub fn recipient(&self) -> (r: Recipient)
        ensures
            r.addr == *self,
    {
        Recipient { addr: *self }
    }

    /// A weak recipient: it stays usable exactly as long as some strong
    /// address lives.
    pub fn recipient_weak(&self) -> (r: RecipientWeak)
        ensures
            r.weak.id == self.id,
    {
        RecipientWeak { weak: self.downgrade() }
    }

    /// Give this strong handle up. When the count reaches zero the driver
    /// observes the channel as closed, finishes what is in flight, runs the
    /// stopping hook and ends.
    pub fn release(self, sys: &mut ActorSystem)
        requires
            old(sys).addr_count > 0,
        ensures
            *final(sys) == (ActorSystem {
                addr_count: (old(sys).addr_count - 1) as usize,
                woken: true,
                ..*old(sys)
            }),
            old(sys).wf() ==> final(sys).wf(),
            ActorSystem::step_rel(*old(sys), *final(sys)),
    {
        sys.addr_count = sys.addr_count - 1;
        sys.woken = true;
    }
}

impl WeakAddr {
    /// Upgrade to a strong address, while any strong address lives.
    pub fn upgrade(&self, sys: &mut ActorSystem) -> (r: Option<Addr>)
        ensures
            old(sys).wf() ==> final(sys).wf(),
            ActorSystem::step_rel(*old(sys), *final(sys)),
            old(sys).addr_count > 0 && old(sys).addr_count < usize::MAX ==> r is Some
                && *final(sys) == (ActorSystem {
                addr_count: (old(sys).addr_count + 1) as usize,
                next_sender: final(sys).next_sender,
                ..*old(sys)
            }),
            (old(sys).addr_count == 0 || old(sys).addr_count == usize::MAX) ==> r is None
                && *final(sys) == *old(sys),
    {
        if sys.addr_count > 0 && sys.addr_count < usize::MAX {
            sys.addr_count = sys.addr_count + 1;
            let a = Addr { id: Ghost(sys.next_sender@) };
            proof {
                sys.next_sender@ = sys.next_sender@ + 1;
            }
            Some(a)
        } else {
            None
        }
    }
}

/// The send-side operations a recipient offers, erased over what stands
/// behind them: a strong or a weak address.
pub trait AddrHandler {
    /// Send a concurrent message.
    fn send(&self, sys: &mut ActorSystem, msg: MessageBody) -> (req: MessageRequest)
        ensures
            old(sys).wf() ==> final(sys).wf(),
            ActorSystem::step_rel(*old(sys), *final(sys)),
            *final(sys) == (ActorSystem { slots: final(sys).slots, ..*old(sys) }),
            final(sys).slots@ == old(sys).slots@.push(SlotState::Pending),
            req.slot == old(sys).slots@.len(),
            !req.polled,
            !req.done,
    ;

    /// Send an exclusive message.
    fn wait(&self, sys: &mut ActorSystem, msg: MessageBody) -> (req: MessageRequest)
        ensures
            old(sys).wf() ==> final(sys).wf(),
            ActorSystem::step_rel(*old(sys), *final(sys)),
            *final(sys) == (ActorSystem { slots: final(sys).slots, ..*old(sys) }),
            final(sys).slots@ == old(sys).slots@.push(SlotState::Pending),
            req.slot == old(sys).slots@.len(),
            !req.polled,
            !req.done,
    ;

    /// Send a concurrent message and ignore the result.
    fn do_send(&self, sys: &mut ActorSystem, msg: MessageBody)
        requires
            old(sys).addr_count > 0,
        ensures
            old(sys).wf() ==> final(sys).wf(),
            ActorSystem::step_rel(*old(sys), *final(sys)),
            final(sys).bg_queue@.len() == old(sys).bg_queue@.len() + 1,
    ;

    /// Send an exclusive message and ignore the result.
    fn do_wait(&self, sys: &mut ActorSystem, msg: MessageBody)
        requires
            old(sys).addr_count > 0,
        ensures
            old(sys).wf() ==> final(sys).wf(),
            ActorSystem::step_rel(*old(sys), *final(sys)),
            final(sys).bg_queue@.len() == old(sys).bg_queue@.len() + 1,
    ;
}

impl AddrHandler for Addr {
    fn send(&self, sys: &mut ActorSystem, msg: MessageBody) -> (req: MessageRequest)
        ensures
            sent_request(*old(sys), *final(sys), req, self.id@, false, msg, false),
    {
        Addr::send(self, sys, msg)
    }

    fn wait(&self, sys: &mut ActorSystem, msg: MessageBody) -> (req: MessageRequest)
        ensures
            sent_request(*old(sys), *final(sys), req, self.id@, true, msg, false),
    {
        Addr::wait(self, sys, msg)
    }

    fn do_send(&self, sys: &mut ActorSystem, msg: MessageBody)
        ensures
            final(sys).bg_queue@ == old(sys).bg_queue@.push(
                (Envelope {
                    kind: EnvKind::Msg { exclusive: false, body: msg, reply: None },
                    sender: Ghost(self.id@),
                    seq: Ghost(0),
                }),
            ),
            *final(sys) == (ActorSystem { bg_queue: final(sys).bg_queue, ..*old(sys) }),
    {
        Addr::do_send(self, sys, msg)
    }

    fn do_wait(&self, sys: &mut ActorSystem, msg: MessageBody)
        ensures
            final(sys).bg_queue@ == old(sys).bg_queue@.push(
                (Envelope {
                    kind: EnvKind::Msg { exclusive: true, body: msg, reply: None },
                    sender: Ghost(self.id@),
                    seq: Ghost(0),
                }),
            ),
            *final(sys) == (ActorSystem { bg_queue: final(sys).bg_queue, ..*old(sys) }),
    {
        Addr::do_wait(self, sys, msg)
    }
}

impl AddrHandler for WeakAddr {
    /// A weak send: the request upgrades on each poll and reports "closed"
    /// once no strong address is left.
    fn send(&self, sys: &mut ActorSystem, msg: MessageBody) -> (req: MessageRequest)
        ensures
            sent_request(*old(sys), *final(sys), req, self.id@, false, msg, true),
    {
        let slot = sys.alloc_slot();
        let env = Envelope {
            kind: EnvKind::Msg { exclusive: false, body: msg, reply: Some(slot) },
            sender: Ghost(self.id@),
            seq: Ghost(0),
        };
        _MessageRequest::new(env, slot, sys.now, true)
    }

    /// A weak exclusive send, with the same upgrade-per-poll behaviour.
    fn wait(&self, sys: &mut ActorSystem, msg: MessageBody) -> (req: MessageRequest)
        ensures
            sent_request(*old(sys), *final(sys), req, self.id@, true, msg, true),
    {
        let slot = sys.alloc_slot();
        let env = Envelope {
            kind: EnvKind::Msg { exclusive: true, body: msg, reply: Some(slot) },
            sender: Ghost(self.id@),
            seq: Ghost(0),
        };
        _MessageRequest::new(env, slot, sys.now, true)
    }

    /// Fire-and-forget through a weak address: demanded only while a
    /// strong address lives, matching the strong-handle guarantee the
    /// caller must hold.
    fn do_send(&self, sys: &mut ActorSystem, msg: MessageBody)
        ensures
            final(sys).bg_queue@ == old(sys).bg_queue@.push(
                (Envelope {
                    kind: EnvKind::Msg { exclusive: false, body: msg, reply: None },
                    sender: Ghost(self.id@),
                    seq: Ghost(0),
                }),
            ),
            *final(sys) == (ActorSystem { bg_queue: final(sys).bg_queue, ..*old(sys) }),
    {
        sys.bg_queue.push(
            Envelope {
                kind: EnvKind::Msg { exclusive: false, body: msg, reply: None },
                sender: Ghost(self.id@),
                seq: Ghost(0),
            },
        );
    }

    fn do_wait(&self, sys: &mut ActorSystem, msg: MessageBody)
        ensures
            final(sys).bg_queue@ == old(sys).bg_queue@.push(
                (Envelope {
                    kind: EnvKind::Msg { exclusive: true, body: msg, reply: None },
                    sender: Ghost(self.id@),
                    seq: Ghost(0),
                }),
            ),
            *final(sys) == (ActorSystem { bg_queue: final(sys).bg_queue, ..*old(sys) }),
    {
        sys.bg_queue.push(
            Envelope {
                kind: EnvKind::Msg { exclusive: true, body: msg, reply: None },
                sender: Ghost(self.id@),
                seq: Ghost(0),
            },
        );
    }
}

/// A recipient bound to a strong address.
pub struct Recipient {
    pub addr: Addr,
}

impl AddrHandler for Recipient {
    /// Exactly `Addr::send` on the bound address.
    fn send(&self, sys: &mut ActorSystem, msg: MessageBody) -> (req: MessageRequest)
        ensures
            sent_request(*old(sys), *final(sys), req, self.addr.id@, false, msg, false),
    {
        Addr::send(&self.addr, sys, msg)
    }

    /// Exactly `Addr::wait` on the bound address.
    fn wait(&self, sys: &mut ActorSystem, msg: MessageBody) -> (req: MessageRequest)
        ensures
            sent_request(*old(sys), *final(sys), req, self.addr.id@, true, msg, false),
    {
        Addr::wait(&self.addr, sys, msg)
    }

    fn do_send(&self, sys: &mut ActorSystem, msg: MessageBody)
        ensures
            final(sys).bg_queue@ == old(sys).bg_queue@.push(
                (Envelope {
                    kind: EnvKind::Msg { exclusive: false, body: msg, reply: None },
                    sender: Ghost(self.addr.id@),
                    seq: Ghost(0),
                }),
            ),
            *final(sys) == (ActorSystem { bg_queue: final(sys).bg_queue, ..*old(sys) }),
    {
        Addr::do_send(&self.addr, sys, msg)
    }

    fn do_wait(&self, sys: &mut ActorSystem, msg: MessageBody)
        ensures
            final(sys).bg_queue@ == old(sys).bg_queue@.push(
                (Envelope {
                    kind: EnvKind::Msg { exclusive: true, body: msg, reply: None },
                    sender: Ghost(self.addr.id@),
                    seq: Ghost(0),
                }),
            ),
            *final(sys) == (ActorSystem { bg_queue: final(sys).bg_queue, ..*old(sys) }),
    {
        Addr::do_wait(&self.addr, sys, msg)
    }
}

/// A recipient bound to a weak address: usable as long as the actor and
/// some strong address are alive.
pub struct RecipientWeak {
    pub weak: WeakAddr,
}

impl AddrHandler for RecipientWeak {
    /// A weak request: it fails with "closed" once no strong address
    /// lives.
    fn send(&self, sys: &mut ActorSystem, msg: MessageBody) -> (req: MessageRequest)
        ensures
            sent_request(*old(sys), *final(sys), req, self.weak.id@, false, msg, true),
    {
        AddrHandler::send(&self.weak, sys, msg)
    }

    /// A weak exclusive request.
    fn wait(&self, sys: &mut ActorSystem, msg: MessageBody) -> (req: MessageRequest)
        ensures
            sent_request(*old(sys), *final(sys), req, self.weak.id@, true, msg, true),
    {
        AddrHandler::wait(&self.weak, sys, msg)
    }

    fn do_send(&self, sys: &mut ActorSystem, msg: MessageBody)
        ensures
            final(sys).bg_queue@ == old(sys).bg_queue@.push(
                (Envelope {
                    kind: EnvKind::Msg { exclusive: false, body: msg, reply: None },
                    sender: Ghost(self.weak.id@),
                    seq: Ghost(0),
                }),
            ),
            *final(sys) == (ActorSystem { bg_queue: final(sys).bg_queue, ..*old(sys) }),
    {
        AddrHandler::do_send(&self.weak, sys, msg)
    }

    fn do_wait(&self, sys: &mut ActorSystem, msg: MessageBody)
        ensures
            final(sys).bg_queue@ == old(sys).bg_queue@.push(
                (Envelope {
                    kind: EnvKind::Msg { exclusive: true, body: msg, reply: None },
                    sender: Ghost(self.weak.id@),
                    seq: Ghost(0),
                }),
            ),
            *final(sys) == (ActorSystem { bg_queue: final(sys).bg_queue, ..*old(sys) }),
    {
        AddrHandler::do_wait(&self.weak, sys, msg)
    }
}

} // verus!