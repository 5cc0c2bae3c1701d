//! Concrete runs exercising the engine's guarantees: exclusion, per-sender
//! order, at-most-once replies, graceful drain, forced stop and
//! cancellation.

use actix_async::address::start;
use actix_async::error::ActixAsyncError;
use actix_async::message::{HandlerOp, MessageBody};
use actix_async::system::ActorSystem;

fn drive(sys: &mut ActorSystem) -> bool {
    let mut stopped = sys.tick();
    while sys.is_woken() {
        stopped = sys.tick();
    }
    stopped
}

fn plain_actor(data: u64) -> (ActorSystem, actix_async::address::Addr) {
    start(
        data,
        8,
        8,
        MessageBody { op: HandlerOp::Nop, work: 0 },
        MessageBody { op: HandlerOp::Nop, work: 0 },
    )
}

#[test]
fn exclusive_blocks_later_messages() {
    // an exclusive handler that works for a second: messages sent after it
    // are held back until it completes
    let (mut sys, addr) = plain_actor(0);
    drive(&mut sys);

    let mut excl = addr.wait(&mut sys, MessageBody { op: HandlerOp::Add(10), work: 1000 });
    assert!(excl.poll(&mut sys).is_none());
    let mut conc = addr.send(&mut sys, MessageBody { op: HandlerOp::Add(1), work: 0 });
    assert!(conc.poll(&mut sys).is_none());
    drive(&mut sys);

    // the exclusive script ran, the concurrent one is still waiting
    assert_eq!(sys.data, 10);
    assert!(conc.poll(&mut sys).is_none());

    sys.advance_to(1000);
    drive(&mut sys);
    assert_eq!(sys.data, 11);
    assert_eq!(conc.poll(&mut sys), Some(Ok(0)));
    assert_eq!(excl.poll(&mut sys), Some(Ok(0)));
}

#[test]
fn sends_handled_in_order() {
    // each script replies with the state cell after its own addition:
    // handling in send order gives 1, 3, 7
    let (mut sys, addr) = plain_actor(0);
    drive(&mut sys);

    let mk = |k: u64| MessageBody {
        op: HandlerOp::Chain(Box::new(HandlerOp::Add(k)), Box::new(HandlerOp::ReplyData)),
        work: 0,
    };
    let mut r1 = addr.send(&mut sys, mk(1));
    let mut r2 = addr.send(&mut sys, mk(2));
    let mut r3 = addr.send(&mut sys, mk(4));
    assert!(r1.poll(&mut sys).is_none());
    assert!(r2.poll(&mut sys).is_none());
    assert!(r3.poll(&mut sys).is_none());
    drive(&mut sys);
    assert_eq!(r1.poll(&mut sys), Some(Ok(1)));
    assert_eq!(r2.poll(&mut sys), Some(Ok(3)));
    assert_eq!(r3.poll(&mut sys), Some(Ok(7)));
}

#[test]
fn last_stop_request_owns_the_confirmation() {
    // two stop requests: the later one owns the drop notification, the
    // earlier one's slot closes — each slot resolves exactly once
    let (mut sys, addr) = plain_actor(0);
    drive(&mut sys);

    let mut s1 = addr.stop(&mut sys, true);
    let mut s2 = addr.stop(&mut sys, true);
    assert!(s1.poll(&mut sys).is_none());
    assert!(s2.poll(&mut sys).is_none());
    let stopped = drive(&mut sys);
    assert!(stopped);
    assert_eq!(s1.poll(&mut sys), Some(Err(ActixAsyncError::Closed)));
    assert_eq!(s2.poll(&mut sys), Some(Ok(0)));
}

#[test]
fn graceful_stop_drains_everything() {
    // messages enqueued before a graceful stop are all handled before the
    // actor stops
    let (mut sys, addr) = plain_actor(0);
    drive(&mut sys);

    let mut m1 = addr.send(&mut sys, MessageBody { op: HandlerOp::Add(1), work: 0 });
    let mut m2 = addr.send(&mut sys, MessageBody { op: HandlerOp::Add(2), work: 0 });
    let mut st = addr.stop(&mut sys, true);
    assert!(m1.poll(&mut sys).is_none());
    assert!(m2.poll(&mut sys).is_none());
    assert!(st.poll(&mut sys).is_none());
    let stopped = drive(&mut sys);
    assert!(stopped);
    assert_eq!(sys.data, 3);
    assert_eq!(m1.poll(&mut sys), Some(Ok(0)));
    assert_eq!(m2.poll(&mut sys), Some(Ok(0)));
    assert_eq!(st.poll(&mut sys), Some(Ok(0)));
}

#[test]
fn forced_stop_discards_the_rest() {
    // a message enqueued behind a forced stop is never handled; its
    // request observes "closed"
    let (mut sys, addr) = plain_actor(0);
    drive(&mut sys);

    let mut st = addr.stop(&mut sys, false);
    assert!(st.poll(&mut sys).is_none());
    let mut m = addr.send(&mut sys, MessageBody { op: HandlerOp::Add(1), work: 0 });
    assert!(m.poll(&mut sys).is_none());
    let stopped = drive(&mut sys);
    assert!(stopped);
    assert_eq!(sys.data, 0);
    assert_eq!(m.poll(&mut sys), Some(Err(ActixAsyncError::Closed)));
    assert_eq!(st.poll(&mut sys), Some(Ok(0)));
}

#[test]
fn forced_stop_lets_in_flight_finish() {
    // handlers already dispatched before the forced stop still run to
    // completion before the stopping hook
    let (mut sys, addr) = plain_actor(0);
    drive(&mut sys);

    let mut m = addr.send(&mut sys, MessageBody { op: HandlerOp::ReplyConst(7), work: 1000 });
    assert!(m.poll(&mut sys).is_none());
    drive(&mut sys);

    let mut st = addr.stop(&mut sys, false);
    assert!(st.poll(&mut sys).is_none());
    let stopped = drive(&mut sys);
    // the in-flight handler still works; the actor is not yet stopped
    assert!(!stopped);
    assert!(m.poll(&mut sys).is_none());

    sys.advance_to(1000);
    let stopped = drive(&mut sys);
    assert!(stopped);
    assert_eq!(m.poll(&mut sys), Some(Ok(7)));
}

#[test]
fn cancelled_interval_stops_ticking() {
    let (mut sys, addr) = plain_actor(0);
    drive(&mut sys);

    let mut req = addr.send(
        &mut sys,
        MessageBody {
            op: HandlerOp::Interval {
                period: 500,
                exclusive: false,
                item: Box::new(MessageBody { op: HandlerOp::Add(1), work: 0 }),
            },
            work: 0,
        },
    );
    assert!(req.poll(&mut sys).is_none());
    drive(&mut sys);
    let handle = sys.take_last_handle().expect("interval was scheduled");
    assert!(!handle.is_terminated(&sys));

    sys.advance_to(500);
    drive(&mut sys);
    assert_eq!(sys.data, 1);

    handle.cancel(&mut sys);
    sys.advance_to(5000);
    drive(&mut sys);
    // no tick after the cancellation is observed
    assert_eq!(sys.data, 1);
}

#[test]
fn finite_stream_terminates_its_handle() {
    // a stream bounded to two items yields them and ends; the handle then
    // reports termination
    let (mut sys, addr) = plain_actor(0);
    drive(&mut sys);

    let mut req = addr.send(
        &mut sys,
        MessageBody {
            op: HandlerOp::Attach {
                exclusive: false,
                first_delay: 100,
                period: 100,
                count: Some(2),
                item: Box::new(MessageBody { op: HandlerOp::Add(1), work: 0 }),
            },
            work: 0,
        },
    );
    assert!(req.poll(&mut sys).is_none());
    drive(&mut sys);
    let handle = sys.take_last_handle().expect("stream was attached");
    assert!(!handle.is_terminated(&sys));

    sys.advance_to(1000);
    drive(&mut sys);
    assert_eq!(sys.data, 2);
    assert!(handle.is_terminated(&sys));
}

#[test]
fn send_timeout_on_full_mailbox() {
    // a mailbox of one, blocked behind a pending exclusive handler: a
    // second send cannot enter and times out on the send side
    let (mut sys, addr) = start(
        0,
        1,
        4,
        MessageBody { op: HandlerOp::Nop, work: 0 },
        MessageBody { op: HandlerOp::Nop, work: 0 },
    );
    drive(&mut sys);

    let mut excl = addr.wait(&mut sys, MessageBody { op: HandlerOp::Nop, work: 60000 });
    assert!(excl.poll(&mut sys).is_none());
    drive(&mut sys);

    // the exclusive handler is pending: this envelope stays in the mailbox
    let mut fill = addr.send(&mut sys, MessageBody { op: HandlerOp::Nop, work: 0 });
    assert!(fill.poll(&mut sys).is_none());
    drive(&mut sys);

    let req = addr.send(&mut sys, MessageBody { op: HandlerOp::Nop, work: 0 });
    let mut req = req.timeout(&sys, 2000);
    assert!(req.poll(&mut sys).is_none());
    sys.advance_to(2000);
    drive(&mut sys);
    assert_eq!(req.poll(&mut sys), Some(Err(ActixAsyncError::SendTimeout)));
}

#[test]
fn saturating_script_arithmetic() {
    let (mut sys, addr) = plain_actor(u64::MAX - 1);
    drive(&mut sys);

    let mut r = addr.send(
        &mut sys,
        MessageBody {
            op: HandlerOp::Chain(Box::new(HandlerOp::Add(5)), Box::new(HandlerOp::ReplyData)),
            work: 0,
        },
    );
    assert!(r.poll(&mut sys).is_none());
    drive(&mut sys);
    assert_eq!(r.poll(&mut sys), Some(Ok(u64::MAX)));

    let mut r = addr.send(
        &mut sys,
        MessageBody {
            op: HandlerOp::Chain(Box::new(HandlerOp::Sub(3)), Box::new(HandlerOp::ReplyData)),
            work: 0,
        },
    );
    assert!(r.poll(&mut sys).is_none());
    drive(&mut sys);
    assert_eq!(r.poll(&mut sys), Some(Ok(u64::MAX - 3)));
}

#[test]
fn context_stop_and_address() {
    let (mut sys, addr) = plain_actor(3);
    drive(&mut sys);

    let ctx = actix_async::context::Context::new();
    let self_addr = ctx.address(&mut sys).expect("channel is open");
    let mut req = self_addr.send(
        &mut sys,
        MessageBody { op: HandlerOp::ReplyData, work: 0 },
    );
    assert!(req.poll(&mut sys).is_none());
    drive(&mut sys);
    assert_eq!(req.poll(&mut sys), Some(Ok(3)));

    ctx.stop(&mut sys);
    assert!(ctx.address(&mut sys).is_none());
    self_addr.release(&mut sys);
    addr.release(&mut sys);
    let stopped = drive(&mut sys);
    assert!(stopped);
}

#[test]
fn greedy_stream_does_not_starve_the_mailbox() {
    // a stream that is always ready injects concurrent work without pause;
    // the per-cycle caps and the driver's self-wake keep the mailbox served
    let (mut sys, addr) = plain_actor(0);
    drive(&mut sys);

    let mut req = addr.send(
        &mut sys,
        MessageBody {
            op: HandlerOp::Attach {
                exclusive: false,
                first_delay: 0,
                period: 0,
                count: None,
                item: Box::new(MessageBody { op: HandlerOp::Add(1), work: 0 }),
            },
            work: 0,
        },
    );
    assert!(req.poll(&mut sys).is_none());
    sys.tick();

    let mut probe = addr.send(&mut sys, MessageBody { op: HandlerOp::ReplyConst(42), work: 0 });
    assert!(probe.poll(&mut sys).is_none());
    let mut got = None;
    for _ in 0..20 {
        sys.tick();
        if let Some(r) = probe.poll(&mut sys) {
            got = Some(r);
            break;
        }
    }
    assert_eq!(got, Some(Ok(42)));
    // the stream made progress the whole time
    assert!(sys.data > 16);
}

#[test]
fn default_send_deadline_is_ten_seconds() {
    // a mailbox of one stays full behind a pending exclusive handler; an
    // unconfigured request times out on the send side at the default
    // deadline
    let (mut sys, addr) = start(
        0,
        1,
        4,
        MessageBody { op: HandlerOp::Nop, work: 0 },
        MessageBody { op: HandlerOp::Nop, work: 0 },
    );
    drive(&mut sys);

    let mut excl = addr.wait(&mut sys, MessageBody { op: HandlerOp::Nop, work: 60000 });
    assert!(excl.poll(&mut sys).is_none());
    drive(&mut sys);
    let mut fill = addr.send(&mut sys, MessageBody { op: HandlerOp::Nop, work: 0 });
    assert!(fill.poll(&mut sys).is_none());
    drive(&mut sys);

    let mut req = addr.send(&mut sys, MessageBody { op: HandlerOp::Nop, work: 0 });
    assert!(req.poll(&mut sys).is_none());
    sys.advance_to(9999);
    drive(&mut sys);
    assert!(req.poll(&mut sys).is_none());
    sys.advance_to(10000);
    drive(&mut sys);
    assert_eq!(req.poll(&mut sys), Some(Err(ActixAsyncError::SendTimeout)));
}

#[test]
fn weak_address_upgrades_while_strong_lives() {
    let (mut sys, addr) = plain_actor(5);
    drive(&mut sys);

    let weak = addr.downgrade();
    let strong = weak.upgrade(&mut sys).expect("a strong address lives");
    let mut req = strong.send(&mut sys, MessageBody { op: HandlerOp::ReplyData, work: 0 });
    assert!(req.poll(&mut sys).is_none());
    drive(&mut sys);
    assert_eq!(req.poll(&mut sys), Some(Ok(5)));

    strong.release(&mut sys);
    addr.release(&mut sys);
    drive(&mut sys);
    assert!(weak.upgrade(&mut sys).is_none());
}
