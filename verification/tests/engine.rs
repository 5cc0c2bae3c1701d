//! Scenario tests driving the engine through the address, request and
//! context surfaces with the virtual clock.

use actix_async::address::{start, Addr, AddrHandler};
use actix_async::error::ActixAsyncError;
use actix_async::message::{HandlerOp, MessageBody};
use actix_async::system::ActorSystem;

/// Tick the driver until it stops asking to be polled again. Returns
/// whether the actor has fully stopped.
fn pump(sys: &mut ActorSystem) -> bool {
    let mut stopped = sys.tick();
    while sys.is_woken() {
        stopped = sys.tick();
    }
    stopped
}

/// An actor with the test fixture's shape: state cell `996`, whose starting
/// hook adds one and takes it away again.
fn test_actor() -> (ActorSystem, Addr) {
    start(
        996,
        8,
        8,
        MessageBody {
            op: HandlerOp::Chain(Box::new(HandlerOp::Add(1)), Box::new(HandlerOp::Sub(1))),
            work: 0,
        },
        MessageBody { op: HandlerOp::Nop, work: 0 },
    )
}

fn reply_data() -> MessageBody {
    MessageBody { op: HandlerOp::ReplyData, work: 0 }
}

fn reply_251() -> MessageBody {
    MessageBody { op: HandlerOp::ReplyConst(251), work: 0 }
}

#[test]
fn stop_graceful() {
    let (mut sys, addr) = test_actor();
    pump(&mut sys);

    let mut req = addr.stop(&mut sys, true);
    assert!(req.poll(&mut sys).is_none());
    let stopped = pump(&mut sys);
    assert!(stopped);
    let res = req.poll(&mut sys).expect("stop must resolve");
    assert!(res.is_ok());

    let mut req2 = addr.send(&mut sys, reply_data());
    let res2 = req2.poll(&mut sys).expect("send on stopped actor resolves");
    assert!(res2.is_err());
}

#[test]
fn run_future() {
    let (mut sys, addr) = test_actor();

    let mut req = addr.run(&mut sys, MessageBody { op: HandlerOp::ReplyConst(123), work: 0 });
    assert!(req.poll(&mut sys).is_none());
    pump(&mut sys);
    assert_eq!(req.poll(&mut sys), Some(Ok(123)));

    let mut req = addr.run_wait(&mut sys, MessageBody { op: HandlerOp::ReplyConst(321), work: 0 });
    assert!(req.poll(&mut sys).is_none());
    pump(&mut sys);
    assert_eq!(req.poll(&mut sys), Some(Ok(321)));
}

#[test]
fn run_interval() {
    // counter starts at zero; the handler schedules an interval every
    // 500 ms that adds one
    let (mut sys, addr) = start(
        0,
        8,
        8,
        MessageBody { op: HandlerOp::Nop, work: 0 },
        MessageBody { op: HandlerOp::Nop, work: 0 },
    );
    let tick_msg = MessageBody { op: HandlerOp::Add(1), work: 0 };
    let mut req = addr.send(
        &mut sys,
        MessageBody {
            op: HandlerOp::Interval { period: 500, exclusive: false, item: Box::new(tick_msg) },
            work: 0,
        },
    );
    assert!(req.poll(&mut sys).is_none());
    pump(&mut sys);
    assert!(req.poll(&mut sys).is_some());
    let handle = sys.take_last_handle().expect("interval was scheduled");

    sys.advance_to(500);
    pump(&mut sys);
    sys.advance_to(1000);
    pump(&mut sys);
    sys.advance_to(1250);
    pump(&mut sys);
    handle.cancel(&mut sys);
    sys.advance_to(2500);
    pump(&mut sys);
    assert_eq!(sys.data, 2);
}

#[test]
fn run_wait_interval_counts_too() {
    let (mut sys, addr) = start(
        0,
        8,
        8,
        MessageBody { op: HandlerOp::Nop, work: 0 },
        MessageBody { op: HandlerOp::Nop, work: 0 },
    );
    let tick_msg = MessageBody { op: HandlerOp::Add(1), work: 0 };
    let mut req = addr.wait(
        &mut sys,
        MessageBody {
            op: HandlerOp::Interval { period: 500, exclusive: true, item: Box::new(tick_msg) },
            work: 0,
        },
    );
    assert!(req.poll(&mut sys).is_none());
    pump(&mut sys);
    let handle = sys.take_last_handle().expect("interval was scheduled");

    sys.advance_to(1250);
    pump(&mut sys);
    handle.cancel(&mut sys);
    sys.advance_to(2500);
    pump(&mut sys);
    assert_eq!(sys.data, 2);
}

#[test]
fn test_timeout() {
    let (mut sys, addr) = test_actor();
    pump(&mut sys);

    // handler works for two seconds; both timeouts are one second
    let req = addr.send(&mut sys, MessageBody { op: HandlerOp::ReplyData, work: 2000 });
    let mut req = req.timeout(&sys, 1000).timeout_response(1000);
    assert!(req.poll(&mut sys).is_none());
    pump(&mut sys);
    sys.advance_to(500);
    pump(&mut sys);
    assert!(req.poll(&mut sys).is_none());
    sys.advance_to(1000);
    pump(&mut sys);
    let res = req.poll(&mut sys).expect("deadline passed");
    assert_eq!(res, Err(ActixAsyncError::ReceiveTimeout));
}

#[test]
fn test_recipient() {
    let (mut sys, addr) = test_actor();
    pump(&mut sys);

    let re = addr.recipient();
    let mut req = re.send(&mut sys, reply_data());
    assert!(req.poll(&mut sys).is_none());
    pump(&mut sys);
    assert_eq!(req.poll(&mut sys), Some(Ok(996)));

    let mut req = re.wait(&mut sys, reply_251());
    assert!(req.poll(&mut sys).is_none());
    pump(&mut sys);
    assert_eq!(req.poll(&mut sys), Some(Ok(251)));

    drop(re);

    let re = addr.recipient_weak();
    let mut req = re.send(&mut sys, reply_data());
    assert!(req.poll(&mut sys).is_none());
    pump(&mut sys);
    assert_eq!(req.poll(&mut sys), Some(Ok(996)));

    let mut req = re.wait(&mut sys, reply_251());
    assert!(req.poll(&mut sys).is_none());
    pump(&mut sys);
    assert_eq!(req.poll(&mut sys), Some(Ok(251)));

    addr.release(&mut sys);
    pump(&mut sys);

    let mut req = re.send(&mut sys, reply_data());
    assert_eq!(req.poll(&mut sys), Some(Err(ActixAsyncError::Closed)));
}

#[test]
fn test_delay() {
    let (mut sys, addr) = test_actor();
    pump(&mut sys);

    // the handler schedules an exclusive one-shot 500 ms out that adds one
    let delay_msg = || MessageBody {
        op: HandlerOp::Later {
            delay: 500,
            exclusive: true,
            item: Box::new(MessageBody { op: HandlerOp::Add(1), work: 0 }),
        },
        work: 0,
    };

    let mut req = addr.send(&mut sys, delay_msg());
    assert!(req.poll(&mut sys).is_none());
    pump(&mut sys);
    assert!(req.poll(&mut sys).is_some());
    let _handle = sys.take_last_handle().expect("delay was scheduled");

    sys.advance_to(300);
    pump(&mut sys);
    let mut req = addr.send(&mut sys, reply_data());
    assert!(req.poll(&mut sys).is_none());
    pump(&mut sys);
    assert_eq!(req.poll(&mut sys), Some(Ok(996)));

    sys.advance_to(600);
    pump(&mut sys);
    let mut req = addr.send(&mut sys, reply_data());
    assert!(req.poll(&mut sys).is_none());
    pump(&mut sys);
    assert_eq!(req.poll(&mut sys), Some(Ok(997)));

    let mut req = addr.send(&mut sys, delay_msg());
    assert!(req.poll(&mut sys).is_none());
    pump(&mut sys);
    assert!(req.poll(&mut sys).is_some());
    let handle = sys.take_last_handle().expect("delay was scheduled");

    sys.advance_to(1000);
    handle.cancel(&mut sys);
    sys.advance_to(1300);
    pump(&mut sys);
    let mut req = addr.send(&mut sys, reply_data());
    assert!(req.poll(&mut sys).is_none());
    pump(&mut sys);
    assert_eq!(req.poll(&mut sys), Some(Ok(997)));
}

#[test]
fn test_stream() {
    // a stream that yields an add-one message immediately and then every
    // 500 ms, attached from an exclusive handler
    let (mut sys, addr) = start(
        0,
        8,
        8,
        MessageBody { op: HandlerOp::Nop, work: 0 },
        MessageBody { op: HandlerOp::Nop, work: 0 },
    );
    let mut req = addr.run_wait(
        &mut sys,
        MessageBody {
            op: HandlerOp::Attach {
                exclusive: false,
                first_delay: 0,
                period: 500,
                count: None,
                item: Box::new(MessageBody { op: HandlerOp::Add(1), work: 0 }),
            },
            work: 0,
        },
    );
    assert!(req.poll(&mut sys).is_none());
    pump(&mut sys);
    assert!(req.poll(&mut sys).is_some());
    let handle = sys.take_last_handle().expect("stream was attached");

    sys.advance_to(500);
    pump(&mut sys);
    sys.advance_to(750);
    pump(&mut sys);
    handle.cancel(&mut sys);
    sys.advance_to(1750);
    pump(&mut sys);
    assert_eq!(sys.data, 2);
}

#[test]
fn test_capacity() {
    // mailbox and cache hint of four; handlers add one and then work for
    // three seconds
    let (mut sys, addr) = start(
        0,
        4,
        4,
        MessageBody { op: HandlerOp::Nop, work: 0 },
        MessageBody { op: HandlerOp::Nop, work: 0 },
    );
    pump(&mut sys);

    let mut reqs = Vec::new();
    for _ in 0..4 {
        let mut req = addr.send(&mut sys, MessageBody { op: HandlerOp::Add(1), work: 3000 });
        assert!(req.poll(&mut sys).is_none());
        reqs.push(req);
    }
    pump(&mut sys);
    // all four handlers have run their scripts before any completes
    assert_eq!(sys.data, 4);
    for req in reqs.iter_mut() {
        assert!(req.poll(&mut sys).is_none());
    }

    sys.advance_to(3000);
    pump(&mut sys);
    for req in reqs.iter_mut() {
        assert_eq!(req.poll(&mut sys), Some(Ok(0)));
    }

    addr.do_send(&mut sys, MessageBody { op: HandlerOp::FetchInc, work: 0 });
    pump(&mut sys);
    let mut req = addr.send(&mut sys, MessageBody { op: HandlerOp::FetchInc, work: 0 });
    assert!(req.poll(&mut sys).is_none());
    pump(&mut sys);
    assert_eq!(req.poll(&mut sys), Some(Ok(5)));
    assert_eq!(sys.data, 6);
    assert!(sys.now >= 3000);
}
