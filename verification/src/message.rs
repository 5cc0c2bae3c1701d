//! Scripted message handlers.
//!
//! The engine is deterministic: a handler is not arbitrary user code but a
//! small script over the actor's `u64` state cell. A script runs when the
//! task built from it is first polled; the task then "works" for a virtual
//! duration before it completes and fulfils its reply slot. This keeps every
//! poll outcome a function of the system state and the virtual clock.

use vstd::prelude::*;

verus! {

/// One step of a handler script.
///
/// Arithmetic on the state cell saturates at the type bounds, so a script
/// can never make the engine panic.
pub enum HandlerOp {
    /// Do nothing.
    Nop,
    /// Saturating add to the state cell.
    Add(u64),
    /// Saturating subtract from the state cell.
    Sub(u64),
    /// Reply with the current value of the state cell.
    ReplyData,
    /// Reply with a constant.
    ReplyConst(u64),
    /// Reply with the current value, then add one to it.
    FetchInc,
    /// Ask the context to stop the actor gracefully.
    ContextStop,
    /// Schedule a one-shot message after `delay` on the context.
    Later { delay: u64, exclusive: bool, item: Box<MessageBody> },
    /// Schedule a repeating message every `period` on the context.
    Interval { period: u64, exclusive: bool, item: Box<MessageBody> },
    /// Attach a stream of messages to the context.
    Attach {
        exclusive: bool,
        first_delay: u64,
        period: u64,
        count: Option<u64>,
        item: Box<MessageBody>,
    },
    /// Run two steps in order.
    Chain(Box<HandlerOp>, Box<HandlerOp>),
}

/// A message payload: the script to run and the virtual duration the handler
/// works for after the script has run, before its reply is delivered.
pub struct MessageBody {
    pub op: HandlerOp,
    pub work: u64,
}

/// `a + b`, saturating at `u64::MAX`.
pub open spec fn sat_add(a: u64, b: u64) -> u64 {
    if a + b > u64::MAX {
        u64::MAX
    } else {
        (a + b) as u64
    }
}

/// `a - b`, saturating at zero.
pub open spec fn sat_sub(a: u64, b: u64) -> u64 {
    if a >= b {
        (a - b) as u64
    } else {
        0u64
    }
}

/// The value of the state cell after a script runs on `data`.
pub open spec fn op_data(op: HandlerOp, data: u64) -> u64
    decreases op,
{
    match op {
        HandlerOp::Add(v) => sat_add(data, v),
        HandlerOp::Sub(v) => sat_sub(data, v),
        HandlerOp::FetchInc => sat_add(data, 1),
        HandlerOp::Chain(a, b) => op_data(*b, op_data(*a, data)),
        _ => data,
    }
}

/// The reply a script produces when run on `data`, if it produces one.
/// In a chain the later reply wins.
pub open spec fn op_reply(op: HandlerOp, data: u64) -> Option<u64>
    decreases op,
{
    match op {
        HandlerOp::ReplyData => Some(data),
        HandlerOp::ReplyConst(v) => Some(v),
        HandlerOp::FetchInc => Some(data),
        HandlerOp::Chain(a, b) => match op_reply(*b, op_data(*a, data)) {
            Some(v) => Some(v),
            None => op_reply(*a, data),
        },
        _ => None,
    }
}

/// How many tasks a script schedules on the context: each one-shot,
/// interval or attached stream gets its own cancellation cell.
pub open spec fn op_sched_count(op: HandlerOp) -> nat
    decreases op,
{
    match op {
        HandlerOp::Later { .. } => 1,
        HandlerOp::Interval { .. } => 1,
        HandlerOp::Attach { .. } => 1,
        HandlerOp::Chain(a, b) => op_sched_count(*a) + op_sched_count(*b),
        _ => 0,
    }
}

/// The value a reply slot is fulfilled with: the script's reply, or zero for
/// a handler whose result type carries no information.
pub open spec fn op_reply_value(op: HandlerOp, data: u64) -> u64 {
    match op_reply(op, data) {
        Some(v) => v,
        None => 0u64,
    }
}

/// What a mailbox envelope carries.
pub enum EnvKind {
    /// A message for the actor: its payload, whether it must run
    /// exclusively, and the reply slot to fulfil, if any.
    Msg { exclusive: bool, body: MessageBody, reply: Option<usize> },
    /// A stop request: forced or graceful, with the slot to fulfil once the
    /// actor has finished shutting down.
    State { force: bool, confirm: usize },
}

/// An envelope travelling through the mailbox. The sender tag and sequence
/// number are ghost bookkeeping: the sequence number is assigned when the
/// envelope enters the queue and orders deliveries.
pub struct Envelope {
    pub kind: EnvKind,
    pub sender: Ghost<int>,
    pub seq: Ghost<int>,
}

impl Envelope {
    /// Whether this envelope is a message (as opposed to a stop request).
    pub open spec fn is_msg(self) -> bool {
        match self.kind {
            EnvKind::Msg { .. } => true,
            EnvKind::State { .. } => false,
        }
    }
}

impl HandlerOp {
    /// A deep copy of the script.
    pub fn duplicate(&self) -> (r: HandlerOp)
        ensures
            r == *self,
        decreases *self,
    {
        match self {
            HandlerOp::Nop => HandlerOp::Nop,
            HandlerOp::Add(v) => HandlerOp::Add(*v),
            HandlerOp::Sub(v) => HandlerOp::Sub(*v),
            HandlerOp::ReplyData => HandlerOp::ReplyData,
            HandlerOp::ReplyConst(v) => HandlerOp::ReplyConst(*v),
            HandlerOp::FetchInc => HandlerOp::FetchInc,
            HandlerOp::ContextStop => HandlerOp::ContextStop,
            HandlerOp::Later { delay, exclusive, item } => HandlerOp::Later {
                delay: *delay,
                exclusive: *exclusive,
                item: Box::new(item.duplicate()),
            },
            HandlerOp::Interval { period, exclusive, item } => HandlerOp::Interval {
                period: *period,
                exclusive: *exclusive,
                item: Box::new(item.duplicate()),
            },
            HandlerOp::Attach { exclusive, first_delay, period, count, item } => {
                HandlerOp::Attach {
                    exclusive: *exclusive,
                    first_delay: *first_delay,
                    period: *period,
                    count: *count,
                    item: Box::new(item.duplicate()),
                }
            },
            HandlerOp::Chain(a, b) => HandlerOp::Chain(
                Box::new(a.duplicate()),
                Box::new(b.duplicate()),
            ),
        }
    }
}

impl MessageBody {
    /// A deep copy of the payload.
    pub fn duplicate(&self) -> (r: MessageBody)
        ensures
            r == *self,
        decreases *self,
    {
        MessageBody { op: self.op.duplicate(), work: self.work }
    }
}

/// Executable saturating add, proved against `sat_add`.
pub fn exec_sat_add(a: u64, b: u64) -> (r: u64)
    ensures
        r == sat_add(a, b),
{
    if b <= u64::MAX - a {
        a + b
    } else {
        u64::MAX
    }
}

/// Executable saturating subtract, proved against `sat_sub`.
pub fn exec_sat_sub(a: u64, b: u64) -> (r: u64)
    ensures
        r == sat_sub(a, b),
{
    if a >= b {
        a - b
    } else {
        0
    }
}

} // verus!
