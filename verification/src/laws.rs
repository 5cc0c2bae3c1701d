//! The engine's laws, as proof functions over the system invariant and the
//! step relation. Each states a guarantee of the whole engine, proved from
//! what the operations' contracts record in the ghost history.

use vstd::prelude::*;

use crate::system::{src_is_mailbox, src_seq, src_sender, ActorSystem, DispatchSrc};

verus! {

/// Exclusion: while an exclusive handler is running, no concurrent handler
/// task is resident in the driver — the exclusive handler runs alone.
pub proof fn lemma_exclusion(sys: ActorSystem)
    requires
        sys.wf(),
        sys.ex_started(),
    ensures
        sys.concurrent_count() == 0,
{
}

/// Order: mailbox messages are dispatched in enqueue order — in particular,
/// for any single sender, messages are handled in the order that sender's
/// sends entered the mailbox.
pub proof fn lemma_send_order(sys: ActorSystem, d: int, e: int)
    requires
        sys.wf(),
        0 <= d < e < sys.dispatch_log@.len(),
        src_is_mailbox(sys.dsrc(d)),
        src_is_mailbox(sys.dsrc(e)),
        src_sender(sys.dsrc(d)) == src_sender(sys.dsrc(e)),
    ensures
        src_seq(sys.dsrc(d)) < src_seq(sys.dsrc(e)),
{
}

/// At-most-once reply: a reply slot that has resolved — fulfilled with a
/// value or closed — never changes again across any engine step, so it is
/// never fulfilled twice nor both fulfilled and closed.
pub proof fn lemma_reply_at_most_once(pre: ActorSystem, post: ActorSystem, i: int)
    requires
        ActorSystem::step_rel(pre, post),
        0 <= i < pre.slots@.len(),
        !(pre.slots@[i] is Pending),
    ensures
        post.slots@[i] == pre.slots@[i],
{
}

/// Graceful drain: when the driver reaches the stopping phase without a
/// forced stop, every message that was ever enqueued has been dispatched —
/// none is still queued and none was discarded. The stopping hook only
/// runs in the stopping phase, so all of them were handled before it.
pub proof fn lemma_graceful_drain(sys: ActorSystem, s: int)
    requires
        sys.wf(),
        sys.phase is Stopping || sys.phase is Stopped,
        !sys.forced,
        sys.tracks(s),
    ensures
        sys.status_of(s) is Dispatched,
{
    if sys.status_of(s) is Queued {
        assert(sys.in_queue(s));
        assert(false);
    }
}

/// Forced stop: a message discarded by a forced stop never appears in the
/// dispatch history — it is never handled.
pub proof fn lemma_forced_stop(sys: ActorSystem, s: int, d: int)
    requires
        sys.wf(),
        sys.tracks(s),
        sys.status_of(s) is Discarded,
        0 <= d < sys.dispatch_log@.len(),
        src_is_mailbox(sys.dsrc(d)),
    ensures
        src_seq(sys.dsrc(d)) != s,
{
}

/// Stopping is final: once the driver is stopping or stopped, no further
/// message is dispatched by any engine step.
pub proof fn lemma_no_dispatch_after_stop(pre: ActorSystem, post: ActorSystem)
    requires
        ActorSystem::step_rel(pre, post),
        pre.phase is Stopping || pre.phase is Stopped,
    ensures
        post.dispatch_log@ == pre.dispatch_log@,
{
}

/// Cancellation: once a scheduled task's cell is cancelled, no engine step
/// dispatches from that timer or stream again — cancellation is observable
/// before the next dispatch.
pub proof fn lemma_cancel_silences(pre: ActorSystem, post: ActorSystem, cell: int, d: int)
    requires
        ActorSystem::step_rel(pre, post),
        0 <= cell < pre.cancels@.len(),
        pre.cancels@[cell].cancelled,
        pre.dispatch_log@.len() <= d < post.dispatch_log@.len(),
    ensures
        post.dispatch_log@[d] != (DispatchSrc::Timer { cell }),
        post.dispatch_log@[d] != (DispatchSrc::Stream { cell }),
{
    assert(ActorSystem::src_allowed(pre, post.dispatch_log@[d]));
}

/// Dispatch is permanent: history only grows, and what was dispatched
/// stays dispatched.
pub proof fn lemma_history_monotone(pre: ActorSystem, post: ActorSystem, s: int)
    requires
        ActorSystem::step_rel(pre, post),
        pre.tracks(s),
        pre.status_of(s) is Dispatched,
    ensures
        post.tracks(s),
        post.status_of(s) is Dispatched,
        pre.dispatch_log@.is_prefix_of(post.dispatch_log@),
{
}

} // verus!