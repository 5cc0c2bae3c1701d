//! Errors surfaced through a message request.

use vstd::prelude::*;

verus! {

/// Why a message request failed.
#[derive(Clone, Copy, PartialEq, Eq, Structural, Debug)]
pub enum ActixAsyncError {
    /// The mailbox is closed or the reply slot was dropped unfulfilled.
    Closed,
    /// The message could not be enqueued before the send deadline.
    SendTimeout,
    /// The reply did not arrive before the response deadline.
    ReceiveTimeout,
    /// Kept for callers of the older request surface; the engine itself
    /// reports the two specific timeouts above.
    Timeout,
}

} // verus!
