//! The ways in which an operation on the queue can fail.

use vstd::prelude::*;

verus! {

/// Why a non-blocking send did not take the value. The value comes back inside
/// the error, untouched.
#[derive(Debug, PartialEq, Eq)]
pub enum TrySendError<T> {
    /// The queue has no room. An unbounded queue never reports this.
    Full(T),
    /// The queue has been closed.
    Disconnected(T),
}

/// Why a send with a deadline did not take the value.
#[derive(Debug, PartialEq, Eq)]
pub enum SendTimeoutError<T> {
    /// The deadline passed while the queue had no room. An unbounded queue
    /// never reports this.
    Timeout(T),
    /// The queue has been closed.
    Disconnected(T),
}

/// Why a non-blocking receive came back without a value.
#[derive(Debug, Clone, Copy, PartialEq, Eq)]
pub enum TryRecvError {
    /// Nothing is queued right now; the queue is still open.
    Empty,
    /// Nothing is queued and the queue has been closed.
    Disconnected,
}

/// Why a receive with a deadline came back without a value.
#[derive(Debug, Clone, Copy, PartialEq, Eq)]
pub enum RecvTimeoutError {
    /// The deadline passed while the queue was empty and open.
    Timeout,
    /// Nothing is queued and the queue has been closed.
    Disconnected,
}

impl<T> TrySendError<T> {
    /// The value that was not sent.
    pub open spec fn value(self) -> T {
        match self {
            TrySendError::Full(v) => v,
            TrySendError::Disconnected(v) => v,
        }
    }

    /// The same failure as seen by a send with a deadline. A queue that is
    /// never full fails in one way only.
    pub fn into_timeout_error(self) -> (e: SendTimeoutError<T>)
        requires
            self is Disconnected,
        ensures
            e == SendTimeoutError::Disconnected(self.value()),
    {
        match self {
            TrySendError::Disconnected(v) => SendTimeoutError::Disconnected(v),
            TrySendError::Full(v) => SendTimeoutError::Timeout(v),
        }
    }
}

} // verus!
