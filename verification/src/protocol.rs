//! The decisions of the queue's three protocols, apart from the memory they
//! run on.
//!
//! A sender, a receiver and a blocked receiver each alternate between one
//! atomic access to the shared chain and a decision about the next access.
//! The decisions are the functions of this file. They never look inside a
//! handle, so `H` may be whatever names a node: an index into an arena, or a
//! pointer under the protection of a reclamation scheme.

use vstd::prelude::*;
use crate::error::{RecvTimeoutError, TryRecvError};

verus! {

/// Where a protocol stands after one step: at its next step, or at its end.
#[derive(Debug, PartialEq, Eq)]
pub enum Progress<S, R> {
    /// The step to take next.
    Next(S),
    /// The protocol is over, with this result.
    Done(R),
}

/// The next access of a sender that holds a node it has not linked yet.
#[derive(Debug, PartialEq, Eq)]
pub enum SendStep<H> {
    /// Read the successor of `at`.
    Inspect { at: H },
    /// Try to install the new node as the successor of `at`, which had none
    /// when it was last inspected.
    Link { at: H },
    /// The tail fell behind: try to move it from `from` to its successor `to`.
    Help { from: H, to: H },
}

impl<H> SendStep<H> {
    /// A send starts by inspecting the node that the tail refers to.
    pub fn begin(tail: H) -> (step: SendStep<H>)
        ensures
            step == (SendStep::Inspect { at: tail }),
    {
        SendStep::Inspect { at: tail }
    }

    /// After `Inspect { at }` has read `successor`: a node without successor is
    /// the end of the chain, where the new node belongs; otherwise the tail
    /// lags and is helped forward.
    pub fn inspected(at: H, successor: Option<H>) -> (step: SendStep<H>)
        ensures
            successor is None ==> step == (SendStep::Link { at }),
            successor is Some ==> step == (SendStep::Help { from: at, to: successor->0 }),
    {
        match successor {
            None => SendStep::Link { at },
            Some(to) => SendStep::Help { from: at, to },
        }
    }

    /// After `Link { at }` has failed and `actual` is the successor that `at`
    /// has now. If there is still none, the failure was spurious and the same
    /// step is tried again with the same node. Otherwise another sender won:
    /// the decision starts over from the node it installed.
    pub fn link_failed(at: H, actual: Option<H>) -> (step: SendStep<H>)
        ensures
            actual is None ==> step == (SendStep::Link { at }),
            actual is Some ==> step == (SendStep::Inspect { at: actual->0 }),
    {
        match actual {
            None => SendStep::Link { at },
            Some(winner) => SendStep::Inspect { at: winner },
        }
    }

    /// After `Help { from, to }`. If the tail moved, the sender goes on from
    /// `to`; if not, from the tail that the failed exchange reported.
    pub fn helped(to: H, outcome: Result<(), H>) -> (step: SendStep<H>)
        ensures
            outcome is Ok ==> step == (SendStep::Inspect { at: to }),
            outcome is Err ==> step == (SendStep::Inspect { at: outcome->Err_0 }),
    {
        match outcome {
            Ok(()) => SendStep::Inspect { at: to },
            Err(tail) => SendStep::Inspect { at: tail },
        }
    }
}

/// The next access of a receiver.
#[derive(Debug, PartialEq, Eq)]
pub enum RecvStep<H> {
    /// Read the successor of `at`, the sentinel as this receiver knows it.
    Inspect { at: H },
    /// A value is queued: try to move the head from the sentinel `from` to its
    /// successor `to`. Whoever succeeds owns the value in `to`.
    Unlink { from: H, to: H },
    /// The sentinel has no successor: read the closed flag and report.
    Vacant,
}

impl<H> RecvStep<H> {
    /// A receive starts by inspecting the node that the head refers to.
    pub fn begin(head: H) -> (step: RecvStep<H>)
        ensures
            step == (RecvStep::Inspect { at: head }),
    {
        RecvStep::Inspect { at: head }
    }

    /// After `Inspect { at }` has read `successor`.
    pub fn inspected(at: H, successor: Option<H>) -> (step: RecvStep<H>)
        ensures
            successor is None ==> step == RecvStep::<H>::Vacant,
            successor is Some ==> step == (RecvStep::Unlink { from: at, to: successor->0 }),
    {
        match successor {
            None => RecvStep::Vacant,
            Some(to) => RecvStep::Unlink { from: at, to },
        }
    }

    /// After `Unlink` has failed and reported `actual` as the head: go on from
    /// there.
    pub fn unlink_failed(actual: H) -> (step: RecvStep<H>)
        ensures
            step == (RecvStep::Inspect { at: actual }),
    {
        RecvStep::Inspect { at: actual }
    }
}

/// What a receiver that found the queue vacant reports, given the closed flag
/// as read after the successor.
pub fn vacant(closed: bool) -> (e: TryRecvError)
    ensures
        closed ==> e == TryRecvError::Disconnected,
        !closed ==> e == TryRecvError::Empty,
{
    if closed {
        TryRecvError::Disconnected
    } else {
        TryRecvError::Empty
    }
}

/// What a blocking receive does after a probe of the queue.
#[derive(Debug, PartialEq, Eq)]
pub enum WaitStep<T> {
    /// The receive is over.
    Return(Result<T, RecvTimeoutError>),
    /// Register with the wait-queue, then probe once more. A wake signal sent
    /// before the registration would otherwise be missed.
    Register,
    /// Registered and still empty, no deadline: park until woken.
    Park,
    /// Registered and still empty: read the clock and hold it against `end`.
    Timed { end: u64 },
}

/// The decision of a blocking receive after a probe. `registered` says whether
/// the probe was made while on the books of the wait-queue.
///
/// A probe with an answer ends the receive. After an empty probe the receiver
/// registers, if it has not, and probes again; it parks, or reads the clock,
/// only after a probe that it made while registered.
pub fn probed<T>(registered: bool, probe: Result<T, TryRecvError>, deadline: Option<u64>) -> (step:
    WaitStep<T>)
    ensures
        probe is Ok ==> step == WaitStep::Return(Ok::<T, RecvTimeoutError>(probe->Ok_0)),
        probe == Err::<T, TryRecvError>(TryRecvError::Disconnected) ==> step == WaitStep::Return(
            Err::<T, RecvTimeoutError>(RecvTimeoutError::Disconnected),
        ),
        probe == Err::<T, TryRecvError>(TryRecvError::Empty) ==> {
            &&& !registered ==> step == WaitStep::<T>::Register
            &&& registered && deadline is None ==> step == WaitStep::<T>::Park
            &&& registered && deadline is Some ==> step == (WaitStep::<T>::Timed {
                end: deadline->0,
            })
        },
{
    match probe {
        Ok(value) => WaitStep::Return(Ok(value)),
        Err(TryRecvError::Disconnected) => WaitStep::Return(Err(RecvTimeoutError::Disconnected)),
        Err(TryRecvError::Empty) => {
            if !registered {
                WaitStep::Register
            } else {
                match deadline {
                    None => WaitStep::Park,
                    Some(end) => WaitStep::Timed { end },
                }
            }
        },
    }
}

/// Holds the clock against the deadline of a registered receiver that found
/// the queue empty: the time left to park for, or a timeout once `now` has
/// reached `end`.
pub fn timed(end: u64, now: u64) -> (left: Result<u64, RecvTimeoutError>)
    ensures
        now >= end ==> left == Err::<u64, RecvTimeoutError>(RecvTimeoutError::Timeout),
        now < end ==> left == Ok::<u64, RecvTimeoutError>((end - now) as u64),
{
    if now >= end {
        Err(RecvTimeoutError::Timeout)
    } else {
        Ok(end - now)
    }
}

} // verus!
