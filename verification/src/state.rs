//! The queue as a mathematical value, and what each access and each operation
//! does to it.
//!
//! Nodes are named by the order in which they were linked: the first sentinel
//! is node 0, and the node that carries the k-th value ever linked is node k.
//! So a node's successor, once it has one, is the node with the next number.

use vstd::prelude::*;
use crate::blocking::{Token, Waiters};
use crate::error::{RecvTimeoutError, TryRecvError, TrySendError};
use crate::protocol::{Progress, RecvStep, SendStep};

verus! {

/// What a queue holds.
pub struct QueueState<T> {
    /// The node that the head refers to: the sentinel. The nodes before it are
    /// retired: each was unlinked by the receiver that took the value of its
    /// successor, and is left to whoever reclaims memory. So the head is also
    /// the number of values handed out so far.
    pub head: nat,
    /// The node that the tail refers to. It may lag behind the last node.
    pub tail: nat,
    /// The values linked and not yet unlinked, oldest first. They live in the
    /// nodes after the sentinel.
    pub pending: Seq<T>,
    /// Whether the queue has been closed.
    pub closed: bool,
    /// The receivers registered to be woken.
    pub receivers: Waiters,
}

/// How one pass of a blocking receive ends.
#[derive(Debug, PartialEq, Eq)]
pub enum RecvPoll<T> {
    /// The receive is over, with a value or with the reason why none came.
    Ready(Result<T, RecvTimeoutError>),
    /// The queue was empty twice, the second time with the receiver already
    /// registered under `token`. The receiver now parks: until woken if
    /// `timeout` is `None`, else for at most `timeout` ticks. After that it
    /// resumes with the same token.
    Parked { token: Token, timeout: Option<u64> },
}

impl<T> QueueState<T> {
    /// A new queue: one sentinel, nothing pending, open, nobody waiting.
    pub open spec fn empty() -> QueueState<T> {
        QueueState {
            head: 0,
            tail: 0,
            pending: Seq::empty(),
            closed: false,
            receivers: Waiters::empty(),
        }
    }

    /// The last node of the chain.
    pub open spec fn last(self) -> nat {
        self.head + self.pending.len()
    }

    /// The tail does not point past the last node, and handles fit the
    /// machine.
    pub open spec fn wf(self) -> bool {
        &&& self.tail <= self.last()
        &&& self.last() <= usize::MAX
    }

    /// Whether `node` names a node of the chain, the retired ones included.
    pub open spec fn has(self, node: usize) -> bool {
        node <= self.last()
    }

    /// The successor of `node`; `None` at the end of the chain.
    pub open spec fn successor(self, node: usize) -> Option<usize> {
        if node < self.last() {
            Some((node + 1) as usize)
        } else {
            None
        }
    }

    // The atomic accesses

    /// What an attempt to install a node with `value` behind `at` returns: the
    /// new node if `at` had no successor, else the successor it has, with the
    /// value handed back.
    pub open spec fn link_result(self, at: usize, value: T) -> Result<usize, (Option<usize>, T)> {
        if self.successor(at) is None {
            Ok((self.last() + 1) as usize)
        } else {
            Err((self.successor(at), value))
        }
    }

    /// The queue after that attempt.
    pub open spec fn link(self, at: usize, value: T) -> QueueState<T> {
        if self.successor(at) is None {
            QueueState { pending: self.pending.push(value), ..self }
        } else {
            self
        }
    }

    /// What an attempt to move the tail away from `from` returns: the tail as
    /// it is, where that is not `from`.
    pub open spec fn advance_tail_result(self, from: usize) -> Result<(), usize> {
        if self.tail == from {
            Ok(())
        } else {
            Err(self.tail as usize)
        }
    }

    /// The queue after an attempt to move the tail from `from` to `to`.
    pub open spec fn advance_tail(self, from: usize, to: usize) -> QueueState<T> {
        if self.tail == from {
            QueueState { tail: to as nat, ..self }
        } else {
            self
        }
    }

    /// What an attempt to move the head from `from` to its successor returns:
    /// the oldest pending value, or the head as it is, where that is not
    /// `from`.
    pub open spec fn unlink_result(self, from: usize) -> Result<T, usize> {
        if self.head == from && self.pending.len() > 0 {
            Ok(self.pending[0])
        } else {
            Err(self.head as usize)
        }
    }

    /// The queue after that attempt.
    pub open spec fn unlink(self, from: usize) -> QueueState<T> {
        if self.head == from && self.pending.len() > 0 {
            QueueState { head: self.head + 1, pending: self.pending.drop_first(), ..self }
        } else {
            self
        }
    }

    /// The queue with its closed flag set.
    pub open spec fn set_closed(self) -> QueueState<T> {
        QueueState { closed: true, ..self }
    }

    /// The queue with other waiters.
    pub open spec fn with_receivers(self, receivers: Waiters) -> QueueState<T> {
        QueueState { receivers, ..self }
    }

    // The steps of the protocols

    /// Whether a sender can be at `step`: the nodes that the step names are
    /// nodes of the chain, and where it names two, the second follows the
    /// first.
    pub open spec fn admits_send(self, step: SendStep<usize>) -> bool {
        match step {
            SendStep::Inspect { at } => self.has(at),
            SendStep::Link { at } => self.has(at),
            SendStep::Help { from, to } => self.successor(from) == Some(to),
        }
    }

    /// Where a sender with the unlinked value `node` stands after `step`.
    pub open spec fn send_step_result(self, step: SendStep<usize>, node: T) -> Progress<
        (SendStep<usize>, T),
        (),
    > {
        match step {
            SendStep::Inspect { at } => if self.successor(at) is None {
                Progress::Next((SendStep::Link { at }, node))
            } else {
                Progress::Next((SendStep::Help { from: at, to: self.successor(at)->0 }, node))
            },
            SendStep::Link { at } => if self.successor(at) is None {
                Progress::Done(())
            } else {
                Progress::Next((SendStep::Inspect { at: self.successor(at)->0 }, node))
            },
            SendStep::Help { from, to } => if self.tail == from {
                Progress::Next((SendStep::Inspect { at: to }, node))
            } else {
                Progress::Next((SendStep::Inspect { at: self.tail as usize }, node))
            },
        }
    }

    /// The queue after that step. Only a link behind the last node and a help
    /// that finds the tail where it expects it change anything. The sender that
    /// links also moves the tail to its node, if the tail is just behind, and
    /// wakes one receiver.
    pub open spec fn send_step(self, step: SendStep<usize>, node: T) -> QueueState<T> {
        match step {
            SendStep::Inspect { at } => self,
            SendStep::Link { at } => if self.successor(at) is None {
                let linked = self.link(at, node);
                let moved = linked.advance_tail(at, (self.last() + 1) as usize);
                moved.with_receivers(self.receivers.wake_one())
            } else {
                self
            },
            SendStep::Help { from, to } => self.advance_tail(from, to),
        }
    }

    /// Whether a receiver can be at `step`.
    pub open spec fn admits_recv(self, step: RecvStep<usize>) -> bool {
        match step {
            RecvStep::Inspect { at } => self.has(at),
            RecvStep::Unlink { from, to } => self.successor(from) == Some(to),
            RecvStep::Vacant => true,
        }
    }

    /// Where a receiver stands after `step`.
    pub open spec fn recv_step_result(self, step: RecvStep<usize>) -> Progress<
        RecvStep<usize>,
        Result<T, TryRecvError>,
    > {
        match step {
            RecvStep::Inspect { at } => if self.successor(at) is None {
                Progress::Next(RecvStep::Vacant)
            } else {
                Progress::Next(RecvStep::Unlink { from: at, to: self.successor(at)->0 })
            },
            RecvStep::Unlink { from, to } => match self.unlink_result(from) {
                Ok(value) => Progress::Done(Ok(value)),
                Err(head) => Progress::Next(RecvStep::Inspect { at: head }),
            },
            RecvStep::Vacant => if self.closed {
                Progress::Done(Err(TryRecvError::Disconnected))
            } else {
                Progress::Done(Err(TryRecvError::Empty))
            },
        }
    }

    /// The queue after that step: only an unlink that finds the head where it
    /// expects it changes anything.
    pub open spec fn recv_step(self, step: RecvStep<usize>) -> QueueState<T> {
        match step {
            RecvStep::Unlink { from, to } => self.unlink(from),
            _ => self,
        }
    }

    // The operations

    /// What `try_send` returns.
    pub open spec fn send_result(self, value: T) -> Result<(), TrySendError<T>> {
        if self.closed {
            Err(TrySendError::Disconnected(value))
        } else {
            Ok(())
        }
    }

    /// The queue after `try_send`. A closed queue stays as it is. An open one
    /// has the value at the end, its tail at the new last node, and its oldest
    /// waiter woken.
    pub open spec fn send(self, value: T) -> QueueState<T> {
        if self.closed {
            self
        } else {
            QueueState {
                tail: self.last() + 1,
                pending: self.pending.push(value),
                receivers: self.receivers.wake_one(),
                ..self
            }
        }
    }

    /// What `try_recv` returns.
    pub open spec fn recv_result(self) -> Result<T, TryRecvError> {
        if self.pending.len() > 0 {
            Ok(self.pending[0])
        } else if self.closed {
            Err(TryRecvError::Disconnected)
        } else {
            Err(TryRecvError::Empty)
        }
    }

    /// The queue after `try_recv`: without its oldest value, if it had one.
    pub open spec fn recv(self) -> QueueState<T> {
        if self.pending.len() > 0 {
            QueueState { head: self.head + 1, pending: self.pending.drop_first(), ..self }
        } else {
            self
        }
    }

    /// What `close` returns: whether this call closed the queue.
    pub open spec fn close_result(self) -> bool {
        !self.closed
    }

    /// The queue after `close`. The call that closes it wakes every waiter.
    pub open spec fn close(self) -> QueueState<T> {
        if self.closed {
            self
        } else {
            QueueState { closed: true, receivers: self.receivers.wake_all(), ..self }
        }
    }

    /// Whether a receiver would have to wait: nothing pending, and not closed.
    pub open spec fn vacant(self) -> bool {
        self.pending.len() == 0 && !self.closed
    }

    /// How one pass of a blocking receive ends. Where a value is pending or the
    /// queue is closed, as `try_recv` does. Else only after the receiver has
    /// registered and looked again: with a timeout if `now` has reached the
    /// deadline, else parked.
    pub open spec fn wait_result(self, deadline: Option<u64>, now: u64) -> RecvPoll<T> {
        if self.pending.len() > 0 {
            RecvPoll::Ready(Ok(self.pending[0]))
        } else if self.closed {
            RecvPoll::Ready(Err(RecvTimeoutError::Disconnected))
        } else if deadline is Some && now >= deadline->0 {
            RecvPoll::Ready(Err(RecvTimeoutError::Timeout))
        } else {
            RecvPoll::Parked {
                token: self.receivers.next_token(),
                timeout: if deadline is Some {
                    Some((deadline->0 - now) as u64)
                } else {
                    None
                },
            }
        }
    }

    /// The queue after that pass. A receiver that parks stays registered; one
    /// that times out has registered and given its token back.
    pub open spec fn wait(self, deadline: Option<u64>, now: u64) -> QueueState<T> {
        if !self.vacant() {
            self.recv()
        } else if deadline is Some && now >= deadline->0 {
            self.with_receivers(self.receivers.register().unregister(self.receivers.next_token()))
        } else {
            self.with_receivers(self.receivers.register())
        }
    }
}

} // verus!
