//! The queue: a chain of nodes in an arena, the atomic accesses to it, and the
//! operations that the protocols build from those accesses.
//!
//! A queue owns its chain, so an access is a method call and cannot be torn.
//! Calls of the accesses may be mixed in any order, as the steps of concurrent
//! senders and receivers would be; the operations run one protocol from start
//! to end.

use vstd::prelude::*;
use crate::blocking::{Blocking, Token};
use crate::error::{SendTimeoutError, TryRecvError, TrySendError};
use crate::protocol::{probed, timed, vacant, Progress, RecvStep, SendStep, WaitStep};
use crate::state::{QueueState, RecvPoll};

verus! {

/// A single node of the chain.
struct Node<T> {
    /// The payload. The sentinel and the nodes before it have none that
    /// anybody reads.
    value: Option<T>,
    /// The next node of the chain.
    next: Option<usize>,
}

/// An unbounded multi-producer multi-consumer queue.
///
/// Nodes are never moved, so a handle stays good once it has been read. The
/// nodes before the head are retired: their values have been handed out, and
/// only their links are still read, by whoever holds an old handle.
pub struct Queue<T> {
    /// The arena. A node's handle is its index.
    nodes: Vec<Node<T>>,
    /// Head of the queue: the sentinel.
    head: usize,
    /// Tail of the queue: at or behind the last node.
    tail: usize,
    /// Set once, by `close`.
    closed: bool,
    /// The receivers that wait for a value.
    receivers: Blocking,
}

/// The link that node `i` of a chain of `len` nodes holds.
spec fn link_of(i: int, len: int) -> Option<usize> {
    if i + 1 < len {
        Some((i + 1) as usize)
    } else {
        None
    }
}

/// The chain is linked in the order of the handles, every node after the
/// sentinel carries a value, and no other node does.
spec fn chained<T>(nodes: Seq<Node<T>>, head: int) -> bool {
    &&& 0 <= head < nodes.len()
    &&& forall|i: int|
        0 <= i < nodes.len() ==> (#[trigger] nodes[i]).next == link_of(i, nodes.len() as int)
    &&& forall|i: int| 0 <= i < nodes.len() ==> ((#[trigger] nodes[i]).value is Some <==> head < i)
}

/// The values in the nodes after `head`.
spec fn values_after<T>(nodes: Seq<Node<T>>, head: int) -> Seq<T> {
    Seq::new((nodes.len() - head - 1) as nat, |i: int| nodes[head + 1 + i].value->0)
}

/// Whether `step` is a step that a sender can be at when nobody else touches
/// the queue: it works at the tail, and links only at the last node.
spec fn send_step_fits<T>(q: QueueState<T>, step: SendStep<usize>) -> bool {
    match step {
        SendStep::Inspect { at } => at == q.tail,
        SendStep::Link { at } => at == q.tail && q.successor(at) is None,
        SendStep::Help { from, to } => from == q.tail && q.successor(from) == Some(to),
    }
}

/// A bound on the accesses that such a sender still makes.
spec fn send_steps_left<T>(q: QueueState<T>, step: SendStep<usize>) -> int {
    match step {
        SendStep::Inspect { at } => 2 * (q.last() - q.tail) + 2,
        SendStep::Link { at } => 1,
        SendStep::Help { from, to } => 2 * (q.last() - q.tail) + 1,
    }
}

/// Whether `step` is a step that a receiver can be at when nobody else touches
/// the queue.
spec fn recv_step_fits<T>(q: QueueState<T>, step: RecvStep<usize>) -> bool {
    match step {
        RecvStep::Inspect { at } => at == q.head,
        RecvStep::Unlink { from, to } => from == q.head && q.successor(from) == Some(to),
        RecvStep::Vacant => q.pending.len() == 0,
    }
}

/// A bound on the accesses that such a receiver still makes.
spec fn recv_steps_left(step: RecvStep<usize>) -> int {
    match step {
        RecvStep::Inspect { at } => 2,
        RecvStep::Unlink { from, to } => 1,
        RecvStep::Vacant => 1,
    }
}

impl<T> View for Queue<T> {
    type V = QueueState<T>;

    closed spec fn view(&self) -> QueueState<T> {
        QueueState {
            head: self.head as nat,
            tail: self.tail as nat,
            pending: values_after(self.nodes@, self.head as int),
            closed: self.closed,
            receivers: self.receivers@,
        }
    }
}

impl<T> Queue<T> {
    /// The invariant of the chain: it is linked in the order of the handles
    /// from the first sentinel to the last node, head and tail refer to nodes
    /// of it, and the nodes after the head, and no others, carry a value.
    pub closed spec fn wf(&self) -> bool {
        &&& chained(self.nodes@, self.head as int)
        &&& self.tail < self.nodes.len()
    }

    /// In a well-formed queue the tail is at or behind the last node.
    pub proof fn lemma_view_wf(&self)
        requires
            self.wf(),
        ensures
            self@.wf(),
    {
    }

    /// A new queue: a single sentinel, to which head and tail both refer.
    pub fn new() -> (q: Queue<T>)
        ensures
            q.wf(),
            q@ == QueueState::<T>::empty(),
    {
        let mut nodes: Vec<Node<T>> = Vec::new();
        nodes.push(Node { value: None, next: None });
        let q = Queue { nodes, head: 0, tail: 0, closed: false, receivers: Blocking::new() };
        assert(q@.pending =~= Seq::empty());
        q
    }

    // The atomic accesses

    /// Reads the head.
    pub fn load_head(&self) -> (head: usize)
        requires
            self.wf(),
        ensures
            head == self@.head,
            self@.has(head),
    {
        self.head
    }

    /// Reads the tail.
    pub fn load_tail(&self) -> (tail: usize)
        requires
            self.wf(),
        ensures
            tail == self@.tail,
            self@.has(tail),
    {
        self.tail
    }

    /// Whether `node` names a node of this queue.
    pub fn has_node(&self, node: usize) -> (b: bool)
        requires
            self.wf(),
        ensures
            b == self@.has(node),
    {
        node < self.nodes.len()
    }

    /// Reads the successor of `node`.
    pub fn load_next(&self, node: usize) -> (next: Option<usize>)
        requires
            self.wf(),
            self@.has(node),
        ensures
            next == self@.successor(node),
            next is Some ==> self@.has(next->0),
    {
        self.nodes[node].next
    }

    /// Installs a node with `value` as the successor of `at`, if `at` has none.
    /// Returns the new node, or else the successor that `at` has, with the
    /// value handed back.
    pub fn link(&mut self, at: usize, value: T) -> (res: Result<usize, (Option<usize>, T)>)
        requires
            old(self).wf(),
            old(self)@.has(at),
        ensures
            final(self).wf(),
            res == old(self)@.link_result(at, value),
            final(self)@ == old(self)@.link(at, value),
    {
        match self.nodes[at].next {
            None => {
                let node = self.nodes.len();
                self.nodes.push(Node { value: Some(value), next: None });
                self.nodes[at].next = Some(node);
                assert(self@.pending =~= old(self)@.pending.push(value));
                Ok(node)
            },
            Some(actual) => Err((Some(actual), value)),
        }
    }

    /// Moves the tail from `from` to its successor `to`, if the tail is `from`.
    /// Returns the tail as it is, where it is another node.
    pub fn advance_tail(&mut self, from: usize, to: usize) -> (res: Result<(), usize>)
        requires
            old(self).wf(),
            old(self)@.successor(from) == Some(to),
        ensures
            final(self).wf(),
            res == old(self)@.advance_tail_result(from),
            final(self)@ == old(self)@.advance_tail(from, to),
    {
        if self.tail == from {
            self.tail = to;
            Ok(())
        } else {
            Err(self.tail)
        }
    }

    /// Moves the head from the sentinel `from` to its successor `to`, if the
    /// head is `from`. The caller that succeeds gets the value out of `to`,
    /// which is the sentinel from then on; `from` is retired. Returns the head
    /// as it is, where it is another node.
    pub fn unlink(&mut self, from: usize, to: usize) -> (res: Result<T, usize>)
        requires
            old(self).wf(),
            old(self)@.successor(from) == Some(to),
        ensures
            final(self).wf(),
            res == old(self)@.unlink_result(from),
            final(self)@ == old(self)@.unlink(from),
    {
        if self.head == from {
            self.head = to;
            let value = self.nodes[to].value.take();
            assert(self@.pending =~= old(self)@.pending.drop_first());
            Ok(value.unwrap())
        } else {
            Err(self.head)
        }
    }

    /// Reads the closed flag.
    pub fn is_closed(&self) -> (closed: bool)
        ensures
            closed == self@.closed,
    {
        self.closed
    }

    /// Sets the closed flag and returns what it was.
    pub fn swap_closed(&mut self) -> (was: bool)
        ensures
            old(self).wf() ==> final(self).wf(),
            was == old(self)@.closed,
            final(self)@ == old(self)@.set_closed(),
    {
        let was = self.closed;
        self.closed = true;
        was
    }

    /// Registers a receiver with the wait-queue.
    pub fn register(&mut self) -> (token: Token)
        ensures
            old(self).wf() ==> final(self).wf(),
            token == old(self)@.receivers.next_token(),
            final(self)@ == old(self)@.with_receivers(old(self)@.receivers.register()),
    {
        self.receivers.register()
    }

    /// Clears the registration of a receiver that runs again.
    pub fn unregister(&mut self, token: Token)
        ensures
            old(self).wf() ==> final(self).wf(),
            final(self)@ == old(self)@.with_receivers(old(self)@.receivers.unregister(token)),
    {
        self.receivers.unregister(token)
    }

    /// Wakes the receiver that has waited longest, if any waits, and returns
    /// its token.
    pub fn wake_one(&mut self) -> (woken: Option<Token>)
        ensures
            old(self).wf() ==> final(self).wf(),
            woken == old(self)@.receivers.oldest(),
            final(self)@ == old(self)@.with_receivers(old(self)@.receivers.wake_one()),
    {
        self.receivers.wake_one()
    }

    /// Wakes every receiver that waits and returns their tokens, oldest first.
    pub fn wake_all(&mut self) -> (woken: Vec<Token>)
        ensures
            old(self).wf() ==> final(self).wf(),
            woken@ == old(self)@.receivers.waiting,
            final(self)@ == old(self)@.with_receivers(old(self)@.receivers.wake_all()),
    {
        self.receivers.wake_all()
    }

    // The steps of the protocols

    /// One step of a sender that still holds `node`: the access that `step`
    /// names, and the decision that follows from what the access found. Other
    /// callers may have changed the queue since the step was decided.
    ///
    /// The sender whose link succeeds is done: it moves the tail to its node,
    /// unless the tail is elsewhere, and wakes one receiver.
    pub fn send_step(&mut self, step: SendStep<usize>, node: T) -> (next: Progress<
        (SendStep<usize>, T),
        (),
    >)
        requires
            old(self).wf(),
            old(self)@.admits_send(step),
        ensures
            final(self).wf(),
            next == old(self)@.send_step_result(step, node),
            final(self)@ == old(self)@.send_step(step, node),
            next matches Progress::Next(then) ==> final(self)@.admits_send(then.0),
    {
        proof {
            self.lemma_view_wf();
        }
        match step {
            SendStep::Inspect { at } => {
                let next = self.load_next(at);
                Progress::Next((SendStep::inspected(at, next), node))
            },
            SendStep::Link { at } => {
                match self.link(at, node) {
                    Ok(linked) => {
                        proof {
                            self.lemma_view_wf();
                        }
                        // The tail must not fall behind: move it forward.
                        let _ = self.advance_tail(at, linked);
                        self.wake_one();
                        Progress::Done(())
                    },
                    Err((actual, rejected)) => Progress::Next(
                        (SendStep::link_failed(at, actual), rejected),
                    ),
                }
            },
            SendStep::Help { from, to } => {
                let outcome = self.advance_tail(from, to);
                Progress::Next((SendStep::helped(to, outcome), node))
            },
        }
    }

    /// One step of a receiver: the access that `step` names, and the decision
    /// that follows from what the access found. Other callers may have changed
    /// the queue since the step was decided.
    pub fn recv_step(&mut self, step: RecvStep<usize>) -> (next: Progress<
        RecvStep<usize>,
        Result<T, TryRecvError>,
    >)
        requires
            old(self).wf(),
            old(self)@.admits_recv(step),
        ensures
            final(self).wf(),
            next == old(self)@.recv_step_result(step),
            final(self)@ == old(self)@.recv_step(step),
            next matches Progress::Next(then) ==> final(self)@.admits_recv(then),
    {
        proof {
            self.lemma_view_wf();
        }
        match step {
            RecvStep::Inspect { at } => {
                let next = self.load_next(at);
                Progress::Next(RecvStep::inspected(at, next))
            },
            RecvStep::Unlink { from, to } => {
                match self.unlink(from, to) {
                    Ok(value) => Progress::Done(Ok(value)),
                    Err(actual) => Progress::Next(RecvStep::unlink_failed(actual)),
                }
            },
            RecvStep::Vacant => Progress::Done(Err(vacant(self.is_closed()))),
        }
    }

    // The operations

    /// Sends `value` without blocking. A closed queue hands the value back.
    /// Otherwise the value is linked behind the last node, the tail is moved to
    /// the new node, and one waiting receiver is woken.
    pub fn try_send(&mut self, value: T) -> (res: Result<(), TrySendError<T>>)
        requires
            old(self).wf(),
        ensures
            final(self).wf(),
            res == old(self)@.send_result(value),
            final(self)@ == old(self)@.send(value),
    {
        if self.is_closed() {
            return Err(TrySendError::Disconnected(value));
        }
        let mut node = value;
        let tail = self.load_tail();
        let mut step = SendStep::begin(tail);
        proof {
            self.lemma_view_wf();
        }
        loop
            invariant
                self.wf(),
                self@.wf(),
                node == value,
                !old(self)@.closed,
                old(self)@.tail <= self@.tail,
                self@ == (QueueState { tail: self@.tail, ..old(self)@ }),
                send_step_fits(self@, step),
            decreases send_steps_left(self@, step),
        {
            match self.send_step(step, node) {
                Progress::Done(()) => {
                    return Ok(());
                },
                Progress::Next((then, rejected)) => {
                    step = then;
                    node = rejected;
                },
            }
            proof {
                self.lemma_view_wf();
            }
        }
    }

    /// Sends `value`. The queue is unbounded, so a send never waits and the
    /// deadline is never looked at: this is `try_send` with the error of a
    /// timed send.
    pub fn send_until(&mut self, value: T, deadline: Option<u64>) -> (res: Result<
        (),
        SendTimeoutError<T>,
    >)
        requires
            old(self).wf(),
        ensures
            final(self).wf(),
            old(self)@.closed ==> res == Err::<(), SendTimeoutError<T>>(
                SendTimeoutError::Disconnected(value),
            ),
            !old(self)@.closed ==> res == Ok::<(), SendTimeoutError<T>>(()),
            final(self)@ == old(self)@.send(value),
    {
        match self.try_send(value) {
            Ok(()) => Ok(()),
            Err(e) => Err(e.into_timeout_error()),
        }
    }

    /// Receives without blocking: unlinks the oldest value and returns it, or
    /// says why there is none.
    pub fn try_recv(&mut self) -> (res: Result<T, TryRecvError>)
        requires
            old(self).wf(),
        ensures
            final(self).wf(),
            res == old(self)@.recv_result(),
            final(self)@ == old(self)@.recv(),
    {
        let head = self.load_head();
        let mut step = RecvStep::begin(head);
        loop
            invariant
                self.wf(),
                self@ == old(self)@,
                recv_step_fits(self@, step),
            decreases recv_steps_left(step),
        {
            match self.recv_step(step) {
                Progress::Done(res) => {
                    return res;
                },
                Progress::Next(then) => {
                    step = then;
                },
            }
        }
    }

    /// One pass of a blocking receive, at time `now`: up to the point where the
    /// receiver has its answer, or has to park.
    ///
    /// The receiver looks, and if the queue is empty it registers and looks
    /// again before it parks: a value sent between the first look and the
    /// registration would otherwise be waited for although it is there. A
    /// deadline is held against the clock only after that second look.
    pub fn recv_until(&mut self, deadline: Option<u64>, now: u64) -> (poll: RecvPoll<T>)
        requires
            old(self).wf(),
        ensures
            final(self).wf(),
            poll == old(self)@.wait_result(deadline, now),
            final(self)@ == old(self)@.wait(deadline, now),
    {
        let mut registered: Option<Token> = None;
        loop
            invariant
                self.wf(),
                registered is None ==> self@ == old(self)@,
                registered is Some ==> {
                    &&& old(self)@.vacant()
                    &&& registered->0 == old(self)@.receivers.next_token()
                    &&& self@ == old(self)@.with_receivers(old(self)@.receivers.register())
                },
            decreases
                    (if registered is None {
                        1nat
                    } else {
                        0nat
                    }),
        {
            let probe = self.try_recv();
            match probed(registered.is_some(), probe, deadline) {
                WaitStep::Return(res) => {
                    if let Some(token) = registered {
                        self.unregister(token);
                    }
                    return RecvPoll::Ready(res);
                },
                WaitStep::Register => {
                    registered = Some(self.register());
                },
                WaitStep::Park => {
                    return RecvPoll::Parked { token: registered.unwrap(), timeout: None };
                },
                WaitStep::Timed { end } => {
                    let token = registered.unwrap();
                    match timed(end, now) {
                        Ok(left) => {
                            return RecvPoll::Parked { token, timeout: Some(left) };
                        },
                        Err(e) => {
                            self.unregister(token);
                            return RecvPoll::Ready(Err(e));
                        },
                    }
                },
            }
        }
    }

    /// The next pass of a blocking receive that parked under `token` and runs
    /// again, woken or not: the registration is cleared and the receive starts
    /// over.
    pub fn resume(&mut self, token: Token, deadline: Option<u64>, now: u64) -> (poll: RecvPoll<T>)
        requires
            old(self).wf(),
        ensures
            final(self).wf(),
            poll == old(self)@.with_receivers(old(self)@.receivers.unregister(token)).wait_result(
                deadline,
                now,
            ),
            final(self)@ == old(self)@.with_receivers(old(self)@.receivers.unregister(token)).wait(
                deadline,
                now,
            ),
    {
        self.unregister(token);
        self.recv_until(deadline, now)
    }

    /// Closes the queue. Returns whether this call closed it; the call that
    /// does wakes every waiting receiver, so that each looks again.
    pub fn close(&mut self) -> (closed_now: bool)
        requires
            old(self).wf(),
        ensures
            final(self).wf(),
            closed_now == old(self)@.close_result(),
            final(self)@ == old(self)@.close(),
    {
        if !self.swap_closed() {
            self.wake_all();
            true
        } else {
            false
        }
    }

    /// Whether the receiver registered under `token` still waits to be woken.
    pub fn is_waiting(&self, token: Token) -> (b: bool)
        ensures
            b == self@.receivers.waiting.contains(token),
    {
        self.receivers.is_waiting(token)
    }
}

} // verus!
