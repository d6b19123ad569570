//! What holds of every history of a queue: of every sequence of calls, in
//! whatever order senders, receivers and closers make them.
//!
//! A history may mix whole operations with single atomic accesses, so the laws
//! cover senders and receivers whose steps interleave.

use vstd::prelude::*;
use crate::blocking::Token;
use crate::error::{RecvTimeoutError, TryRecvError, TrySendError};
use crate::protocol::{Progress, RecvStep, SendStep};
use crate::state::{QueueState, RecvPoll};

verus! {

/// One call that can change a queue.
pub enum Call<T> {
    /// `link(at, value)`
    Link { at: usize, value: T },
    /// `advance_tail(from, to)`
    AdvanceTail { from: usize, to: usize },
    /// `unlink(from, _)`
    Unlink { from: usize },
    /// `swap_closed()`
    SwapClosed,
    /// `register()`
    Register,
    /// `unregister(token)`
    Unregister { token: Token },
    /// `wake_one()`
    WakeOne,
    /// `wake_all()`
    WakeAll,
    /// `send_step(sender, node)`
    SendStep { sender: SendStep<usize>, node: T },
    /// `recv_step(receiver)`
    RecvStep { receiver: RecvStep<usize> },
    /// `try_send(value)`, or `send_until(value, _)`
    TrySend { value: T },
    /// `try_recv()`
    TryRecv,
    /// `recv_until(deadline, now)`
    RecvUntil { deadline: Option<u64>, now: u64 },
    /// `resume(token, deadline, now)`
    Resume { token: Token, deadline: Option<u64>, now: u64 },
    /// `close()`
    Close,
}

impl<T> QueueState<T> {
    /// The queue after `call`.
    pub open spec fn after(self, call: Call<T>) -> QueueState<T> {
        match call {
            Call::Link { at, value } => self.link(at, value),
            Call::AdvanceTail { from, to } => self.advance_tail(from, to),
            Call::Unlink { from } => self.unlink(from),
            Call::SwapClosed => self.set_closed(),
            Call::Register => self.with_receivers(self.receivers.register()),
            Call::Unregister { token } => self.with_receivers(self.receivers.unregister(token)),
            Call::WakeOne => self.with_receivers(self.receivers.wake_one()),
            Call::WakeAll => self.with_receivers(self.receivers.wake_all()),
            Call::SendStep { sender, node } => self.send_step(sender, node),
            Call::RecvStep { receiver } => self.recv_step(receiver),
            Call::TrySend { value } => self.send(value),
            Call::TryRecv => self.recv(),
            Call::RecvUntil { deadline, now } => self.wait(deadline, now),
            Call::Resume { token, deadline, now } => self.with_receivers(
                self.receivers.unregister(token),
            ).wait(deadline, now),
            Call::Close => self.close(),
        }
    }

    /// The value that `call` puts into the queue, if it puts one.
    pub open spec fn accepts(self, call: Call<T>) -> Option<T> {
        match call {
            Call::Link { at, value } => if self.link_result(at, value) is Ok {
                Some(value)
            } else {
                None
            },
            Call::SendStep { sender, node } => if self.send_step_result(sender, node) is Done {
                Some(node)
            } else {
                None
            },
            Call::TrySend { value } => if self.send_result(value) is Ok {
                Some(value)
            } else {
                None
            },
            _ => None,
        }
    }

    /// The value that `call` hands to its caller, if it hands one out.
    pub open spec fn delivers(self, call: Call<T>) -> Option<T> {
        match call {
            Call::Unlink { from } => match self.unlink_result(from) {
                Ok(value) => Some(value),
                Err(_) => None,
            },
            Call::RecvStep { receiver } => match self.recv_step_result(receiver) {
                Progress::Done(Ok(value)) => Some(value),
                _ => None,
            },
            Call::TryRecv => match self.recv_result() {
                Ok(value) => Some(value),
                Err(_) => None,
            },
            Call::RecvUntil { deadline, now } => match self.wait_result(deadline, now) {
                RecvPoll::Ready(Ok(value)) => Some(value),
                _ => None,
            },
            Call::Resume { token, deadline, now } => match self.with_receivers(
                self.receivers.unregister(token),
            ).wait_result(deadline, now) {
                RecvPoll::Ready(Ok(value)) => Some(value),
                _ => None,
            },
            _ => None,
        }
    }

    /// Whether `call` may be made: whether the nodes that it names are nodes
    /// of the chain, as the call requires.
    pub open spec fn permits(self, call: Call<T>) -> bool {
        match call {
            Call::Link { at, value } => self.has(at),
            Call::AdvanceTail { from, to } => self.successor(from) == Some(to),
            Call::Unlink { from } => self.successor(from) is Some,
            Call::SendStep { sender, node } => self.admits_send(sender),
            Call::RecvStep { receiver } => self.admits_recv(receiver),
            _ => true,
        }
    }

    /// The queue after the calls of `history`, made in that order.
    pub open spec fn run(self, history: Seq<Call<T>>) -> QueueState<T>
        decreases history.len(),
    {
        if history.len() == 0 {
            self
        } else {
            self.run(history.drop_last()).after(history.last())
        }
    }

    /// The values that the calls of `history` put into the queue, in the order
    /// in which they went in.
    pub open spec fn accepted(self, history: Seq<Call<T>>) -> Seq<T>
        decreases history.len(),
    {
        if history.len() == 0 {
            Seq::empty()
        } else {
            let before = self.run(history.drop_last());
            let earlier = self.accepted(history.drop_last());
            match before.accepts(history.last()) {
                Some(value) => earlier.push(value),
                None => earlier,
            }
        }
    }

    /// The values that the calls of `history` handed to their callers, in the
    /// order in which they came out.
    pub open spec fn delivered(self, history: Seq<Call<T>>) -> Seq<T>
        decreases history.len(),
    {
        if history.len() == 0 {
            Seq::empty()
        } else {
            let before = self.run(history.drop_last());
            let earlier = self.delivered(history.drop_last());
            match before.delivers(history.last()) {
                Some(value) => earlier.push(value),
                None => earlier,
            }
        }
    }
}

/// A history of `count` calls of `try_recv` and nothing else.
pub open spec fn receives<T>(count: nat) -> Seq<Call<T>> {
    Seq::new(count, |i: int| Call::TryRecv)
}

/// No loss, no duplication: whatever the calls and their order, the values
/// handed out so far, followed by the values still pending, are the values
/// that were pending at the start, followed by the values put in since. Each
/// value that went in is thus handed out at most once, and is pending until
/// then.
pub proof fn lemma_nothing_lost_nothing_twice<T>(start: QueueState<T>, history: Seq<Call<T>>)
    ensures
        start.delivered(history) + start.run(history).pending == start.pending + start.accepted(
            history,
        ),
    decreases history.len(),
{
    if history.len() == 0 {
        assert(start.delivered(history) + start.run(history).pending =~= start.pending
            + start.accepted(history));
    } else {
        let earlier = history.drop_last();
        let call = history.last();
        let before = start.run(earlier);
        lemma_nothing_lost_nothing_twice(start, earlier);
        let out = start.delivered(earlier);
        let put = start.accepted(earlier);
        assert(out + before.pending == start.pending + put);
        match before.accepts(call) {
            Some(value) => {
                assert(before.delivers(call) is None);
                assert(before.after(call).pending == before.pending.push(value));
                assert(out + before.pending.push(value) =~= (out + before.pending).push(value));
                assert(start.pending + put.push(value) =~= (start.pending + put).push(value));
            },
            None => {
                match before.delivers(call) {
                    Some(value) => {
                        assert(before.pending.len() > 0);
                        assert(value == before.pending[0]);
                        assert(before.after(call).pending == before.pending.drop_first());
                        assert(out.push(value) + before.pending.drop_first() =~= out
                            + before.pending);
                    },
                    None => {
                        assert(before.after(call).pending == before.pending);
                    },
                }
            },
        }
    }
}

/// The same as a count: as multisets, what was handed out and what is pending
/// make up what was pending at the start and what was put in. Once the queue
/// is drained, the values received are exactly the values sent.
pub proof fn lemma_received_is_sent<T>(start: QueueState<T>, history: Seq<Call<T>>)
    ensures
        start.delivered(history).to_multiset().add(start.run(history).pending.to_multiset())
            == start.pending.to_multiset().add(start.accepted(history).to_multiset()),
        start.pending.len() == 0 && start.run(history).pending.len() == 0 ==> start.delivered(
            history,
        ).to_multiset() == start.accepted(history).to_multiset(),
{
    lemma_nothing_lost_nothing_twice(start, history);
    vstd::seq_lib::lemma_multiset_commutative(
        start.delivered(history),
        start.run(history).pending,
    );
    vstd::seq_lib::lemma_multiset_commutative(start.pending, start.accepted(history));
    if start.pending.len() == 0 && start.run(history).pending.len() == 0 {
        assert(start.delivered(history) + start.run(history).pending =~= start.delivered(history));
        assert(start.pending + start.accepted(history) =~= start.accepted(history));
    }
}

/// First in, first out: the k-th value handed out is the k-th of the values
/// that were pending at the start and the values put in since; on a queue
/// that starts empty, the k-th value put in.
pub proof fn lemma_first_in_first_out<T>(start: QueueState<T>, history: Seq<Call<T>>, k: int)
    requires
        0 <= k < start.delivered(history).len(),
    ensures
        k < start.pending.len() + start.accepted(history).len(),
        start.delivered(history)[k] == (start.pending + start.accepted(history))[k],
        start.pending.len() == 0 ==> start.delivered(history)[k] == start.accepted(history)[k],
{
    lemma_nothing_lost_nothing_twice(start, history);
    let out = start.delivered(history);
    let left = start.run(history).pending;
    assert((out + left).len() == out.len() + left.len());
    assert((out + left)[k] == out[k]);
    if start.pending.len() == 0 {
        assert(start.pending + start.accepted(history) =~= start.accepted(history));
    }
}

/// Sent earlier, received no later: of two values that went into an empty
/// queue one after the other, as two sends of one producer do, the second is
/// handed out only after the first.
pub proof fn lemma_sent_earlier_received_earlier<T>(
    start: QueueState<T>,
    history: Seq<Call<T>>,
    first: int,
    second: int,
)
    requires
        start.pending.len() == 0,
        0 <= first < second < start.accepted(history).len(),
        second < start.delivered(history).len(),
    ensures
        first < start.delivered(history).len(),
        start.delivered(history)[first] == start.accepted(history)[first],
        start.delivered(history)[second] == start.accepted(history)[second],
{
    lemma_first_in_first_out(start, history, first);
    lemma_first_in_first_out(start, history, second);
}

/// The chain only grows, and head and tail only move forward along it: after
/// any call that may be made, the tail is still at or behind the last node,
/// head, tail and last node are where they were or further on, and every node
/// is still a node, with the successor it had.
pub proof fn lemma_only_forward<T>(state: QueueState<T>, call: Call<T>, node: usize)
    requires
        state.wf(),
        state.permits(call),
        state.after(call).last() <= usize::MAX,
    ensures
        state.after(call).wf(),
        state.head <= state.after(call).head,
        state.tail <= state.after(call).tail,
        state.last() <= state.after(call).last(),
        state.has(node) ==> state.after(call).has(node),
        state.successor(node) is Some ==> state.after(call).successor(node) == state.successor(
            node,
        ),
{
}

/// Closed is forever: no call reopens a queue.
pub proof fn lemma_closed_forever<T>(start: QueueState<T>, history: Seq<Call<T>>)
    requires
        start.closed,
    ensures
        start.run(history).closed,
    decreases history.len(),
{
    if history.len() > 0 {
        lemma_closed_forever(start, history.drop_last());
    }
}

/// Exactly one `close` closes: the call on an open queue returns true, and
/// after a `close`, whatever happened in between, the queue is closed and
/// `close` returns false and changes nothing.
pub proof fn lemma_close_once<T>(start: QueueState<T>, between: Seq<Call<T>>)
    ensures
        start.close_result() == !start.closed,
        start.close().closed,
        start.close().run(between).closed,
        !start.close().run(between).close_result(),
        start.close().run(between).close() == start.close().run(between),
{
    lemma_closed_forever(start.close(), between);
}

/// Closing loses nothing, and a closed queue is drained before it reports the
/// disconnection: its receives return its pending values in order, one each,
/// and only the receive after the last of them finds it disconnected.
pub proof fn lemma_drain_before_disconnect<T>(start: QueueState<T>, count: nat)
    requires
        count <= start.pending.len(),
    ensures
        start.close().pending == start.pending,
        start.delivered(receives(count)) == start.pending.take(count as int),
        start.run(receives(count)).pending == start.pending.skip(count as int),
        start.run(receives(count)).closed == start.closed,
        count < start.pending.len() ==> start.run(receives(count)).recv_result() == Ok::<
            T,
            TryRecvError,
        >(start.pending[count as int]),
        count == start.pending.len() && start.closed ==> start.run(receives(count)).recv_result()
            == Err::<T, TryRecvError>(TryRecvError::Disconnected),
    decreases count,
{
    let history = receives::<T>(count);
    if count == 0 {
        assert(start.pending.take(0) =~= Seq::empty());
        assert(start.pending.skip(0) =~= start.pending);
    } else {
        let fewer = (count - 1) as nat;
        lemma_drain_before_disconnect(start, fewer);
        assert(history.drop_last() =~= receives::<T>(fewer));
        assert(history.last() == Call::<T>::TryRecv);
        let before = start.run(receives(fewer));
        assert(before.pending == start.pending.skip(fewer as int));
        assert(before.pending.len() > 0);
        assert(before.pending[0] == start.pending[fewer as int]);
        assert(before.pending.drop_first() =~= start.pending.skip(count as int));
        assert(start.pending.take(fewer as int).push(start.pending[fewer as int])
            =~= start.pending.take(count as int));
    }
}

/// A receive reports the disconnection exactly when the queue is closed and
/// nothing is pending; until then a closed queue hands out its values.
pub proof fn lemma_disconnected_only_when_drained<T>(state: QueueState<T>)
    ensures
        state.recv_result() == Err::<T, TryRecvError>(TryRecvError::Disconnected) <==> state.closed
            && state.pending.len() == 0,
        state.pending.len() > 0 ==> state.recv_result() == Ok::<T, TryRecvError>(state.pending[0]),
{
}

/// A send after the close fails and loses nothing: whatever happened since
/// the queue was closed, `try_send` hands its value back unchanged and leaves
/// the queue as it was.
pub proof fn lemma_send_after_close<T>(start: QueueState<T>, between: Seq<Call<T>>, value: T)
    requires
        start.closed,
    ensures
        start.run(between).send_result(value) == Err::<(), TrySendError<T>>(
            TrySendError::Disconnected(value),
        ),
        start.run(between).send(value) == start.run(between),
{
    lemma_closed_forever(start, between);
}

/// No missed wake-up: wherever a send falls among the steps of a receiver
/// that finds the queue empty and has nobody waiting beside it, the receiver
/// gets the value. If the send comes before the registration, or between the
/// registration and the second look, the second look finds the value. If it
/// comes after the receiver has parked, the receiver is woken, and its next
/// pass returns the value.
pub proof fn lemma_no_missed_wakeup<T>(state: QueueState<T>, now: u64, value: T, later: u64)
    requires
        state.vacant(),
        state.receivers.waiting.len() == 0,
    ensures
        state.recv_result() == Err::<T, TryRecvError>(TryRecvError::Empty),
        state.send(value).after(Call::Register).recv_result() == Ok::<T, TryRecvError>(value),
        state.after(Call::Register).send(value).recv_result() == Ok::<T, TryRecvError>(value),
        state.wait_result(None, now) == (RecvPoll::<T>::Parked {
            token: state.receivers.next_token(),
            timeout: None,
        }),
        state.wait(None, now).receivers.waiting.contains(state.receivers.next_token()),
        !state.wait(None, now).send(value).receivers.waiting.contains(
            state.receivers.next_token(),
        ),
        state.wait(None, now).send(value).delivers(
            Call::Resume { token: state.receivers.next_token(), deadline: None, now: later },
        ) == Some(value),
        state.wait(None, now).send(value).after(
            Call::Resume { token: state.receivers.next_token(), deadline: None, now: later },
        ).pending.len() == 0,
{
    let token = state.receivers.next_token();
    let parked = state.wait(None, now);
    assert(parked.receivers.waiting =~= seq![token]);
    assert(parked.receivers.waiting[0] == token);
    let sent = parked.send(value);
    assert(sent.receivers.waiting =~= Seq::empty());
    assert(sent.pending =~= seq![value]);
    let resumed = sent.with_receivers(sent.receivers.unregister(token));
    assert(resumed.pending[0] == value);
    assert(resumed.pending.drop_first() =~= Seq::empty());
    assert(state.send(value).pending[0] == value);
}

/// An honest timeout: a pass of a blocking receive reports a timeout only if
/// the queue is empty and open and the clock has reached the deadline, and
/// then it always does. A receiver without a deadline never times out.
pub proof fn lemma_timeout_is_honest<T>(state: QueueState<T>, deadline: Option<u64>, now: u64)
    ensures
        state.wait_result(deadline, now) == RecvPoll::<T>::Ready(Err(RecvTimeoutError::Timeout))
            <==> state.vacant() && deadline is Some && now >= deadline->0,
        state.wait_result(deadline, now) matches RecvPoll::Parked { token, timeout } ==> {
            &&& state.vacant()
            &&& timeout is Some <==> deadline is Some
            &&& deadline is Some ==> now + timeout->0 == deadline->0
        },
{
}

} // verus!
