//! Senders and receivers that run their protocols step by step on one queue,
//! in whatever order a scheduler picks them.
//!
//! Every schedule is a history of the queue, so the laws of histories hold of
//! it; and on every schedule each thread only ever makes calls that it may
//! make.

use vstd::prelude::*;
use crate::error::TryRecvError;
use crate::history::{lemma_only_forward, Call};
use crate::protocol::{Progress, RecvStep, SendStep};
use crate::state::QueueState;

verus! {

/// A thread in the middle of one operation.
pub enum Thread<T> {
    /// A sender at `step`, with the value `node` that it has not linked yet.
    Sending { step: SendStep<usize>, node: T },
    /// A receiver at its step `look`.
    Receiving { look: RecvStep<usize> },
    /// A sender that has linked its value.
    Sent,
    /// A receiver that has its answer.
    Received { answer: Result<T, TryRecvError> },
}

/// What the scheduler lets happen next.
pub enum Move<T> {
    /// The thread with this number takes one step. A thread that is done, or a
    /// number that names no thread, changes nothing.
    Step { who: int },
    /// Somebody outside the threads makes a call.
    Outside { call: Call<T> },
}

/// Whether `call` names no node, so that it may be made at any time.
pub open spec fn names_no_node<T>(call: Call<T>) -> bool {
    match call {
        Call::Link { at, value } => false,
        Call::AdvanceTail { from, to } => false,
        Call::Unlink { from } => false,
        Call::SendStep { sender, node } => false,
        Call::RecvStep { receiver } => false,
        _ => true,
    }
}

impl<T> Thread<T> {
    /// The call that the thread makes next, if it is not done.
    pub open spec fn next_call(self) -> Option<Call<T>> {
        match self {
            Thread::Sending { step, node } => Some(Call::SendStep { sender: step, node }),
            Thread::Receiving { look } => Some(Call::RecvStep { receiver: look }),
            _ => None,
        }
    }

    /// The thread after it has made that call on `queue`.
    pub open spec fn after_call(self, queue: QueueState<T>) -> Thread<T> {
        match self {
            Thread::Sending { step, node } => match queue.send_step_result(step, node) {
                Progress::Next(then) => Thread::Sending { step: then.0, node: then.1 },
                Progress::Done(_) => Thread::Sent,
            },
            Thread::Receiving { look } => match queue.recv_step_result(look) {
                Progress::Next(then) => Thread::Receiving { look: then },
                Progress::Done(answer) => Thread::Received { answer },
            },
            _ => self,
        }
    }

    /// Whether the thread's next call may be made on `queue`.
    pub open spec fn fits(self, queue: QueueState<T>) -> bool {
        match self {
            Thread::Sending { step, node } => queue.admits_send(step),
            Thread::Receiving { look } => queue.admits_recv(look),
            _ => true,
        }
    }
}

/// A queue and the threads at work on it.
pub struct System<T> {
    pub queue: QueueState<T>,
    pub threads: Seq<Thread<T>>,
}

impl<T> System<T> {
    /// The call on the queue that `next` amounts to, if it amounts to one.
    pub open spec fn call_of(self, next: Move<T>) -> Option<Call<T>> {
        match next {
            Move::Step { who } => if 0 <= who < self.threads.len() {
                self.threads[who].next_call()
            } else {
                None
            },
            Move::Outside { call } => Some(call),
        }
    }

    /// The system after `next`.
    pub open spec fn after(self, next: Move<T>) -> System<T> {
        match next {
            Move::Step { who } => if 0 <= who < self.threads.len()
                && self.threads[who].next_call() is Some {
                System {
                    queue: self.queue.after(self.threads[who].next_call()->0),
                    threads: self.threads.update(who, self.threads[who].after_call(self.queue)),
                }
            } else {
                self
            },
            Move::Outside { call } => System { queue: self.queue.after(call), ..self },
        }
    }

    /// The system after the moves of `schedule`, made in that order.
    pub open spec fn run(self, schedule: Seq<Move<T>>) -> System<T>
        decreases schedule.len(),
    {
        if schedule.len() == 0 {
            self
        } else {
            self.run(schedule.drop_last()).after(schedule.last())
        }
    }

    /// The calls on the queue that `schedule` amounts to, in order.
    pub open spec fn history(self, schedule: Seq<Move<T>>) -> Seq<Call<T>>
        decreases schedule.len(),
    {
        if schedule.len() == 0 {
            Seq::empty()
        } else {
            let earlier = self.history(schedule.drop_last());
            match self.run(schedule.drop_last()).call_of(schedule.last()) {
                Some(call) => earlier.push(call),
                None => earlier,
            }
        }
    }

    /// The queue is well-formed and every thread's next call may be made.
    pub open spec fn sound(self) -> bool {
        &&& self.queue.wf()
        &&& forall|who: int| 0 <= who < self.threads.len() ==> (#[trigger] self.threads[who]).fits(
            self.queue,
        )
    }
}

/// Whether the calls from outside that `schedule` holds all name no node.
pub open spec fn outsiders_name_no_node<T>(schedule: Seq<Move<T>>) -> bool {
    forall|i: int|
        0 <= i < schedule.len() ==> (#[trigger] schedule[i] matches Move::Outside { call }
            ==> names_no_node(call))
}

/// Every schedule is a history: the queue that a schedule leaves is the queue
/// that its calls leave, made one after the other. What holds of every history
/// therefore holds however the steps of the threads interleave.
pub proof fn lemma_schedule_is_history<T>(start: System<T>, schedule: Seq<Move<T>>)
    ensures
        start.run(schedule).queue == start.queue.run(start.history(schedule)),
        start.run(schedule).threads.len() == start.threads.len(),
    decreases schedule.len(),
{
    if schedule.len() > 0 {
        let earlier = schedule.drop_last();
        lemma_schedule_is_history(start, earlier);
        let before = start.run(earlier);
        match before.call_of(schedule.last()) {
            Some(call) => {
                let calls = start.history(earlier).push(call);
                assert(calls.drop_last() =~= start.history(earlier));
                assert(calls.last() == call);
            },
            None => {},
        }
    }
}

/// The last node of a queue never goes back.
proof fn lemma_last_stays<T>(state: QueueState<T>, call: Call<T>)
    ensures
        state.last() <= state.after(call).last(),
{
}

/// Nor does it along a schedule.
proof fn lemma_last_stays_along<T>(start: System<T>, schedule: Seq<Move<T>>, split: int)
    requires
        0 <= split <= schedule.len(),
    ensures
        start.run(schedule.take(split)).queue.last() <= start.run(schedule).queue.last(),
    decreases schedule.len() - split,
{
    if split == schedule.len() {
        assert(schedule.take(split) =~= schedule);
    } else {
        lemma_last_stays_along(start, schedule, split + 1);
        let longer = schedule.take(split + 1);
        assert(longer.drop_last() =~= schedule.take(split));
        let before = start.run(schedule.take(split));
        match before.call_of(longer.last()) {
            Some(call) => lemma_last_stays(before.queue, call),
            None => {},
        }
    }
}

/// A step that was decided stays good, whatever the others do in the
/// meantime: after any call that may be made, a thread can still make the call
/// that it could make before.
pub proof fn lemma_thread_still_fits<T>(queue: QueueState<T>, call: Call<T>, thread: Thread<T>)
    requires
        queue.wf(),
        queue.permits(call),
        queue.after(call).last() <= usize::MAX,
        thread.fits(queue),
    ensures
        thread.fits(queue.after(call)),
{
    match thread {
        Thread::Sending { step: SendStep::Inspect { at }, node } => lemma_only_forward(
            queue,
            call,
            at,
        ),
        Thread::Sending { step: SendStep::Link { at }, node } => lemma_only_forward(queue, call, at),
        Thread::Sending { step: SendStep::Help { from, to }, node } => lemma_only_forward(
            queue,
            call,
            from,
        ),
        Thread::Receiving { look: RecvStep::Inspect { at } } => lemma_only_forward(queue, call, at),
        Thread::Receiving { look: RecvStep::Unlink { from, to } } => lemma_only_forward(
            queue,
            call,
            from,
        ),
        _ => {},
    }
}

/// The protocols stay on the chain: the step that follows a step that a
/// thread could take is one that it can take, in the queue as its step left
/// it.
pub proof fn lemma_thread_fits_its_next_step<T>(queue: QueueState<T>, thread: Thread<T>)
    requires
        queue.wf(),
        thread.fits(queue),
        thread.next_call() is Some,
    ensures
        thread.after_call(queue).fits(queue.after(thread.next_call()->0)),
{
}

/// The protocols are safe under every schedule: if each thread starts at a
/// step that names nodes of the chain, then however the scheduler mixes the
/// steps of the threads with each other and with calls from outside, no
/// thread ever comes to a step that it may not take, as long as the chain has
/// room for its nodes.
pub proof fn lemma_every_schedule_is_sound<T>(start: System<T>, schedule: Seq<Move<T>>)
    requires
        start.sound(),
        outsiders_name_no_node(schedule),
        start.run(schedule).queue.last() <= usize::MAX,
    ensures
        start.run(schedule).sound(),
    decreases schedule.len(),
{
    if schedule.len() > 0 {
        let earlier = schedule.drop_last();
        let next = schedule.last();
        assert(earlier =~= schedule.take(schedule.len() - 1));
        lemma_last_stays_along(start, schedule, schedule.len() - 1);
        assert(outsiders_name_no_node(earlier)) by {
            assert forall|i: int| 0 <= i < earlier.len() implies (#[trigger] earlier[i] matches Move::Outside {
                call,
            } ==> names_no_node(call)) by {
                assert(earlier[i] == schedule[i]);
            }
        }
        lemma_every_schedule_is_sound(start, earlier);
        let before = start.run(earlier);
        let after = before.after(next);
        assert(schedule[schedule.len() - 1] == next);
        match before.call_of(next) {
            Some(call) => {
                assert(before.queue.permits(call)) by {
                    match next {
                        Move::Step { who } => {
                            assert(before.threads[who].fits(before.queue));
                        },
                        Move::Outside { call } => {
                            assert(names_no_node(call));
                        },
                    }
                }
                assert(after.queue == before.queue.after(call));
                lemma_only_forward(before.queue, call, 0);
                assert forall|who: int| 0 <= who < after.threads.len() implies (
                #[trigger] after.threads[who]).fits(after.queue) by {
                    let thread = before.threads[who];
                    assert(thread.fits(before.queue));
                    if (next matches Move::Step { who: stepped } && stepped == who) {
                        lemma_thread_fits_its_next_step(before.queue, thread);
                    } else {
                        assert(after.threads[who] == thread);
                        lemma_thread_still_fits(before.queue, call, thread);
                    }
                }
            },
            None => {
                assert(after == before);
            },
        }
    }
}

} // verus!
