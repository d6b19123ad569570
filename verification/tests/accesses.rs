use mpmc_queue::protocol::{Progress, RecvStep, SendStep};
use mpmc_queue::{Queue, TryRecvError};

type Sending = Progress<(SendStep<usize>, u32), ()>;
type Receiving = Progress<RecvStep<usize>, Result<u32, TryRecvError>>;

fn sending(step: SendStep<usize>, node: u32) -> Sending {
    Progress::Next((step, node))
}

// The next step of a sender, which must not be done yet.
fn go_on(q: &mut Queue<u32>, progress: Sending) -> Sending {
    match progress {
        Progress::Next((step, node)) => q.send_step(step, node),
        Progress::Done(()) => panic!("the sender is done"),
    }
}

// The next step of a receiver, which must not be done yet.
fn look_on(q: &mut Queue<u32>, progress: Receiving) -> Receiving {
    match progress {
        Progress::Next(step) => q.recv_step(step),
        Progress::Done(_) => panic!("the receiver is done"),
    }
}

#[test]
fn link_installs_behind_the_last_node_only() {
    let mut q: Queue<u32> = Queue::new();
    assert_eq!(q.link(0, 10), Ok(1));
    assert_eq!(q.load_next(0), Some(1));
    assert_eq!(q.load_next(1), None);
    // Node 0 has a successor now: the value comes back with it.
    assert_eq!(q.link(0, 11), Err((Some(1), 11)));
    assert_eq!(q.load_next(1), None);
    assert_eq!(q.link(1, 11), Ok(2));
    assert_eq!(q.load_next(1), Some(2));
    assert!(q.has_node(2));
    assert!(!q.has_node(3));
    // The tail was not moved by anybody.
    assert_eq!(q.load_tail(), 0);
    assert_eq!(q.try_recv(), Ok(10));
    assert_eq!(q.try_recv(), Ok(11));
    assert_eq!(q.try_recv(), Err(TryRecvError::Empty));
}

#[test]
fn advance_tail_moves_only_from_the_expected_node() {
    let mut q: Queue<u32> = Queue::new();
    assert_eq!(q.link(0, 1), Ok(1));
    assert_eq!(q.link(1, 2), Ok(2));
    assert_eq!(q.advance_tail(1, 2), Err(0));
    assert_eq!(q.load_tail(), 0);
    assert_eq!(q.advance_tail(0, 1), Ok(()));
    assert_eq!(q.load_tail(), 1);
    assert_eq!(q.advance_tail(0, 1), Err(1));
    assert_eq!(q.advance_tail(1, 2), Ok(()));
    assert_eq!(q.load_tail(), 2);
}

#[test]
fn unlink_moves_only_from_the_expected_node() {
    let mut q: Queue<u32> = Queue::new();
    assert_eq!(q.try_send(7), Ok(()));
    assert_eq!(q.try_send(8), Ok(()));
    assert_eq!(q.unlink(1, 2), Err(0));
    assert_eq!(q.load_head(), 0);
    assert_eq!(q.unlink(0, 1), Ok(7));
    assert_eq!(q.load_head(), 1);
    assert_eq!(q.unlink(0, 1), Err(1));
    assert_eq!(q.unlink(1, 2), Ok(8));
    assert_eq!(q.load_head(), 2);
    // The retired nodes keep their links.
    assert_eq!(q.load_next(0), Some(1));
    assert_eq!(q.load_next(1), Some(2));
    assert_eq!(q.load_next(2), None);
}

#[test]
fn swap_closed_returns_the_old_flag() {
    let mut q: Queue<u32> = Queue::new();
    assert!(!q.swap_closed());
    assert!(q.is_closed());
    assert!(q.swap_closed());
    assert!(q.is_closed());
    assert!(!q.close());
}

#[test]
fn two_senders_race_for_the_same_end() {
    let mut q: Queue<u32> = Queue::new();
    let a = sending(SendStep::begin(q.load_tail()), 100);
    let b = sending(SendStep::begin(q.load_tail()), 200);
    // Both see the sentinel without successor.
    let a = go_on(&mut q, a);
    let b = go_on(&mut q, b);
    assert_eq!(a, sending(SendStep::Link { at: 0 }, 100));
    assert_eq!(b, sending(SendStep::Link { at: 0 }, 200));
    // The second sender wins.
    assert_eq!(go_on(&mut q, b), Progress::Done(()));
    // The first lost the race: it goes on from the winner's node, with its value.
    let a = go_on(&mut q, a);
    assert_eq!(a, sending(SendStep::Inspect { at: 1 }, 100));
    let a = go_on(&mut q, a);
    assert_eq!(a, sending(SendStep::Link { at: 1 }, 100));
    assert_eq!(go_on(&mut q, a), Progress::Done(()));
    assert_eq!(q.load_tail(), 2);
    assert_eq!(q.try_recv(), Ok(200));
    assert_eq!(q.try_recv(), Ok(100));
    assert_eq!(q.try_recv(), Err(TryRecvError::Empty));
}

#[test]
fn a_sender_helps_a_tail_that_fell_behind() {
    let mut q: Queue<u32> = Queue::new();
    // Two senders linked their nodes and stalled before they moved the tail.
    assert_eq!(q.link(0, 1), Ok(1));
    assert_eq!(q.link(1, 2), Ok(2));
    assert_eq!(q.load_tail(), 0);
    let s = sending(SendStep::begin(q.load_tail()), 3);
    let s = go_on(&mut q, s);
    assert_eq!(s, sending(SendStep::Help { from: 0, to: 1 }, 3));
    let s = go_on(&mut q, s);
    assert_eq!(s, sending(SendStep::Inspect { at: 1 }, 3));
    assert_eq!(q.load_tail(), 1);
    let s = go_on(&mut q, s);
    assert_eq!(s, sending(SendStep::Help { from: 1, to: 2 }, 3));
    let s = go_on(&mut q, s);
    assert_eq!(s, sending(SendStep::Inspect { at: 2 }, 3));
    let s = go_on(&mut q, s);
    assert_eq!(s, sending(SendStep::Link { at: 2 }, 3));
    assert_eq!(go_on(&mut q, s), Progress::Done(()));
    assert_eq!(q.load_tail(), 3);
    assert_eq!(q.try_recv(), Ok(1));
    assert_eq!(q.try_recv(), Ok(2));
    assert_eq!(q.try_recv(), Ok(3));
}

#[test]
fn try_send_helps_a_tail_that_fell_behind() {
    let mut q: Queue<u32> = Queue::new();
    assert_eq!(q.link(0, 1), Ok(1));
    assert_eq!(q.link(1, 2), Ok(2));
    assert_eq!(q.load_tail(), 0);
    assert_eq!(q.try_send(3), Ok(()));
    assert_eq!(q.load_tail(), 3);
    assert_eq!(q.load_next(3), None);
    assert_eq!(q.try_recv(), Ok(1));
    assert_eq!(q.try_recv(), Ok(2));
    assert_eq!(q.try_recv(), Ok(3));
    assert_eq!(q.try_recv(), Err(TryRecvError::Empty));
}

#[test]
fn a_helper_that_loses_goes_on_from_the_reported_tail() {
    let mut q: Queue<u32> = Queue::new();
    assert_eq!(q.link(0, 1), Ok(1));
    assert_eq!(q.link(1, 2), Ok(2));
    let s = sending(SendStep::begin(q.load_tail()), 3);
    let s = go_on(&mut q, s);
    assert_eq!(s, sending(SendStep::Help { from: 0, to: 1 }, 3));
    // Others move the tail to the end first.
    assert_eq!(q.advance_tail(0, 1), Ok(()));
    assert_eq!(q.advance_tail(1, 2), Ok(()));
    let s = go_on(&mut q, s);
    assert_eq!(s, sending(SendStep::Inspect { at: 2 }, 3));
    let s = go_on(&mut q, s);
    assert_eq!(s, sending(SendStep::Link { at: 2 }, 3));
    assert_eq!(go_on(&mut q, s), Progress::Done(()));
    assert_eq!(q.load_tail(), 3);
}

#[test]
fn a_sender_that_links_leaves_a_tail_that_is_elsewhere() {
    let mut q: Queue<u32> = Queue::new();
    assert_eq!(q.link(0, 1), Ok(1));
    // This sender walked ahead of the tail and links at the end.
    assert_eq!(q.send_step(SendStep::Link { at: 1 }, 2), Progress::Done(()));
    assert_eq!(q.load_next(1), Some(2));
    assert_eq!(q.load_tail(), 0);
}

#[test]
fn a_sender_that_links_wakes_one_receiver() {
    let mut q: Queue<u32> = Queue::new();
    let first = q.register();
    let second = q.register();
    // Looking and helping wake nobody.
    assert_eq!(q.send_step(SendStep::Inspect { at: 0 }, 1), sending(SendStep::Link { at: 0 }, 1));
    assert!(q.is_waiting(first));
    assert_eq!(q.send_step(SendStep::Link { at: 0 }, 1), Progress::Done(()));
    assert!(!q.is_waiting(first));
    assert!(q.is_waiting(second));
    // Neither does a link that fails.
    assert_eq!(q.send_step(SendStep::Link { at: 0 }, 2), sending(SendStep::Inspect { at: 1 }, 2));
    assert!(q.is_waiting(second));
}

#[test]
fn the_head_may_pass_a_lagging_tail() {
    let mut q: Queue<u32> = Queue::new();
    assert_eq!(q.link(0, 1), Ok(1));
    // The value is received before its sender has moved the tail.
    assert_eq!(q.try_recv(), Ok(1));
    assert_eq!(q.load_head(), 1);
    assert_eq!(q.load_tail(), 0);
    assert_eq!(q.try_recv(), Err(TryRecvError::Empty));
    assert_eq!(q.try_send(2), Ok(()));
    assert_eq!(q.load_tail(), 2);
    assert_eq!(q.try_recv(), Ok(2));
    assert_eq!(q.load_head(), 2);
}

#[test]
fn two_receivers_race_for_the_same_value() {
    let mut q: Queue<u32> = Queue::new();
    assert_eq!(q.try_send(1), Ok(()));
    assert_eq!(q.try_send(2), Ok(()));
    let a: Receiving = Progress::Next(RecvStep::begin(q.load_head()));
    let b: Receiving = Progress::Next(RecvStep::begin(q.load_head()));
    let a = look_on(&mut q, a);
    let b = look_on(&mut q, b);
    assert_eq!(a, Progress::Next(RecvStep::Unlink { from: 0, to: 1 }));
    assert_eq!(b, Progress::Next(RecvStep::Unlink { from: 0, to: 1 }));
    assert_eq!(look_on(&mut q, a), Progress::Done(Ok(1)));
    // The loser starts over from the head that it was told, and gets the next value.
    let b = look_on(&mut q, b);
    assert_eq!(b, Progress::Next(RecvStep::Inspect { at: 1 }));
    let b = look_on(&mut q, b);
    assert_eq!(b, Progress::Next(RecvStep::Unlink { from: 1, to: 2 }));
    assert_eq!(look_on(&mut q, b), Progress::Done(Ok(2)));
    assert_eq!(q.try_recv(), Err(TryRecvError::Empty));
}

#[test]
fn a_receiver_reports_by_the_flag_it_reads_last() {
    let mut q: Queue<u32> = Queue::new();
    let a = q.recv_step(RecvStep::begin(q.load_head()));
    assert_eq!(a, Progress::Next(RecvStep::Vacant));
    // A value arrives and the queue is closed before the receiver reads the flag.
    assert_eq!(q.try_send(5), Ok(()));
    assert!(q.close());
    assert_eq!(look_on(&mut q, a), Progress::Done(Err(TryRecvError::Disconnected)));
    // The value is still there for the next receive.
    assert_eq!(q.try_recv(), Ok(5));
    assert_eq!(q.try_recv(), Err(TryRecvError::Disconnected));
}

#[test]
fn a_vacant_receiver_reports_an_open_queue_as_empty() {
    let mut q: Queue<u32> = Queue::new();
    assert_eq!(q.recv_step(RecvStep::Vacant), Progress::Done(Err(TryRecvError::Empty)));
    assert!(q.close());
    assert_eq!(q.recv_step(RecvStep::Vacant), Progress::Done(Err(TryRecvError::Disconnected)));
}

#[test]
fn interleaved_steps_lose_and_repeat_nothing() {
    let mut q: Queue<u32> = Queue::new();
    let mut senders: Vec<Option<Sending>> = Vec::new();
    for i in 0..4u32 {
        senders.push(Some(sending(SendStep::begin(q.load_tail()), i)));
    }
    let mut received: Vec<u32> = Vec::new();
    let mut linked = 0;
    let mut turn = 0usize;
    while linked < 4 {
        // Senders take one step each in turn, the last one first.
        let who = 3 - (turn % 4);
        if let Some(progress) = senders[who].take() {
            let next = go_on(&mut q, progress);
            if next == Progress::Done(()) {
                linked += 1;
            } else {
                senders[who] = Some(next);
            }
        }
        if turn % 5 == 4 {
            if let Ok(value) = q.try_recv() {
                received.push(value);
            }
        }
        turn += 1;
    }
    while let Ok(value) = q.try_recv() {
        received.push(value);
    }
    received.sort();
    assert_eq!(received, vec![0, 1, 2, 3]);
    assert_eq!(q.load_head(), 4);
    assert_eq!(q.load_tail(), 4);
}
