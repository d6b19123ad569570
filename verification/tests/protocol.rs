use mpmc_queue::protocol::{probed, timed, vacant, RecvStep, SendStep, WaitStep};
use mpmc_queue::{RecvTimeoutError, TryRecvError};

#[test]
fn a_sender_links_at_the_end_and_helps_elsewhere() {
    assert_eq!(SendStep::begin(4usize), SendStep::Inspect { at: 4 });
    assert_eq!(SendStep::inspected(4usize, None), SendStep::Link { at: 4 });
    assert_eq!(SendStep::inspected(4usize, Some(5)), SendStep::Help { from: 4, to: 5 });
}

#[test]
fn a_spurious_failure_repeats_the_link() {
    assert_eq!(SendStep::link_failed(4usize, None), SendStep::Link { at: 4 });
}

#[test]
fn a_lost_race_starts_over_from_the_winner() {
    assert_eq!(SendStep::link_failed(4usize, Some(9)), SendStep::Inspect { at: 9 });
}

#[test]
fn a_helper_goes_on_from_the_tail() {
    assert_eq!(SendStep::helped(5usize, Ok(())), SendStep::Inspect { at: 5 });
    assert_eq!(SendStep::helped(5usize, Err(7)), SendStep::Inspect { at: 7 });
    // A spurious failure reports the tail that was expected.
    assert_eq!(SendStep::helped(5usize, Err(4)), SendStep::Inspect { at: 4 });
}

#[test]
fn a_receiver_unlinks_what_follows_the_sentinel() {
    assert_eq!(RecvStep::begin(2usize), RecvStep::Inspect { at: 2 });
    assert_eq!(RecvStep::inspected(2usize, None), RecvStep::Vacant);
    assert_eq!(RecvStep::inspected(2usize, Some(3)), RecvStep::Unlink { from: 2, to: 3 });
    assert_eq!(RecvStep::unlink_failed(3usize), RecvStep::Inspect { at: 3 });
}

#[test]
fn a_vacant_queue_is_empty_or_disconnected() {
    assert_eq!(vacant(false), TryRecvError::Empty);
    assert_eq!(vacant(true), TryRecvError::Disconnected);
}

#[test]
fn handles_may_be_anything() {
    assert_eq!(SendStep::inspected("tail", Some("next")), SendStep::Help { from: "tail", to: "next" });
    assert_eq!(RecvStep::inspected('h', Some('n')), RecvStep::Unlink { from: 'h', to: 'n' });
}

#[test]
fn a_probe_with_an_answer_ends_the_receive() {
    for registered in [false, true] {
        for deadline in [None, Some(0u64), Some(100u64)] {
            assert_eq!(probed(registered, Ok(3), deadline), WaitStep::Return(Ok(3)));
            assert_eq!(
                probed::<i32>(registered, Err(TryRecvError::Disconnected), deadline),
                WaitStep::Return(Err(RecvTimeoutError::Disconnected))
            );
        }
    }
}

#[test]
fn an_empty_probe_registers_before_it_parks() {
    assert_eq!(probed::<i32>(false, Err(TryRecvError::Empty), None), WaitStep::Register);
    assert_eq!(probed::<i32>(false, Err(TryRecvError::Empty), Some(0)), WaitStep::Register);
    assert_eq!(probed::<i32>(false, Err(TryRecvError::Empty), Some(9)), WaitStep::Register);
    assert_eq!(probed::<i32>(true, Err(TryRecvError::Empty), None), WaitStep::Park);
    assert_eq!(probed::<i32>(true, Err(TryRecvError::Empty), Some(9)), WaitStep::Timed { end: 9 });
}

#[test]
fn the_clock_decides_between_parking_and_timeout() {
    assert_eq!(timed(10, 3), Ok(7));
    assert_eq!(timed(10, 9), Ok(1));
    assert_eq!(timed(10, 10), Err(RecvTimeoutError::Timeout));
    assert_eq!(timed(10, 11), Err(RecvTimeoutError::Timeout));
    assert_eq!(timed(0, 0), Err(RecvTimeoutError::Timeout));
    assert_eq!(timed(u64::MAX, 0), Ok(u64::MAX));
    assert_eq!(timed(0, u64::MAX), Err(RecvTimeoutError::Timeout));
}
