use bloblib::motion_queue::{FlagEffect, MotionFlag, MotionQueue, Phase};

#[test]
fn new_queue_is_idle() {
    let mut q: MotionQueue<u32> = MotionQueue::new();
    assert!(q.is_empty());
    assert!(!q.is_active());
    assert_eq!(q.next_phase(), Phase::Idle);
    assert!(!q.is_active());
}

#[test]
fn motion_is_set_up_once_then_ticked() {
    let mut q = MotionQueue::new();
    q.push(7u32);
    assert_eq!(q.next_phase(), Phase::Starting);
    assert!(q.is_active());
    assert_eq!(*q.current_mut(), 7);
    assert_eq!(q.next_phase(), Phase::Running);
    assert_eq!(q.next_phase(), Phase::Running);
}

#[test]
fn motions_run_in_queue_order() {
    let mut q = MotionQueue::new();
    assert!(matches!(q.apply_flag(MotionFlag::New(1u32)), FlagEffect::Queued));
    assert!(matches!(q.apply_flag(MotionFlag::New(2u32)), FlagEffect::Queued));
    assert_eq!(q.next_phase(), Phase::Starting);
    assert_eq!(*q.current_mut(), 1);
    // a motion queued meanwhile does not displace the running one
    q.push(3);
    assert_eq!(q.next_phase(), Phase::Running);
    assert_eq!(*q.current_mut(), 1);
    assert_eq!(q.finish_tick(true, false), Some(1));
    assert!(!q.is_active());
    assert_eq!(q.next_phase(), Phase::Starting);
    assert_eq!(*q.current_mut(), 2);
    assert_eq!(q.finish_tick(false, true), Some(2));
    assert_eq!(q.next_phase(), Phase::Starting);
    assert_eq!(*q.current_mut(), 3);
    assert_eq!(q.len(), 1);
}

#[test]
fn unfinished_tick_keeps_motion() {
    let mut q = MotionQueue::new();
    q.push(5u32);
    assert_eq!(q.next_phase(), Phase::Starting);
    assert_eq!(q.finish_tick(false, false), None);
    assert!(q.is_active());
    assert_eq!(q.len(), 1);
    assert_eq!(q.next_phase(), Phase::Running);
}

#[test]
fn current_mut_changes_front() {
    let mut q = MotionQueue::new();
    q.push(5u32);
    q.push(6u32);
    *q.current_mut() = 50;
    assert_eq!(q.cancel_current(), 50);
    assert_eq!(q.cancel_current(), 6);
    assert!(q.is_empty());
}

#[test]
fn cancel_current_hands_back_front() {
    let mut q = MotionQueue::new();
    q.push(1u32);
    q.push(2u32);
    assert_eq!(q.next_phase(), Phase::Starting);
    match q.apply_flag(MotionFlag::CancelCurrent) {
        FlagEffect::Stopped(Some(m)) => assert_eq!(m, 1),
        _ => panic!("expected the running motion back"),
    }
    assert!(!q.is_active());
    assert_eq!(q.len(), 1);
    assert_eq!(q.next_phase(), Phase::Starting);
    assert_eq!(*q.current_mut(), 2);
}

#[test]
fn cancel_all_empties_queue() {
    let mut q = MotionQueue::new();
    q.push(1u32);
    q.push(2u32);
    q.push(3u32);
    assert_eq!(q.next_phase(), Phase::Starting);
    match q.apply_flag(MotionFlag::CancelAll) {
        FlagEffect::Stopped(Some(m)) => assert_eq!(m, 1),
        _ => panic!("expected the running motion back"),
    }
    assert!(q.is_empty());
    assert!(!q.is_active());
    assert_eq!(q.next_phase(), Phase::Idle);
    q.push(9);
    assert_eq!(q.next_phase(), Phase::Starting);
    assert_eq!(*q.current_mut(), 9);
}

#[test]
fn cancel_all_on_empty_queue_still_stops() {
    let mut q: MotionQueue<u32> = MotionQueue::new();
    match q.apply_flag(MotionFlag::CancelAll) {
        FlagEffect::Stopped(None) => {}
        _ => panic!("expected a stop with nothing to clean up"),
    }
    assert!(q.is_empty());
}

#[test]
fn batch_of_requests_applies_in_order() {
    let mut q = MotionQueue::new();
    q.push(1u32);
    let mut flags = vec![MotionFlag::New(2u32), MotionFlag::New(3u32), MotionFlag::CancelCurrent, MotionFlag::New(4u32)];
    let effects = q.apply_flags(&mut flags);
    assert!(flags.is_empty());
    assert_eq!(effects.len(), 4);
    assert!(matches!(effects[0], FlagEffect::Queued));
    assert!(matches!(effects[1], FlagEffect::Queued));
    assert!(matches!(effects[2], FlagEffect::Stopped(Some(1))));
    assert!(matches!(effects[3], FlagEffect::Queued));
    assert_eq!(q.cancel_current(), 2);
    assert_eq!(q.cancel_current(), 3);
    assert_eq!(q.cancel_current(), 4);
    assert!(q.is_empty());
}

#[test]
fn batch_stops_before_cancelling_nothing() {
    let mut q = MotionQueue::new();
    let mut flags = vec![MotionFlag::New(1u32), MotionFlag::CancelAll, MotionFlag::CancelCurrent, MotionFlag::New(2u32)];
    let effects = q.apply_flags(&mut flags);
    assert_eq!(effects.len(), 2);
    assert!(matches!(effects[1], FlagEffect::Stopped(Some(1))));
    assert_eq!(flags.len(), 2);
    assert!(matches!(flags[0], MotionFlag::CancelCurrent));
    assert!(q.is_empty());
}

#[test]
fn empty_batch_changes_nothing() {
    let mut q = MotionQueue::new();
    q.push(8u32);
    let mut flags: Vec<MotionFlag<u32>> = vec![];
    assert!(q.apply_flags(&mut flags).is_empty());
    assert_eq!(q.len(), 1);
}

#[test]
fn each_motion_set_up_once_and_cleaned_up_once() {
    // drive the queue as the handler does and record what happens to each motion
    let mut q = MotionQueue::new();
    let mut setups: Vec<u32> = vec![];
    let mut cleanups: Vec<u32> = vec![];
    let mut ticks: Vec<u32> = vec![];
    let mut pass = |q: &mut MotionQueue<u32>, finished: bool, setups: &mut Vec<u32>, cleanups: &mut Vec<u32>, ticks: &mut Vec<u32>| {
        match q.next_phase() {
            Phase::Idle => return,
            Phase::Starting => setups.push(*q.current_mut()),
            Phase::Running => {}
        }
        ticks.push(*q.current_mut());
        if let Some(m) = q.finish_tick(finished, false) {
            cleanups.push(m);
        }
    };
    let mut flags = vec![MotionFlag::New(1u32), MotionFlag::New(2u32), MotionFlag::New(3u32)];
    q.apply_flags(&mut flags);
    pass(&mut q, false, &mut setups, &mut cleanups, &mut ticks);
    pass(&mut q, false, &mut setups, &mut cleanups, &mut ticks);
    pass(&mut q, true, &mut setups, &mut cleanups, &mut ticks);
    // motion 2 is cancelled before it was set up: it is still cleaned up
    let mut flags = vec![MotionFlag::CancelCurrent, MotionFlag::New(4u32)];
    for e in q.apply_flags(&mut flags) {
        if let FlagEffect::Stopped(Some(m)) = e {
            cleanups.push(m);
        }
    }
    pass(&mut q, false, &mut setups, &mut cleanups, &mut ticks);
    let mut flags = vec![MotionFlag::CancelAll];
    for e in q.apply_flags(&mut flags) {
        if let FlagEffect::Stopped(Some(m)) = e {
            cleanups.push(m);
        }
    }
    pass(&mut q, false, &mut setups, &mut cleanups, &mut ticks);
    assert_eq!(setups, vec![1, 3]);
    assert_eq!(ticks, vec![1, 1, 1, 3]);
    // motion 4 is dropped by the cancellation of everything without clean-up
    assert_eq!(cleanups, vec![1, 2, 3]);
}
