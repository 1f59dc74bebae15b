use bloblib::calibration::{CalibrationAttempts, IMU_CALIBRATION_ATTEMPTS};
use bloblib::directions::{AngularDirection, DriveSide};
use bloblib::settle::ExitLatch;

#[test]
fn default_direction_is_auto() {
    assert_eq!(AngularDirection::default(), AngularDirection::Auto);
    assert_ne!(AngularDirection::Clockwise, AngularDirection::CounterClockwise);
    assert_ne!(DriveSide::Left, DriveSide::Right);
}

#[test]
fn calibration_stops_at_first_success() {
    let mut c = CalibrationAttempts::new();
    assert!(c.should_attempt());
    assert!(!c.record(false));
    assert!(c.should_attempt());
    assert!(c.record(true));
    assert!(!c.should_attempt());
}

#[test]
fn calibration_gives_up_after_five_failures() {
    let mut c = CalibrationAttempts::new();
    let mut n = 0;
    while c.should_attempt() {
        c.record(false);
        n += 1;
    }
    assert_eq!(n, 5);
    assert_eq!(IMU_CALIBRATION_ATTEMPTS, 5);
}

#[test]
fn latch_fires_after_staying_in_range() {
    let mut l: ExitLatch<u32> = ExitLatch::new();
    // entering the range starts the timer, even if "expired" is claimed
    assert!(!l.update(false, 10, true));
    assert_eq!(*l.start(), Some(10));
    // still inside, not yet long enough
    assert!(!l.update(false, 20, false));
    assert_eq!(*l.start(), Some(10));
    // still inside, long enough
    assert!(l.update(false, 30, true));
    // leaving the range afterwards keeps it fired
    assert!(l.update(true, 40, false));
    assert_eq!(*l.start(), None);
    assert!(l.is_done());
    l.reset();
    assert!(!l.is_done());
    assert_eq!(*l.start(), None);
}

#[test]
fn leaving_range_restarts_timer() {
    let mut l: ExitLatch<u32> = ExitLatch::new();
    assert!(!l.update(false, 1, false));
    assert!(!l.update(true, 2, true));
    assert_eq!(*l.start(), None);
    assert!(!l.update(false, 3, true));
    assert_eq!(*l.start(), Some(3));
}

#[test]
fn latch_fires_only_after_an_unbroken_stay() {
    // times in ms, allowed time 100: expired = now - start > 100
    let allowed = 100u32;
    let run = [(false, 0u32), (false, 60), (true, 120), (false, 130), (false, 200), (false, 240)];
    let mut l: ExitLatch<u32> = ExitLatch::new();
    let mut fired = vec![];
    for (outside, now) in run {
        let expired = match l.start() {
            Some(s) => now - *s > allowed,
            None => false,
        };
        fired.push(l.update(outside, now, expired));
    }
    // the stay from 0 was broken at 120; the stay from 130 exceeds 100 ms at 240
    assert_eq!(fired, vec![false, false, false, false, false, true]);
}
