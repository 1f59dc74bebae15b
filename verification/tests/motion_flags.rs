use bloblib::motion_flags::MotionFlags;

#[test]
fn start_when_idle_runs_at_once() {
    let mut f = MotionFlags::new();
    assert_eq!(f, MotionFlags { running: false, queued: false });
    f.request_start();
    assert_eq!(f, MotionFlags { running: true, queued: false });
    assert!(f.admits());
}

#[test]
fn second_motion_waits_then_runs() {
    let mut f = MotionFlags::new();
    f.request_start();
    f.request_start();
    assert_eq!(f, MotionFlags { running: true, queued: true });
    f.finish();
    assert_eq!(f, MotionFlags { running: true, queued: false });
    assert!(f.admits());
    f.finish();
    assert_eq!(f, MotionFlags { running: false, queued: false });
}

#[test]
fn cancel_current_lets_waiting_motion_run() {
    let mut f = MotionFlags::new();
    f.request_start();
    f.request_start();
    f.cancel_current();
    assert_eq!(f, MotionFlags { running: false, queued: true });
    f.finish();
    assert!(f.admits());
}

#[test]
fn cancel_all_stops_waiting_motion() {
    let mut f = MotionFlags::new();
    f.request_start();
    f.request_start();
    f.cancel_all();
    assert_eq!(f, MotionFlags { running: false, queued: false });
    f.finish();
    assert!(!f.admits());
}

#[test]
fn motion_cancelled_before_its_turn_is_not_admitted() {
    let mut f = MotionFlags::new();
    f.request_start();
    f.cancel_current();
    assert!(!f.admits());
}
