use bloblib::odometry::{plan_odometry, AxisSource, HeadingSource, OdomPlan, SensorPresence};

fn presence(v1: bool, v2: bool, h1: bool, h2: bool, imu: bool) -> SensorPresence {
    SensorPresence { vertical_1: v1, vertical_2: v2, horizontal_1: h1, horizontal_2: h2, imu }
}

#[test]
fn everything_fitted_uses_horizontal_pair() {
    assert_eq!(
        plan_odometry(presence(true, true, true, true, true)),
        OdomPlan {
            heading: HeadingSource::HorizontalPair,
            horizontal: AxisSource::WheelPair,
            vertical: AxisSource::WheelPair,
        }
    );
}

#[test]
fn vertical_pair_beats_imu() {
    let plan = plan_odometry(presence(true, true, true, false, true));
    assert_eq!(plan.heading, HeadingSource::VerticalPair);
    assert_eq!(plan.horizontal, AxisSource::FirstWheel);
    assert_eq!(plan.vertical, AxisSource::WheelPair);
}

#[test]
fn imu_beats_drivetrain() {
    let plan = plan_odometry(presence(true, false, false, false, true));
    assert_eq!(plan.heading, HeadingSource::Imu);
    assert_eq!(plan.horizontal, AxisSource::Fallback);
    assert_eq!(plan.vertical, AxisSource::FirstWheel);
}

#[test]
fn bare_drivetrain() {
    assert_eq!(
        plan_odometry(presence(false, false, false, false, false)),
        OdomPlan {
            heading: HeadingSource::Drivetrain,
            horizontal: AxisSource::Fallback,
            vertical: AxisSource::Fallback,
        }
    );
}

#[test]
fn second_wheel_alone_is_unused() {
    let plan = plan_odometry(presence(false, true, false, true, false));
    assert_eq!(plan.heading, HeadingSource::Drivetrain);
    assert_eq!(plan.horizontal, AxisSource::Fallback);
    assert_eq!(plan.vertical, AxisSource::Fallback);
}
