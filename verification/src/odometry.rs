use vstd::prelude::*;

verus! {

/// Which odometry sensors a chassis has.
#[derive(Debug, Clone, Copy, PartialEq, Eq, Structural)]
pub struct SensorPresence {
    pub vertical_1: bool,
    pub vertical_2: bool,
    pub horizontal_1: bool,
    pub horizontal_2: bool,
    pub imu: bool,
}

/// Where the change of heading comes from.
#[derive(Debug, Clone, Copy, PartialEq, Eq, Structural)]
pub enum HeadingSource {
    /// The difference of the two horizontal tracking wheels over the distance
    /// between them.
    HorizontalPair,
    /// The difference of the two vertical tracking wheels over the distance
    /// between them.
    VerticalPair,
    /// The change of the inertial sensor's rotation.
    Imu,
    /// The difference of the two drive sides over the track width.
    Drivetrain,
}

/// How the travel along one axis is measured.
#[derive(Debug, Clone, Copy, PartialEq, Eq, Structural)]
pub enum AxisSource {
    /// No tracking wheel on this axis: sideways travel counts as zero, and
    /// forward travel is the mean of the two drive sides.
    Fallback,
    /// The first tracking wheel of this axis alone.
    FirstWheel,
    /// The mean of both tracking wheels of this axis, and of their offsets.
    WheelPair,
}

/// Which sensor measures what in one odometry update.
#[derive(Debug, Clone, Copy, PartialEq, Eq, Structural)]
pub struct OdomPlan {
    pub heading: HeadingSource,
    pub horizontal: AxisSource,
    pub vertical: AxisSource,
}

/// The heading comes, in order of preference, from two horizontal wheels,
/// two vertical wheels, the inertial sensor, or the drivetrain.
pub open spec fn heading_source_of(p: SensorPresence) -> HeadingSource {
    if p.horizontal_1 && p.horizontal_2 {
        HeadingSource::HorizontalPair
    } else if p.vertical_1 && p.vertical_2 {
        HeadingSource::VerticalPair
    } else if p.imu {
        HeadingSource::Imu
    } else {
        HeadingSource::Drivetrain
    }
}

/// An axis uses its first wheel, averaged with the second when both are
/// there; a second wheel without a first is not used.
pub open spec fn axis_source_of(first: bool, second: bool) -> AxisSource {
    if first {
        if second {
            AxisSource::WheelPair
        } else {
            AxisSource::FirstWheel
        }
    } else {
        AxisSource::Fallback
    }
}

pub open spec fn odom_plan_of(p: SensorPresence) -> OdomPlan {
    OdomPlan {
        heading: heading_source_of(p),
        horizontal: axis_source_of(p.horizontal_1, p.horizontal_2),
        vertical: axis_source_of(p.vertical_1, p.vertical_2),
    }
}

/// Chooses the sensors that one odometry update reads.
pub fn plan_odometry(p: SensorPresence) -> (plan: OdomPlan)
    ensures
        plan == odom_plan_of(p),
{
    let heading = if p.horizontal_1 && p.horizontal_2 {
        HeadingSource::HorizontalPair
    } else if p.vertical_1 && p.vertical_2 {
        HeadingSource::VerticalPair
    } else if p.imu {
        HeadingSource::Imu
    } else {
        HeadingSource::Drivetrain
    };
    OdomPlan {
        heading,
        horizontal: axis_source(p.horizontal_1, p.horizontal_2),
        vertical: axis_source(p.vertical_1, p.vertical_2),
    }
}

fn axis_source(first: bool, second: bool) -> (a: AxisSource)
    ensures
        a == axis_source_of(first, second),
{
    if first {
        if second {
            AxisSource::WheelPair
        } else {
            AxisSource::FirstWheel
        }
    } else {
        AxisSource::Fallback
    }
}

/// A sensor of higher priority always wins the heading: the horizontal pair
/// exactly when both horizontal wheels are fitted; the vertical pair exactly
/// when both vertical wheels are fitted and the horizontal pair is not; the
/// inertial sensor exactly when it is fitted and neither pair is complete; the
/// drivetrain exactly when nothing else can give a heading. An axis uses both
/// of its wheels exactly when both are fitted, its first wheel alone when only
/// that one is, and falls back otherwise.
pub proof fn lemma_heading_priority(p: SensorPresence)
    ensures
        (heading_source_of(p) == HeadingSource::HorizontalPair) <==> p.horizontal_1 && p.horizontal_2,
        (heading_source_of(p) == HeadingSource::VerticalPair) <==> !(p.horizontal_1 && p.horizontal_2)
            && p.vertical_1 && p.vertical_2,
        (heading_source_of(p) == HeadingSource::Imu) <==> p.imu && !(p.horizontal_1 && p.horizontal_2)
            && !(p.vertical_1 && p.vertical_2),
        (heading_source_of(p) == HeadingSource::Drivetrain) <==> !p.imu && !(p.horizontal_1
            && p.horizontal_2) && !(p.vertical_1 && p.vertical_2),
        odom_plan_of(p).heading == heading_source_of(p),
        (odom_plan_of(p).horizontal == AxisSource::WheelPair) <==> p.horizontal_1 && p.horizontal_2,
        (odom_plan_of(p).horizontal == AxisSource::FirstWheel) <==> p.horizontal_1 && !p.horizontal_2,
        (odom_plan_of(p).horizontal == AxisSource::Fallback) <==> !p.horizontal_1,
        (odom_plan_of(p).vertical == AxisSource::WheelPair) <==> p.vertical_1 && p.vertical_2,
        (odom_plan_of(p).vertical == AxisSource::FirstWheel) <==> p.vertical_1 && !p.vertical_2,
        (odom_plan_of(p).vertical == AxisSource::Fallback) <==> !p.vertical_1,
{
}

} // verus!
