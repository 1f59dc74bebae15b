use vstd::prelude::*;

verus! {

/// The direction in which a turn toward a heading is allowed to go.
///
/// `Auto` takes whichever way is shorter; the other two force the turn in one
/// rotational sense even when it is the long way round.
#[derive(Debug, Clone, Copy, PartialEq, Eq, Structural, PartialOrd)]
pub enum AngularDirection {
    Auto,
    Clockwise,
    CounterClockwise,
}

impl Default for AngularDirection {
    fn default() -> (d: Self)
        ensures
            d == AngularDirection::Auto,
    {
        AngularDirection::Auto
    }
}

/// A side of the drivetrain, used to pick which side is held still during a
/// swing turn.
#[derive(Debug, PartialEq, Eq, Structural)]
pub enum DriveSide {
    Left,
    Right,
}

} // verus!
