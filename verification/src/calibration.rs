use vstd::prelude::*;

verus! {

/// How many times the inertial sensor is calibrated before giving up.
pub const IMU_CALIBRATION_ATTEMPTS: u32 = 5;

/// The retry policy of IMU calibration: try again after each failure, up to
/// a fixed number of attempts, and stop at the first success.
#[derive(Debug, Clone, Copy, PartialEq, Eq, Structural)]
pub struct CalibrationAttempts {
    made: u32,
    succeeded: bool,
}

impl CalibrationAttempts {
    /// The number of attempts made so far.
    pub closed spec fn attempts(&self) -> nat {
        self.made as nat
    }

    /// Whether an attempt has succeeded.
    pub closed spec fn done(&self) -> bool {
        self.succeeded
    }

    pub open spec fn wf(&self) -> bool {
        self.attempts() <= IMU_CALIBRATION_ATTEMPTS
    }

    /// Whether the policy wants another attempt.
    pub open spec fn wants_attempt(&self) -> bool {
        !self.done() && self.attempts() < IMU_CALIBRATION_ATTEMPTS
    }

    /// No attempt made yet.
    pub fn new() -> (c: Self)
        ensures
            c.attempts() == 0,
            !c.done(),
            c.wf(),
    {
        CalibrationAttempts { made: 0, succeeded: false }
    }

    /// Whether another calibration should be tried.
    pub fn should_attempt(&self) -> (b: bool)
        ensures
            b == self.wants_attempt(),
    {
        !self.succeeded && self.made < IMU_CALIBRATION_ATTEMPTS
    }

    /// Records the outcome of an attempt; the result says whether to signal
    /// success to the driver.
    pub fn record(&mut self, ok: bool) -> (signal_success: bool)
        requires
            old(self).wf(),
            old(self).wants_attempt(),
        ensures
            final(self).attempts() == old(self).attempts() + 1,
            final(self).done() == ok,
            final(self).wf(),
            signal_success == ok,
    {
        self.made = self.made + 1;
        self.succeeded = ok;
        ok
    }
}

/// Calibration is tried at most a fixed number of times, and never again
/// once it has succeeded.
pub proof fn lemma_attempts_bounded(c: CalibrationAttempts)
    requires
        c.wf(),
    ensures
        c.wants_attempt() ==> c.attempts() < IMU_CALIBRATION_ATTEMPTS,
        c.done() ==> !c.wants_attempt(),
        c.attempts() == IMU_CALIBRATION_ATTEMPTS ==> !c.wants_attempt(),
        c.wants_attempt() <==> !c.done() && c.attempts() < 5,
{
}

} // verus!
