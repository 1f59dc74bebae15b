use vstd::prelude::*;

verus! {

/// The two flags through which motions started on a chassis wait for one
/// another: whether a motion is running, and whether another one is waiting
/// to run after it.
///
/// A motion that starts while another runs marks itself as waiting and then
/// waits for the running one to end; when it gets its turn it runs only if the
/// running flag is still set, so a cancellation in between stops it before it
/// moves the robot.
#[derive(Debug, Clone, Copy, PartialEq, Eq, Structural)]
pub struct MotionFlags {
    pub running: bool,
    pub queued: bool,
}

pub open spec fn flags_after_start(f: MotionFlags) -> MotionFlags {
    if f.running {
        MotionFlags { running: true, queued: true }
    } else {
        MotionFlags { running: true, queued: f.queued }
    }
}

pub open spec fn flags_after_finish(f: MotionFlags) -> MotionFlags {
    MotionFlags { running: f.queued, queued: false }
}

pub open spec fn flags_after_cancel_current(f: MotionFlags) -> MotionFlags {
    MotionFlags { running: false, queued: f.queued }
}

pub open spec fn flags_after_cancel_all(f: MotionFlags) -> MotionFlags {
    MotionFlags { running: false, queued: false }
}

impl MotionFlags {
    pub open spec fn spec_idle() -> MotionFlags {
        MotionFlags { running: false, queued: false }
    }

    /// Nothing running, nothing waiting.
    pub fn new() -> (f: Self)
        ensures
            f == MotionFlags::spec_idle(),
    {
        MotionFlags { running: false, queued: false }
    }

    /// Registers a motion that wants to start: it runs at once if nothing
    /// runs, else it is marked as waiting.
    pub fn request_start(&mut self)
        ensures
            *final(self) == flags_after_start(*old(self)),
    {
        if self.running {
            self.queued = true;
        } else {
            self.running = true;
        }
    }

    /// Whether a motion that has got its turn may run.
    pub fn admits(&self) -> (b: bool)
        ensures
            b == self.running,
    {
        self.running
    }

    /// Ends the running motion: a waiting motion, if any, becomes the running
    /// one.
    pub fn finish(&mut self)
        ensures
            *final(self) == flags_after_finish(*old(self)),
    {
        self.running = self.queued;
        self.queued = false;
    }

    /// Stops the running motion; a waiting one keeps waiting.
    pub fn cancel_current(&mut self)
        ensures
            *final(self) == flags_after_cancel_current(*old(self)),
    {
        self.running = false;
    }

    /// Stops the running motion and withdraws the waiting one.
    pub fn cancel_all(&mut self)
        ensures
            *final(self) == flags_after_cancel_all(*old(self)),
    {
        self.running = false;
        self.queued = false;
    }
}

/// A motion that asks to start is let through at once when nothing else runs.
pub proof fn lemma_start_when_idle(f: MotionFlags)
    requires
        !f.running,
    ensures
        flags_after_start(f).running,
{
}

/// A motion that asks to start while another runs waits, and is let through
/// once the running motion ends.
pub proof fn lemma_waiting_motion_runs_next(f: MotionFlags)
    requires
        f.running,
    ensures
        flags_after_start(f).queued,
        flags_after_finish(flags_after_start(f)).running,
{
}

/// Cancelling the current motion lets a waiting one run once the current one
/// has ended; cancelling everything stops the waiting one too.
pub proof fn lemma_cancellation(f: MotionFlags)
    ensures
        !flags_after_cancel_current(f).running,
        flags_after_finish(flags_after_cancel_current(f)).running == f.queued,
        !flags_after_cancel_all(f).running,
        !flags_after_finish(flags_after_cancel_all(f)).running,
        flags_after_finish(flags_after_cancel_all(f)) == MotionFlags::spec_idle(),
{
}

/// What each flag operation does, flag by flag: asking to start never clears
/// the running flag and marks a motion as waiting exactly when one was
/// already running or waiting; ending the running motion lets the waiting one,
/// if any, run and leaves nothing waiting; cancelling the current motion
/// clears only the running flag; cancelling everything clears both.
pub proof fn lemma_flag_transitions(f: MotionFlags)
    ensures
        flags_after_start(f).running,
        flags_after_start(f).queued == (f.running || f.queued),
        flags_after_finish(f).running == f.queued,
        !flags_after_finish(f).queued,
        !flags_after_cancel_current(f).running,
        flags_after_cancel_current(f).queued == f.queued,
        !flags_after_cancel_all(f).running,
        !flags_after_cancel_all(f).queued,
        !MotionFlags::spec_idle().running,
        !MotionFlags::spec_idle().queued,
{
}

} // verus!
