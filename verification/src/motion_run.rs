use vstd::prelude::*;

use crate::motion_queue::{
    queue_advance, queue_after_tick, queue_apply_flag, queue_phase, queue_push, queue_wf, MotionFlag, Phase,
    QueueState,
};

verus! {

/// One thing the motion handler does with a motion.
#[derive(Debug, Clone, Copy, PartialEq, Eq, Structural)]
pub enum EventKind {
    /// The motion was appended to the queue.
    Queued,
    /// The motion became active: the local pose and the travelled distance
    /// were reset and the motion was set up.
    SetUp,
    /// The motion was ticked.
    Ticked,
    /// The motion left the queue through a cancellation or at the end of its
    /// run, and was cleaned up.
    CleanedUp,
}

/// A handler event: what happened, and to which motion.
pub struct HandlerEvent<M> {
    pub kind: EventKind,
    pub motion: M,
}

pub open spec fn event<M>(kind: EventKind, motion: M) -> HandlerEvent<M> {
    HandlerEvent { kind, motion }
}

/// One step of the handler: a request taken from its buffer, or one pass
/// over the front of the queue with the outcome of the tick it makes.
pub enum HandlerStep<M> {
    Request(MotionFlag<M>),
    Pass { finished: bool, timed_out: bool },
}

/// The clean-up a tick outcome causes for motion `m`.
pub open spec fn tick_cleanup<M>(m: M, finished: bool, timed_out: bool) -> Seq<HandlerEvent<M>> {
    if finished || timed_out {
        seq![event(EventKind::CleanedUp, m)]
    } else {
        Seq::empty()
    }
}

/// The state after one step, and the events it causes, in order.
pub open spec fn handler_step<M>(s: QueueState<M>, step: HandlerStep<M>) -> (QueueState<M>, Seq<HandlerEvent<M>>) {
    match step {
        HandlerStep::Request(f) => (
            queue_apply_flag(s, f),
            match f {
                MotionFlag::New(m) => seq![event(EventKind::Queued, m)],
                _ => if s.motions.len() > 0 {
                    seq![event(EventKind::CleanedUp, s.motions[0])]
                } else {
                    Seq::empty()
                },
            },
        ),
        HandlerStep::Pass { finished, timed_out } => {
            let a = queue_advance(s);
            match queue_phase(s) {
                Phase::Idle => (a, Seq::empty()),
                Phase::Starting => (
                    queue_after_tick(a, finished, timed_out),
                    seq![event(EventKind::SetUp, s.motions[0]), event(EventKind::Ticked, s.motions[0])]
                        + tick_cleanup(s.motions[0], finished, timed_out),
                ),
                Phase::Running => (
                    queue_after_tick(a, finished, timed_out),
                    seq![event(EventKind::Ticked, s.motions[0])] + tick_cleanup(
                        s.motions[0],
                        finished,
                        timed_out,
                    ),
                ),
            }
        },
    }
}

/// The state and the event log after running `steps` from an empty handler.
pub open spec fn handler_run<M>(steps: Seq<HandlerStep<M>>) -> (QueueState<M>, Seq<HandlerEvent<M>>)
    decreases steps.len(),
{
    if steps.len() == 0 {
        (QueueState { motions: Seq::empty(), active: false }, Seq::empty())
    } else {
        let prev = handler_run(steps.drop_last());
        let next = handler_step(prev.0, steps.last());
        (next.0, prev.1 + next.1)
    }
}

/// A step can be taken: a cancellation of the current motion needs one, and
/// each new motion is one not queued before.
pub open spec fn step_ok<M>(s: QueueState<M>, log: Seq<HandlerEvent<M>>, step: HandlerStep<M>) -> bool {
    match step {
        HandlerStep::Request(MotionFlag::CancelCurrent) => s.motions.len() > 0,
        HandlerStep::Request(MotionFlag::New(m)) => !log.contains(event(EventKind::Queued, m)),
        _ => true,
    }
}

pub open spec fn handler_run_ok<M>(steps: Seq<HandlerStep<M>>) -> bool
    decreases steps.len(),
{
    steps.len() == 0 || (handler_run_ok(steps.drop_last()) && step_ok(
        handler_run(steps.drop_last()).0,
        handler_run(steps.drop_last()).1,
        steps.last(),
    ))
}

/// Each motion is set up at most once.
#[verifier::opaque]
pub open spec fn setups_distinct<M>(log: Seq<HandlerEvent<M>>) -> bool {
    forall|i: int, j: int|
        0 <= i < j < log.len() && log[i].kind == EventKind::SetUp && log[j].kind == EventKind::SetUp
            ==> log[i].motion != log[j].motion
}

/// Each motion is cleaned up at most once.
#[verifier::opaque]
pub open spec fn cleanups_distinct<M>(log: Seq<HandlerEvent<M>>) -> bool {
    forall|i: int, j: int|
        0 <= i < j < log.len() && log[i].kind == EventKind::CleanedUp && log[j].kind
            == EventKind::CleanedUp ==> log[i].motion != log[j].motion
}

/// Every set-up that is not the last event is followed at once by a tick
/// of the same motion.
#[verifier::opaque]
pub open spec fn setup_then_tick_open<M>(log: Seq<HandlerEvent<M>>) -> bool {
    forall|i: int, j: int|
        #![trigger log[i], log[j]]
        0 <= i && j == i + 1 && j < log.len() && log[i].kind == EventKind::SetUp ==> log[j] == event(
            EventKind::Ticked,
            log[i].motion,
        )
}

/// Every tick of a motion comes after its set-up, with no clean-up of it in
/// between.
#[verifier::opaque]
pub open spec fn tick_after_setup<M>(log: Seq<HandlerEvent<M>>) -> bool {
    forall|j: int|
        0 <= j < log.len() && #[trigger] log[j].kind == EventKind::Ticked ==> exists|i: int|
            0 <= i < j && log[i] == event(EventKind::SetUp, log[j].motion) && forall|k: int|
                i < k < j ==> log[k] != event(EventKind::CleanedUp, log[j].motion)
}

/// Only a motion that was queued earlier is cleaned up.
#[verifier::opaque]
pub open spec fn cleanup_after_queue<M>(log: Seq<HandlerEvent<M>>) -> bool {
    forall|j: int|
        0 <= j < log.len() && #[trigger] log[j].kind == EventKind::CleanedUp ==> exists|i: int|
            0 <= i < j && log[i] == event(EventKind::Queued, log[j].motion)
}

/// What the event log of any run guarantees: each motion is set up at most
/// once and its set-up is followed at once by its first tick; every tick
/// comes after the motion's set-up with no clean-up in between; each motion
/// is cleaned up at most once, and only after it was queued.
pub open spec fn handler_log_ok<M>(log: Seq<HandlerEvent<M>>) -> bool {
    &&& setups_distinct(log)
    &&& setup_then_tick_open(log)
    &&& !ends_open(log)
    &&& tick_after_setup(log)
    &&& cleanups_distinct(log)
    &&& cleanup_after_queue(log)
}

/// The log properties while a step is being recorded: a set-up may still
/// wait for its tick at the end.
spec fn log_ok_open<M>(log: Seq<HandlerEvent<M>>) -> bool {
    &&& setups_distinct(log)
    &&& cleanups_distinct(log)
    &&& setup_then_tick_open(log)
    &&& tick_after_setup(log)
    &&& cleanup_after_queue(log)
}

/// The log ends with a set-up still waiting for its tick.
pub open spec fn ends_open<M>(log: Seq<HandlerEvent<M>>) -> bool {
    log.len() > 0 && log.last().kind == EventKind::SetUp
}

/// The relation between the queue and the log that every run keeps.
#[verifier::opaque]
spec fn handler_inv<M>(s: QueueState<M>, log: Seq<HandlerEvent<M>>) -> bool {
    &&& queue_wf(s)
    &&& log_ok_open(log)
    &&& !ends_open(log)
    &&& forall|i: int, j: int| 0 <= i < j < s.motions.len() ==> s.motions[i] != s.motions[j]
    &&& forall|i: int|
        0 <= i < s.motions.len() ==> log.contains(event(EventKind::Queued, #[trigger] s.motions[i]))
            && !log.contains(event(EventKind::CleanedUp, s.motions[i]))
    &&& forall|m: M|
        #[trigger] log.contains(event(EventKind::SetUp, m)) ==> log.contains(event(EventKind::CleanedUp, m))
            || (s.active && s.motions[0] == m)
    &&& s.active ==> log.contains(event(EventKind::SetUp, s.motions[0]))
    &&& forall|m: M|
        #[trigger] log.contains(event(EventKind::CleanedUp, m)) ==> log.contains(event(EventKind::Queued, m))
}

proof fn lemma_push_contains<M>(log: Seq<HandlerEvent<M>>, e: HandlerEvent<M>)
    ensures
        forall|x: HandlerEvent<M>| #[trigger] log.push(e).contains(x) <==> (log.contains(x) || x == e),
{
    assert forall|x: HandlerEvent<M>| #[trigger] log.push(e).contains(x) <==> (log.contains(x) || x == e) by {
        if log.push(e).contains(x) {
            let i = choose|i: int| 0 <= i < log.push(e).len() && log.push(e)[i] == x;
            if i < log.len() {
                assert(log[i] == x);
            }
        }
        if log.contains(x) {
            let i = choose|i: int| 0 <= i < log.len() && log[i] == x;
            assert(log.push(e)[i] == x);
        }
        if x == e {
            assert(log.push(e)[log.len() as int] == x);
        }
    }
}

proof fn lemma_append_setups<M>(log: Seq<HandlerEvent<M>>, e: HandlerEvent<M>)
    requires
        setups_distinct(log),
        e.kind == EventKind::SetUp ==> !log.contains(event(EventKind::SetUp, e.motion)),
    ensures
        setups_distinct(log.push(e)),
{
    reveal(setups_distinct);
    let l2 = log.push(e);
    let n = log.len() as int;
    assert forall|i: int, j: int|
        0 <= i < j < l2.len() && l2[i].kind == EventKind::SetUp && l2[j].kind == EventKind::SetUp
            implies l2[i].motion != l2[j].motion by {
        assert(log[i] == l2[i]);
        if j == n {
            if l2[i].motion == l2[j].motion {
                assert(log[i] == event(EventKind::SetUp, e.motion));
                assert(log.contains(event(EventKind::SetUp, e.motion)));
            }
        } else {
            assert(log[j] == l2[j]);
        }
    }
}

proof fn lemma_append_cleanups<M>(log: Seq<HandlerEvent<M>>, e: HandlerEvent<M>)
    requires
        cleanups_distinct(log),
        e.kind == EventKind::CleanedUp ==> !log.contains(event(EventKind::CleanedUp, e.motion)),
    ensures
        cleanups_distinct(log.push(e)),
{
    reveal(cleanups_distinct);
    let l2 = log.push(e);
    let n = log.len() as int;
    assert forall|i: int, j: int|
        0 <= i < j < l2.len() && l2[i].kind == EventKind::CleanedUp && l2[j].kind
            == EventKind::CleanedUp implies l2[i].motion != l2[j].motion by {
        assert(log[i] == l2[i]);
        if j == n {
            if l2[i].motion == l2[j].motion {
                assert(log[i] == event(EventKind::CleanedUp, e.motion));
                assert(log.contains(event(EventKind::CleanedUp, e.motion)));
            }
        } else {
            assert(log[j] == l2[j]);
        }
    }
}

proof fn lemma_append_setup_tick<M>(log: Seq<HandlerEvent<M>>, e: HandlerEvent<M>)
    requires
        setup_then_tick_open(log),
        ends_open(log) ==> e == event(EventKind::Ticked, log.last().motion),
    ensures
        setup_then_tick_open(log.push(e)),
{
    reveal(setup_then_tick_open);
    let l2 = log.push(e);
    let n = log.len() as int;
    assert forall|i: int, j: int|
        #![trigger l2[i], l2[j]]
        0 <= i && j == i + 1 && j < l2.len() && l2[i].kind == EventKind::SetUp implies l2[j] == event(
            EventKind::Ticked,
            l2[i].motion,
        ) by {
        assert(l2[i] == log[i]);
        if j == n {
            assert(log.last() == log[i]);
        } else {
            assert(l2[j] == log[j]);
            assert(log[i].kind == EventKind::SetUp);
        }
    }
}

proof fn lemma_append_tick<M>(log: Seq<HandlerEvent<M>>, e: HandlerEvent<M>)
    requires
        tick_after_setup(log),
        e.kind == EventKind::Ticked ==> log.contains(event(EventKind::SetUp, e.motion)) && !log.contains(
            event(EventKind::CleanedUp, e.motion),
        ),
    ensures
        tick_after_setup(log.push(e)),
{
    reveal(tick_after_setup);
    let l2 = log.push(e);
    let n = log.len() as int;
    assert forall|j: int| 0 <= j < l2.len() && #[trigger] l2[j].kind == EventKind::Ticked implies exists|i: int|
        0 <= i < j && l2[i] == event(EventKind::SetUp, l2[j].motion) && forall|k: int|
            i < k < j ==> l2[k] != event(EventKind::CleanedUp, l2[j].motion) by {
        if j == n {
            let i = choose|i: int| 0 <= i < log.len() && log[i] == event(EventKind::SetUp, e.motion);
            assert(l2[i] == log[i]);
            assert forall|k: int| i < k < j implies l2[k] != event(EventKind::CleanedUp, l2[j].motion) by {
                assert(l2[k] == log[k]);
                if log[k] == event(EventKind::CleanedUp, e.motion) {
                    assert(log.contains(event(EventKind::CleanedUp, e.motion)));
                }
            }
        } else {
            assert(l2[j] == log[j]);
            assert(log[j].kind == EventKind::Ticked);
            let i = choose|i: int|
                0 <= i < j && log[i] == event(EventKind::SetUp, log[j].motion) && forall|k: int|
                    i < k < j ==> log[k] != event(EventKind::CleanedUp, log[j].motion);
            assert(l2[i] == log[i]);
            assert forall|k: int| i < k < j implies l2[k] != event(EventKind::CleanedUp, l2[j].motion) by {
                assert(l2[k] == log[k]);
            }
        }
    }
}

proof fn lemma_append_cleanup<M>(log: Seq<HandlerEvent<M>>, e: HandlerEvent<M>)
    requires
        cleanup_after_queue(log),
        e.kind == EventKind::CleanedUp ==> log.contains(event(EventKind::Queued, e.motion)),
    ensures
        cleanup_after_queue(log.push(e)),
{
    reveal(cleanup_after_queue);
    let l2 = log.push(e);
    let n = log.len() as int;
    assert forall|j: int| 0 <= j < l2.len() && #[trigger] l2[j].kind == EventKind::CleanedUp implies exists|i: int|
        0 <= i < j && l2[i] == event(EventKind::Queued, l2[j].motion) by {
        if j == n {
            let i = choose|i: int| 0 <= i < log.len() && log[i] == event(EventKind::Queued, e.motion);
            assert(l2[i] == log[i]);
        } else {
            assert(l2[j] == log[j]);
            assert(log[j].kind == EventKind::CleanedUp);
            let i = choose|i: int| 0 <= i < j && log[i] == event(EventKind::Queued, log[j].motion);
            assert(l2[i] == log[i]);
        }
    }
}

/// Appending one event keeps the log properties, given what each kind of
/// event needs.
proof fn lemma_append<M>(log: Seq<HandlerEvent<M>>, e: HandlerEvent<M>)
    requires
        log_ok_open(log),
        ends_open(log) ==> e == event(EventKind::Ticked, log.last().motion),
        e.kind == EventKind::SetUp ==> !log.contains(event(EventKind::SetUp, e.motion)),
        e.kind == EventKind::Ticked ==> log.contains(event(EventKind::SetUp, e.motion)) && !log.contains(
            event(EventKind::CleanedUp, e.motion),
        ),
        e.kind == EventKind::CleanedUp ==> !log.contains(event(EventKind::CleanedUp, e.motion))
            && log.contains(event(EventKind::Queued, e.motion)),
    ensures
        log_ok_open(log.push(e)),
        ends_open(log.push(e)) <==> e.kind == EventKind::SetUp,
        forall|x: HandlerEvent<M>| #[trigger] log.push(e).contains(x) <==> (log.contains(x) || x == e),
{
    lemma_append_setups(log, e);
    lemma_append_cleanups(log, e);
    lemma_append_setup_tick(log, e);
    lemma_append_tick(log, e);
    lemma_append_cleanup(log, e);
    lemma_push_contains(log, e);
}

proof fn lemma_step_new<M>(s: QueueState<M>, log: Seq<HandlerEvent<M>>, m: M)
    requires
        handler_inv(s, log),
        !log.contains(event(EventKind::Queued, m)),
    ensures
        handler_inv(queue_push(s, m), log.push(event(EventKind::Queued, m))),
{
    reveal(handler_inv);
    let e = event(EventKind::Queued, m);
    lemma_append(log, e);
    let s2 = queue_push(s, m);
    let l2 = log.push(e);
    assert(!log.contains(event(EventKind::CleanedUp, m)));
    assert forall|i: int, j: int| 0 <= i < j < s2.motions.len() implies s2.motions[i] != s2.motions[j] by {
        if j == s.motions.len() {
            assert(log.contains(event(EventKind::Queued, s.motions[i])));
        } else {
            assert(s2.motions[i] == s.motions[i] && s2.motions[j] == s.motions[j]);
        }
    }
    assert forall|i: int| 0 <= i < s2.motions.len() implies l2.contains(
        event(EventKind::Queued, #[trigger] s2.motions[i]),
    ) && !l2.contains(event(EventKind::CleanedUp, s2.motions[i])) by {
        if i < s.motions.len() {
            assert(s2.motions[i] == s.motions[i]);
            assert(log.contains(event(EventKind::Queued, s.motions[i])));
        }
    }
    assert forall|m2: M| #[trigger] l2.contains(event(EventKind::SetUp, m2)) implies l2.contains(
        event(EventKind::CleanedUp, m2),
    ) || (s2.active && s2.motions[0] == m2) by {
        assert(log.contains(event(EventKind::SetUp, m2)));
        if !log.contains(event(EventKind::CleanedUp, m2)) {
            assert(s.active && s.motions[0] == m2);
            assert(s2.motions[0] == s.motions[0]);
        }
    }
    if s2.active {
        assert(s2.motions[0] == s.motions[0]);
        assert(log.contains(event(EventKind::SetUp, s.motions[0])));
    }
    assert forall|m2: M| #[trigger] l2.contains(event(EventKind::CleanedUp, m2)) implies l2.contains(
        event(EventKind::Queued, m2),
    ) by {
        assert(log.contains(event(EventKind::CleanedUp, m2)));
        assert(log.contains(event(EventKind::Queued, m2)));
    }
}

/// Removing the front motion with its clean-up event keeps the invariant.
proof fn lemma_step_remove_front<M>(s: QueueState<M>, log: Seq<HandlerEvent<M>>)
    requires
        handler_inv(s, log),
        s.motions.len() > 0,
    ensures
        handler_inv(
            QueueState { motions: s.motions.drop_first(), active: false },
            log.push(event(EventKind::CleanedUp, s.motions[0])),
        ),
{
    reveal(handler_inv);
    let m0 = s.motions[0];
    let e = event(EventKind::CleanedUp, m0);
    assert(log.contains(event(EventKind::Queued, s.motions[0])));
    lemma_append(log, e);
    let s2 = QueueState { motions: s.motions.drop_first(), active: false };
    let l2 = log.push(e);
    assert forall|i: int, j: int| 0 <= i < j < s2.motions.len() implies s2.motions[i] != s2.motions[j] by {
        assert(s2.motions[i] == s.motions[i + 1] && s2.motions[j] == s.motions[j + 1]);
    }
    assert forall|i: int| 0 <= i < s2.motions.len() implies l2.contains(
        event(EventKind::Queued, #[trigger] s2.motions[i]),
    ) && !l2.contains(event(EventKind::CleanedUp, s2.motions[i])) by {
        assert(s2.motions[i] == s.motions[i + 1]);
        assert(log.contains(event(EventKind::Queued, s.motions[i + 1])));
        assert(s.motions[i + 1] != s.motions[0]);
    }
    assert forall|m2: M| #[trigger] l2.contains(event(EventKind::SetUp, m2)) implies l2.contains(
        event(EventKind::CleanedUp, m2),
    ) || (s2.active && s2.motions[0] == m2) by {
        assert(log.contains(event(EventKind::SetUp, m2)));
    }
    assert forall|m2: M| #[trigger] l2.contains(event(EventKind::CleanedUp, m2)) implies l2.contains(
        event(EventKind::Queued, m2),
    ) by {
        if m2 != m0 {
            assert(log.contains(event(EventKind::CleanedUp, m2)));
        }
    }
}

/// Emptying the queue keeps the invariant; only the front motion gets a
/// clean-up event.
proof fn lemma_step_cancel_all<M>(s: QueueState<M>, log: Seq<HandlerEvent<M>>)
    requires
        handler_inv(s, log),
    ensures
        handler_inv(
            QueueState { motions: Seq::empty(), active: false },
            if s.motions.len() > 0 {
                log.push(event(EventKind::CleanedUp, s.motions[0]))
            } else {
                log
            },
        ),
{
    reveal(handler_inv);
    if s.motions.len() > 0 {
        lemma_step_remove_front(s, log);
    }
}

/// Starting a motion: its set-up and first tick are recorded and the
/// handler becomes active.
proof fn lemma_step_start<M>(s: QueueState<M>, log: Seq<HandlerEvent<M>>)
    requires
        handler_inv(s, log),
        s.motions.len() > 0,
        !s.active,
    ensures
        handler_inv(
            QueueState { motions: s.motions, active: true },
            log.push(event(EventKind::SetUp, s.motions[0])).push(event(EventKind::Ticked, s.motions[0])),
        ),
{
    reveal(handler_inv);
    let m0 = s.motions[0];
    let e1 = event(EventKind::SetUp, m0);
    let e2 = event(EventKind::Ticked, m0);
    assert(!log.contains(event(EventKind::CleanedUp, m0)));
    assert(!log.contains(e1));
    lemma_append(log, e1);
    let l1 = log.push(e1);
    assert(l1.last() == e1);
    lemma_append(l1, e2);
    let l2 = l1.push(e2);
    let s2 = QueueState { motions: s.motions, active: true };
    assert forall|i: int| 0 <= i < s2.motions.len() implies l2.contains(
        event(EventKind::Queued, #[trigger] s2.motions[i]),
    ) && !l2.contains(event(EventKind::CleanedUp, s2.motions[i])) by {
        assert(log.contains(event(EventKind::Queued, s.motions[i])));
    }
    assert forall|m2: M| #[trigger] l2.contains(event(EventKind::SetUp, m2)) implies l2.contains(
        event(EventKind::CleanedUp, m2),
    ) || (s2.active && s2.motions[0] == m2) by {
        if m2 != m0 {
            assert(log.contains(event(EventKind::SetUp, m2)));
        }
    }
    assert forall|m2: M| #[trigger] l2.contains(event(EventKind::CleanedUp, m2)) implies l2.contains(
        event(EventKind::Queued, m2),
    ) by {
        assert(log.contains(event(EventKind::CleanedUp, m2)));
    }
}

/// Ticking the active motion again records the tick and changes nothing else.
proof fn lemma_step_tick<M>(s: QueueState<M>, log: Seq<HandlerEvent<M>>)
    requires
        handler_inv(s, log),
        s.active,
    ensures
        handler_inv(s, log.push(event(EventKind::Ticked, s.motions[0]))),
{
    reveal(handler_inv);
    let m0 = s.motions[0];
    let e = event(EventKind::Ticked, m0);
    assert(!log.contains(event(EventKind::CleanedUp, m0)));
    lemma_append(log, e);
    let l2 = log.push(e);
    assert forall|i: int| 0 <= i < s.motions.len() implies l2.contains(
        event(EventKind::Queued, #[trigger] s.motions[i]),
    ) && !l2.contains(event(EventKind::CleanedUp, s.motions[i])) by {
        assert(log.contains(event(EventKind::Queued, s.motions[i])));
    }
    assert forall|m2: M| #[trigger] l2.contains(event(EventKind::SetUp, m2)) implies l2.contains(
        event(EventKind::CleanedUp, m2),
    ) || (s.active && s.motions[0] == m2) by {
        assert(log.contains(event(EventKind::SetUp, m2)));
    }
    assert forall|m2: M| #[trigger] l2.contains(event(EventKind::CleanedUp, m2)) implies l2.contains(
        event(EventKind::Queued, m2),
    ) by {
        assert(log.contains(event(EventKind::CleanedUp, m2)));
    }
}

proof fn lemma_step<M>(s: QueueState<M>, log: Seq<HandlerEvent<M>>, step: HandlerStep<M>)
    requires
        handler_inv(s, log),
        step_ok(s, log, step),
    ensures
        handler_inv(handler_step(s, step).0, log + handler_step(s, step).1),
{
    let ev = handler_step(s, step).1;
    match step {
        HandlerStep::Request(f) => match f {
            MotionFlag::New(m) => {
                assert(log + ev =~= log.push(event(EventKind::Queued, m)));
                lemma_step_new(s, log, m);
            },
            MotionFlag::CancelCurrent => {
                assert(log + ev =~= log.push(event(EventKind::CleanedUp, s.motions[0])));
                lemma_step_remove_front(s, log);
            },
            MotionFlag::CancelAll => {
                if s.motions.len() > 0 {
                    assert(log + ev =~= log.push(event(EventKind::CleanedUp, s.motions[0])));
                } else {
                    assert(log + ev =~= log);
                }
                lemma_step_cancel_all(s, log);
            },
        },
        HandlerStep::Pass { finished, timed_out } => {
            let m0 = s.motions[0];
            match queue_phase(s) {
                Phase::Idle => {
                    lemma_inv_log(s, log);
                    assert(log + ev =~= log);
                    assert(handler_step(s, step).0 == s);
                },
                Phase::Starting => {
                    let l1 = log.push(event(EventKind::SetUp, m0)).push(event(EventKind::Ticked, m0));
                    let a = QueueState { motions: s.motions, active: true };
                    lemma_step_start(s, log);
                    if finished || timed_out {
                        assert(log + ev =~= l1.push(event(EventKind::CleanedUp, m0)));
                        lemma_step_remove_front(a, l1);
                    } else {
                        assert(log + ev =~= l1);
                    }
                },
                Phase::Running => {
                    let l1 = log.push(event(EventKind::Ticked, m0));
                    lemma_step_tick(s, log);
                    assert(queue_advance(s) == s);
                    if finished || timed_out {
                        assert(log + ev =~= l1.push(event(EventKind::CleanedUp, m0)));
                        lemma_step_remove_front(s, l1);
                    } else {
                        assert(log + ev =~= l1);
                    }
                },
            }
        },
    }
}

proof fn lemma_log_empty<M>()
    ensures
        log_ok_open(Seq::<HandlerEvent<M>>::empty()),
{
    lemma_empty_setups::<M>();
    lemma_empty_cleanups::<M>();
    lemma_empty_setup_tick::<M>();
    lemma_empty_ticks::<M>();
    lemma_empty_queued::<M>();
}

proof fn lemma_empty_setups<M>()
    ensures
        setups_distinct(Seq::<HandlerEvent<M>>::empty()),
{
    reveal(setups_distinct);
}

proof fn lemma_empty_cleanups<M>()
    ensures
        cleanups_distinct(Seq::<HandlerEvent<M>>::empty()),
{
    reveal(cleanups_distinct);
}

proof fn lemma_empty_setup_tick<M>()
    ensures
        setup_then_tick_open(Seq::<HandlerEvent<M>>::empty()),
{
    reveal(setup_then_tick_open);
}

proof fn lemma_empty_ticks<M>()
    ensures
        tick_after_setup(Seq::<HandlerEvent<M>>::empty()),
{
    reveal(tick_after_setup);
}

proof fn lemma_empty_queued<M>()
    ensures
        cleanup_after_queue(Seq::<HandlerEvent<M>>::empty()),
{
    reveal(cleanup_after_queue);
}

proof fn lemma_inv_empty<M>()
    ensures
        handler_inv(QueueState { motions: Seq::<M>::empty(), active: false }, Seq::<HandlerEvent<M>>::empty()),
{
    lemma_log_empty::<M>();
    reveal(handler_inv);
}

proof fn lemma_run_inv<M>(steps: Seq<HandlerStep<M>>)
    requires
        handler_run_ok(steps),
    ensures
        handler_inv(handler_run(steps).0, handler_run(steps).1),
    decreases steps.len(),
{
    if steps.len() == 0 {
        lemma_inv_empty::<M>();
    } else {
        let rest = steps.drop_last();
        assert(handler_run_ok(rest));
        lemma_run_inv(rest);
        let prev = handler_run(rest);
        assert(step_ok(prev.0, prev.1, steps.last()));
        lemma_step(prev.0, prev.1, steps.last());
        let next = handler_step(prev.0, steps.last());
        assert(handler_run(steps) == (next.0, prev.1 + next.1));
    }
}

proof fn lemma_inv_log<M>(s: QueueState<M>, log: Seq<HandlerEvent<M>>)
    requires
        handler_inv(s, log),
    ensures
        log_ok_open(log),
        !ends_open(log),
        queue_wf(s),
{
    reveal(handler_inv);
}

/// Over any run of the handler (requests taken from its buffer and passes
/// over the queue, each new motion a motion not queued before, and no
/// cancellation of the current motion while the queue is empty), each motion
/// is set up at most once, and that set-up is followed at once by its first
/// tick; every tick of a motion comes after its set-up with no clean-up in
/// between; each motion is cleaned up at most once, and only after it was
/// queued. A cancellation cleans up the front motion whether or not it had
/// been set up, and cancelling everything cleans up only the front one.
pub proof fn lemma_handler_run<M>(steps: Seq<HandlerStep<M>>)
    requires
        handler_run_ok(steps),
    ensures
        handler_log_ok(handler_run(steps).1),
        queue_wf(handler_run(steps).0),
{
    lemma_run_inv(steps);
    lemma_inv_log(handler_run(steps).0, handler_run(steps).1);
}

} // verus!
