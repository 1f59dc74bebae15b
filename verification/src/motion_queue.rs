use vstd::prelude::*;

verus! {

/// A request handed to the motion handler: queue a new motion, stop the one
/// that is running, or stop everything.
pub enum MotionFlag<M> {
    New(M),
    CancelCurrent,
    CancelAll,
}

/// What the caller has to do after a flag has been applied.
pub enum FlagEffect<M> {
    /// The motion was appended to the queue; nothing else happens.
    Queued,
    /// The drivetrain must be stopped and the travelled distance marked as
    /// "no motion"; the motion that was at the front, if there was one, has
    /// left the queue and must be cleaned up.
    Stopped(Option<M>),
}

/// What the handler does with the front of the queue on this pass.
#[derive(Debug, Clone, Copy, PartialEq, Eq, Structural)]
pub enum Phase {
    /// Nothing is queued: the handler waits.
    Idle,
    /// The front motion has just become active: reset the local pose and the
    /// travelled distance, then set it up before ticking it.
    Starting,
    /// The front motion was already active: tick it.
    Running,
}

/// The abstract state of the handler: the queued motions, front first, and
/// whether the front one has been set up.
pub struct QueueState<M> {
    pub motions: Seq<M>,
    pub active: bool,
}

/// The handler's invariant: it is only ever active while something is queued.
pub open spec fn queue_wf<M>(s: QueueState<M>) -> bool {
    s.active ==> s.motions.len() > 0
}

pub open spec fn queue_push<M>(s: QueueState<M>, m: M) -> QueueState<M> {
    QueueState { motions: s.motions.push(m), active: s.active }
}

pub open spec fn queue_cancel_current<M>(s: QueueState<M>) -> QueueState<M> {
    QueueState { motions: s.motions.drop_first(), active: false }
}

pub open spec fn queue_cancel_all<M>(s: QueueState<M>) -> QueueState<M> {
    QueueState { motions: Seq::empty(), active: false }
}

/// The front motion, if any, as a cancellation hands it back.
pub open spec fn queue_front<M>(s: QueueState<M>) -> Option<M> {
    if s.motions.len() > 0 {
        Some(s.motions[0])
    } else {
        None
    }
}

pub open spec fn queue_phase<M>(s: QueueState<M>) -> Phase {
    if s.motions.len() == 0 {
        Phase::Idle
    } else if !s.active {
        Phase::Starting
    } else {
        Phase::Running
    }
}

/// The state after deciding the phase: active exactly when something is queued.
pub open spec fn queue_advance<M>(s: QueueState<M>) -> QueueState<M> {
    QueueState { motions: s.motions, active: s.motions.len() > 0 }
}

/// The state after a tick: a motion that finished or ran out of time leaves
/// the queue and the handler becomes inactive.
pub open spec fn queue_after_tick<M>(s: QueueState<M>, finished: bool, timed_out: bool) -> QueueState<M> {
    if finished || timed_out {
        queue_cancel_current(s)
    } else {
        s
    }
}

/// Whether a request can be applied: cancelling the current motion needs one.
pub open spec fn flag_applies<M>(s: QueueState<M>, f: MotionFlag<M>) -> bool {
    f is CancelCurrent ==> s.motions.len() > 0
}

/// The state after one request.
pub open spec fn queue_apply_flag<M>(s: QueueState<M>, f: MotionFlag<M>) -> QueueState<M> {
    match f {
        MotionFlag::New(m) => queue_push(s, m),
        MotionFlag::CancelCurrent => queue_cancel_current(s),
        MotionFlag::CancelAll => queue_cancel_all(s),
    }
}

/// What one request asks the caller to do.
pub open spec fn flag_effect<M>(s: QueueState<M>, f: MotionFlag<M>) -> FlagEffect<M> {
    match f {
        MotionFlag::New(_) => FlagEffect::Queued,
        _ => FlagEffect::Stopped(queue_front(s)),
    }
}

/// The state after the requests `fs`, applied in order.
pub open spec fn queue_apply_flags<M>(s: QueueState<M>, fs: Seq<MotionFlag<M>>) -> QueueState<M>
    decreases fs.len(),
{
    if fs.len() == 0 {
        s
    } else {
        queue_apply_flag(queue_apply_flags(s, fs.drop_last()), fs.last())
    }
}

/// What the requests `fs`, applied in order, ask the caller to do, in order.
pub open spec fn flag_effects<M>(s: QueueState<M>, fs: Seq<MotionFlag<M>>) -> Seq<FlagEffect<M>>
    decreases fs.len(),
{
    if fs.len() == 0 {
        Seq::empty()
    } else {
        flag_effects(s, fs.drop_last()).push(
            flag_effect(queue_apply_flags(s, fs.drop_last()), fs.last()),
        )
    }
}

/// Whether each of the requests `fs` can be applied when its turn comes.
pub open spec fn flags_apply<M>(s: QueueState<M>, fs: Seq<MotionFlag<M>>) -> bool
    decreases fs.len(),
{
    fs.len() == 0 || (flags_apply(s, fs.drop_last()) && flag_applies(
        queue_apply_flags(s, fs.drop_last()),
        fs.last(),
    ))
}

/// A request for each motion of `ms`, in order.
pub open spec fn new_flags<M>(ms: Seq<M>) -> Seq<MotionFlag<M>> {
    ms.map_values(|m: M| MotionFlag::New(m))
}

/// The queue of motions a chassis runs one after another.
pub struct MotionQueue<M> {
    queue: Vec<M>,
    active: bool,
}

impl<M> MotionQueue<M> {
    pub closed spec fn state(&self) -> QueueState<M> {
        QueueState { motions: self.queue@, active: self.active }
    }

    pub open spec fn wf(&self) -> bool {
        queue_wf(self.state())
    }

    /// An empty, inactive queue.
    pub fn new() -> (q: Self)
        ensures
            q.state().motions == Seq::<M>::empty(),
            !q.state().active,
            q.wf(),
    {
        MotionQueue { queue: Vec::new(), active: false }
    }

    /// Whether the front motion has been set up and is being ticked.
    pub fn is_active(&self) -> (b: bool)
        ensures
            b == self.state().active,
    {
        self.active
    }

    /// The number of queued motions, the running one included.
    pub fn len(&self) -> (n: usize)
        ensures
            n == self.state().motions.len(),
    {
        self.queue.len()
    }

    /// Whether nothing is queued.
    pub fn is_empty(&self) -> (b: bool)
        ensures
            b == (self.state().motions.len() == 0),
    {
        self.queue.len() == 0
    }

    /// Appends a motion behind those already queued.
    pub fn push(&mut self, m: M)
        requires
            old(self).wf(),
        ensures
            final(self).state() == queue_push(old(self).state(), m),
            final(self).wf(),
    {
        self.queue.push(m);
    }

    /// Removes the front motion and hands it back for clean-up.
    pub fn cancel_current(&mut self) -> (m: M)
        requires
            old(self).wf(),
            old(self).state().motions.len() > 0,
        ensures
            m == old(self).state().motions[0],
            final(self).state() == queue_cancel_current(old(self).state()),
            final(self).wf(),
    {
        let m = self.queue.remove(0);
        self.active = false;
        m
    }

    /// Empties the queue, handing back the front motion, if there was one,
    /// for clean-up.
    pub fn cancel_all(&mut self) -> (m: Option<M>)
        requires
            old(self).wf(),
        ensures
            m == queue_front(old(self).state()),
            final(self).state() == queue_cancel_all(old(self).state()),
            final(self).wf(),
    {
        let m = if self.queue.len() > 0 {
            Some(self.queue.remove(0))
        } else {
            None
        };
        self.queue.clear();
        self.active = false;
        m
    }

    /// Applies one request. Cancelling the current motion of an empty queue
    /// is not allowed.
    pub fn apply_flag(&mut self, flag: MotionFlag<M>) -> (e: FlagEffect<M>)
        requires
            old(self).wf(),
            flag is CancelCurrent ==> old(self).state().motions.len() > 0,
        ensures
            final(self).wf(),
            final(self).state() == queue_apply_flag(old(self).state(), flag),
            e == flag_effect(old(self).state(), flag),
            match flag {
                MotionFlag::New(m) => {
                    &&& e is Queued
                    &&& final(self).state() == queue_push(old(self).state(), m)
                },
                MotionFlag::CancelCurrent => {
                    &&& e == FlagEffect::Stopped(queue_front(old(self).state()))
                    &&& final(self).state() == queue_cancel_current(old(self).state())
                },
                MotionFlag::CancelAll => {
                    &&& e == FlagEffect::Stopped(queue_front(old(self).state()))
                    &&& final(self).state() == queue_cancel_all(old(self).state())
                },
            },
    {
        match flag {
            MotionFlag::New(m) => {
                self.push(m);
                FlagEffect::Queued
            },
            MotionFlag::CancelCurrent => {
                let m = self.cancel_current();
                FlagEffect::Stopped(Some(m))
            },
            MotionFlag::CancelAll => {
                let m = self.cancel_all();
                FlagEffect::Stopped(m)
            },
        }
    }

    /// Applies the requests in `flags` in the order they were made, taking each
    /// out of `flags`, and returns what each asks the caller to do, in order.
    /// It stops before a request that cannot be applied (cancelling the
    /// current motion of an empty queue), which is then left first in `flags`.
    pub fn apply_flags(&mut self, flags: &mut Vec<MotionFlag<M>>) -> (effects: Vec<FlagEffect<M>>)
        requires
            old(self).wf(),
        ensures
            final(self).wf(),
            effects.len() <= old(flags).len(),
            flags_apply(old(self).state(), old(flags)@.take(effects.len() as int)),
            final(self).state() == queue_apply_flags(old(self).state(), old(flags)@.take(effects.len() as int)),
            effects@ == flag_effects(old(self).state(), old(flags)@.take(effects.len() as int)),
            final(flags)@ == old(flags)@.skip(effects.len() as int),
            final(flags)@.len() > 0 ==> !flag_applies(final(self).state(), final(flags)@[0]),
            flags_apply(old(self).state(), old(flags)@) ==> final(flags)@.len() == 0,
    {
        let ghost s0 = self.state();
        let ghost fs = flags@;
        let mut effects: Vec<FlagEffect<M>> = Vec::new();
        proof {
            assert(fs.take(0) =~= Seq::<MotionFlag<M>>::empty());
            assert(fs.skip(0) =~= fs);
        }
        while flags.len() > 0
            invariant
                self.wf(),
                effects.len() <= fs.len(),
                flags@ == fs.skip(effects.len() as int),
                flags_apply(s0, fs.take(effects.len() as int)),
                self.state() == queue_apply_flags(s0, fs.take(effects.len() as int)),
                effects@ == flag_effects(s0, fs.take(effects.len() as int)),
            ensures
                flags@.len() > 0 ==> !flag_applies(self.state(), flags@[0]),
                effects.len() <= fs.len(),
                flags@ == fs.skip(effects.len() as int),
                flags_apply(s0, fs.take(effects.len() as int)),
                self.state() == queue_apply_flags(s0, fs.take(effects.len() as int)),
                effects@ == flag_effects(s0, fs.take(effects.len() as int)),
                self.wf(),
            decreases flags.len(),
        {
            let stuck = match &flags[0] {
                MotionFlag::CancelCurrent => self.queue.len() == 0,
                _ => false,
            };
            if stuck {
                break;
            }
            let ghost i = effects.len() as int;
            let ghost before = self.state();
            let flag = flags.remove(0);
            proof {
                assert(flag == fs[i]);
                assert(fs.take(i + 1).drop_last() =~= fs.take(i));
                assert(fs.take(i + 1).last() == fs[i]);
                assert(flags@ =~= fs.skip(i + 1));
            }
            let e = self.apply_flag(flag);
            effects.push(e);
        }
        proof {
            if flags_apply(s0, fs) && flags@.len() > 0 {
                lemma_flags_apply_prefix(s0, fs, effects.len() as int + 1);
                assert(fs.take(effects.len() as int + 1).drop_last() =~= fs.take(effects.len() as int));
                assert(fs.take(effects.len() as int + 1).last() == flags@[0]);
            }
        }
        effects
    }

    /// Decides what to do with the front motion on this pass, and marks the
    /// handler active exactly when something is queued.
    pub fn next_phase(&mut self) -> (p: Phase)
        requires
            old(self).wf(),
        ensures
            p == queue_phase(old(self).state()),
            final(self).state() == queue_advance(old(self).state()),
            final(self).wf(),
    {
        if self.queue.len() == 0 {
            self.active = false;
            Phase::Idle
        } else if !self.active {
            self.active = true;
            Phase::Starting
        } else {
            Phase::Running
        }
    }

    /// The front motion, to set up or tick.
    pub fn current_mut(&mut self) -> (m: &mut M)
        requires
            old(self).wf(),
            old(self).state().motions.len() > 0,
        ensures
            *m == old(self).state().motions[0],
            final(self).state().motions == old(self).state().motions.update(0, *final(m)),
            final(self).state().active == old(self).state().active,
    {
        &mut self.queue[0]
    }

    /// Records the outcome of a tick: a motion that finished or ran out of
    /// time leaves the queue and is handed back for clean-up.
    pub fn finish_tick(&mut self, finished: bool, timed_out: bool) -> (m: Option<M>)
        requires
            old(self).wf(),
            old(self).state().motions.len() > 0,
        ensures
            m == (if finished || timed_out {
                Some(old(self).state().motions[0])
            } else {
                None::<M>
            }),
            final(self).state() == queue_after_tick(old(self).state(), finished, timed_out),
            final(self).wf(),
    {
        if finished || timed_out {
            Some(self.cancel_current())
        } else {
            None
        }
    }
}

/// Every operation of the handler keeps its invariant: it is active only while
/// a motion is queued.
pub proof fn lemma_operations_keep_invariant<M>(s: QueueState<M>, m: M, finished: bool, timed_out: bool)
    requires
        queue_wf(s),
    ensures
        queue_wf(queue_push(s, m)),
        queue_wf(queue_cancel_current(s)),
        queue_wf(queue_cancel_all(s)),
        queue_wf(queue_advance(s)),
        queue_wf(queue_after_tick(s, finished, timed_out)),
{
}

/// A motion is set up once: after the pass that starts it, every later pass
/// ticks it, and deciding the phase again changes nothing, until it leaves the
/// queue.
pub proof fn lemma_setup_once<M>(s: QueueState<M>)
    requires
        queue_wf(s),
        queue_phase(s) == Phase::Starting,
    ensures
        queue_phase(queue_advance(s)) == Phase::Running,
        queue_advance(queue_advance(s)) == queue_advance(s),
        queue_front(queue_advance(s)) == queue_front(s),
{
}

/// Motions run in the order they were queued: queuing a motion leaves the
/// front of a non-empty queue and its phase unchanged, and when the front
/// motion finishes or times out the one queued after it is the next to be set
/// up.
pub proof fn lemma_fifo<M>(s: QueueState<M>, m: M, finished: bool, timed_out: bool)
    requires
        queue_wf(s),
        s.motions.len() > 0,
    ensures
        queue_front(queue_push(s, m)) == queue_front(s),
        queue_phase(queue_push(s, m)) == queue_phase(s),
        (finished || timed_out) && s.motions.len() > 1 ==> {
            &&& queue_phase(queue_after_tick(s, finished, timed_out)) == Phase::Starting
            &&& queue_front(queue_after_tick(s, finished, timed_out)) == Some(s.motions[1])
        },
        !(finished || timed_out) ==> queue_after_tick(s, finished, timed_out) == s,
{
}

/// Cancelling everything leaves the handler idle; the next motion queued
/// afterwards starts from scratch.
pub proof fn lemma_cancel_all_then_new<M>(s: QueueState<M>, m: M)
    ensures
        queue_phase(queue_cancel_all(s)) == Phase::Idle,
        queue_phase(queue_push(queue_cancel_all(s), m)) == Phase::Starting,
        queue_front(queue_push(queue_cancel_all(s), m)) == Some(m),
{
    assert(queue_push(queue_cancel_all(s), m).motions =~= seq![m]);
}

proof fn lemma_flags_apply_prefix<M>(s: QueueState<M>, fs: Seq<MotionFlag<M>>, k: int)
    requires
        flags_apply(s, fs),
        0 <= k <= fs.len(),
    ensures
        flags_apply(s, fs.take(k)),
    decreases fs.len(),
{
    if k == fs.len() {
        assert(fs.take(k) =~= fs);
    } else {
        assert(fs.drop_last().take(k) =~= fs.take(k));
        lemma_flags_apply_prefix(s, fs.drop_last(), k);
    }
}

/// Requests are applied in the order they were made: applying one batch and
/// then another is the same as applying the two as one batch, effects
/// included, and the whole batch can be applied exactly when the first part
/// can and then the second part can.
pub proof fn lemma_flags_in_order<M>(s: QueueState<M>, a: Seq<MotionFlag<M>>, b: Seq<MotionFlag<M>>)
    ensures
        queue_apply_flags(s, a + b) == queue_apply_flags(queue_apply_flags(s, a), b),
        flag_effects(s, a + b) == flag_effects(s, a) + flag_effects(queue_apply_flags(s, a), b),
        flags_apply(s, a + b) == (flags_apply(s, a) && flags_apply(queue_apply_flags(s, a), b)),
    decreases b.len(),
{
    if b.len() == 0 {
        assert(a + b =~= a);
        assert(flag_effects(s, a) + flag_effects(queue_apply_flags(s, a), b) =~= flag_effects(s, a));
    } else {
        lemma_flags_in_order(s, a, b.drop_last());
        assert((a + b).drop_last() =~= a + b.drop_last());
        assert((a + b).last() == b.last());
        let t = queue_apply_flags(s, a);
        assert(flag_effects(s, a + b) =~= flag_effects(s, a) + flag_effects(t, b));
    }
}

/// A batch of new motions, applied in order, appends them to the back of the
/// queue in that order, leaves the running motion running, can always be
/// applied, and asks for nothing but queuing.
pub proof fn lemma_new_flags_append<M>(s: QueueState<M>, ms: Seq<M>)
    ensures
        queue_apply_flags(s, new_flags(ms)).motions == s.motions + ms,
        queue_apply_flags(s, new_flags(ms)).active == s.active,
        flags_apply(s, new_flags(ms)),
        flag_effects(s, new_flags(ms)).len() == ms.len(),
        forall|i: int| 0 <= i < ms.len() ==> #[trigger] flag_effects(s, new_flags(ms))[i] is Queued,
    decreases ms.len(),
{
    let fs = new_flags(ms);
    if ms.len() == 0 {
        assert(fs.len() == 0);
        assert(s.motions + ms =~= s.motions);
    } else {
        lemma_new_flags_append(s, ms.drop_last());
        assert(fs.drop_last() =~= new_flags(ms.drop_last()));
        assert(fs.last() == MotionFlag::New(ms.last()));
        assert(s.motions + ms =~= (s.motions + ms.drop_last()).push(ms.last()));
        let prev = flag_effects(s, new_flags(ms.drop_last()));
        assert forall|i: int| 0 <= i < ms.len() implies #[trigger] flag_effects(s, fs)[i] is Queued by {
            if i < ms.len() - 1 {
                assert(prev[i] is Queued);
            }
        }
    }
}

/// What each handler operation does to the queue, in terms of the queued
/// motions: a new motion goes to the back; cancelling the current motion, or
/// a motion that finishes or times out, removes exactly the front one and
/// keeps the others in their order; cancelling everything empties the queue;
/// the phase is idle on an empty queue, starting on a queue not yet active,
/// running otherwise; deciding the phase makes the handler active exactly when
/// something is queued; a motion that neither finished nor timed out stays.
pub proof fn lemma_queue_operations<M>(s: QueueState<M>, m: M, finished: bool, timed_out: bool)
    ensures
        queue_push(s, m).motions == s.motions.push(m),
        queue_push(s, m).active == s.active,
        queue_cancel_current(s).motions == s.motions.drop_first(),
        !queue_cancel_current(s).active,
        queue_cancel_all(s).motions.len() == 0,
        !queue_cancel_all(s).active,
        s.motions.len() == 0 ==> queue_front(s) is None,
        s.motions.len() > 0 ==> queue_front(s) == Some(s.motions[0]),
        (queue_phase(s) == Phase::Idle) <==> s.motions.len() == 0,
        (queue_phase(s) == Phase::Starting) <==> s.motions.len() > 0 && !s.active,
        (queue_phase(s) == Phase::Running) <==> s.motions.len() > 0 && s.active,
        queue_advance(s).motions == s.motions,
        queue_advance(s).active == (s.motions.len() > 0),
        finished || timed_out ==> queue_after_tick(s, finished, timed_out).motions == s.motions.drop_first(),
        finished || timed_out ==> !queue_after_tick(s, finished, timed_out).active,
        !(finished || timed_out) ==> queue_after_tick(s, finished, timed_out) == s,
{
}

/// What one request does, in terms of the queued motions: a new motion goes
/// to the back and asks only for queuing; a cancellation hands back the front
/// motion, if any; only cancelling the current motion of an empty queue
/// cannot be applied.
pub proof fn lemma_flag_operations<M>(s: QueueState<M>, m: M)
    ensures
        queue_apply_flag(s, MotionFlag::New(m)).motions == s.motions.push(m),
        queue_apply_flag(s, MotionFlag::New(m)).active == s.active,
        queue_apply_flag(s, MotionFlag::CancelCurrent).motions == s.motions.drop_first(),
        !queue_apply_flag(s, MotionFlag::CancelCurrent).active,
        queue_apply_flag(s, MotionFlag::CancelAll).motions.len() == 0,
        !queue_apply_flag(s, MotionFlag::CancelAll).active,
        flag_effect(s, MotionFlag::New(m)) is Queued,
        s.motions.len() > 0 ==> flag_effect(s, MotionFlag::CancelCurrent) == FlagEffect::Stopped(
            Some(s.motions[0]),
        ),
        s.motions.len() > 0 ==> flag_effect(s, MotionFlag::CancelAll) == FlagEffect::Stopped(
            Some(s.motions[0]),
        ),
        s.motions.len() == 0 ==> flag_effect(s, MotionFlag::CancelAll) == FlagEffect::<M>::Stopped(None),
        flag_applies(s, MotionFlag::New(m)),
        flag_applies(s, MotionFlag::<M>::CancelAll),
        flag_applies(s, MotionFlag::<M>::CancelCurrent) <==> s.motions.len() > 0,
{
}

/// A batch of requests is applied one request after the other: an empty
/// batch changes nothing, and a batch with one more request is the shorter
/// batch followed by that request, for the state, the effects and whether it
/// can be applied.
pub proof fn lemma_batch_steps<M>(s: QueueState<M>, fs: Seq<MotionFlag<M>>, f: MotionFlag<M>)
    ensures
        queue_apply_flags(s, Seq::empty()) == s,
        flag_effects(s, Seq::empty()).len() == 0,
        flags_apply(s, Seq::empty()),
        queue_apply_flags(s, fs.push(f)) == queue_apply_flag(queue_apply_flags(s, fs), f),
        flag_effects(s, fs.push(f)) == flag_effects(s, fs).push(flag_effect(queue_apply_flags(s, fs), f)),
        flags_apply(s, fs.push(f)) == (flags_apply(s, fs) && flag_applies(queue_apply_flags(s, fs), f)),
{
    assert(fs.push(f).drop_last() =~= fs);
}

} // verus!
