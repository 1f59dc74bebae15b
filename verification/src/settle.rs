use vstd::prelude::*;

verus! {

/// The state of an exit condition: when the error last entered its range, if
/// it is inside it now, and whether it has stayed inside long enough.
///
/// `T` is the caller's notion of an instant; the latch only stores it.
pub struct ExitLatch<T> {
    start: Option<T>,
    done: bool,
}

/// The abstract state of a latch.
pub struct LatchState<T> {
    pub start: Option<T>,
    pub done: bool,
}

/// One update of a latch: leaving the range forgets the start time, entering
/// it records `now`, and staying inside past the allowed time latches `done`.
/// Once latched, `done` stays set until the latch is reset.
pub open spec fn latch_update<T>(s: LatchState<T>, outside_range: bool, now: T, expired: bool) -> LatchState<T> {
    if outside_range {
        LatchState { start: None, done: s.done }
    } else if s.start is None {
        LatchState { start: Some(now), done: s.done }
    } else if expired {
        LatchState { start: s.start, done: true }
    } else {
        s
    }
}

impl<T> ExitLatch<T> {
    pub closed spec fn state(&self) -> LatchState<T> {
        LatchState { start: self.start, done: self.done }
    }

    /// A latch that has not started timing and has not fired.
    pub fn new() -> (l: Self)
        ensures
            l.state().start is None,
            !l.state().done,
    {
        ExitLatch { start: None, done: false }
    }

    /// Whether the condition has fired.
    pub fn is_done(&self) -> (b: bool)
        ensures
            b == self.state().done,
    {
        self.done
    }

    /// When the error entered its range, if it is inside it.
    pub fn start(&self) -> (s: &Option<T>)
        ensures
            *s == self.state().start,
    {
        &self.start
    }

    /// Feeds one observation: whether the error is outside its range, the
    /// current instant, and whether the time since `start` exceeds the
    /// allowed time (looked at only when a start is recorded). Returns whether
    /// the condition has fired.
    pub fn update(&mut self, outside_range: bool, now: T, expired: bool) -> (done: bool)
        ensures
            final(self).state() == latch_update(old(self).state(), outside_range, now, expired),
            done == final(self).state().done,
    {
        if outside_range {
            self.start = None;
        } else if self.start.is_none() {
            self.start = Some(now);
        } else if expired {
            self.done = true;
        }
        self.done
    }

    /// Forgets the start time and clears the condition.
    pub fn reset(&mut self)
        ensures
            final(self).state().start is None,
            !final(self).state().done,
    {
        self.start = None;
        self.done = false;
    }
}

/// Once an exit condition has fired it stays fired, whatever is observed,
/// until it is reset.
pub proof fn lemma_latch_stays_done<T>(s: LatchState<T>, outside_range: bool, now: T, expired: bool)
    requires
        s.done,
    ensures
        latch_update(s, outside_range, now, expired).done,
{
}

/// An exit condition fires only after the error has stayed inside its range
/// from one update to a later one: the update that enters the range only
/// starts timing, and leaving the range restarts it.
pub proof fn lemma_latch_needs_time<T>(s: LatchState<T>, outside_range: bool, now: T, expired: bool)
    requires
        !s.done,
    ensures
        latch_update(s, outside_range, now, expired).done ==> !outside_range && s.start is Some
            && expired,
        outside_range ==> latch_update(s, outside_range, now, expired).start is None,
        !outside_range && s.start is None ==> latch_update(s, outside_range, now, expired).start
            == Some(now),
{
}

/// One observation fed to a latch: the arguments of one `update`.
pub struct LatchInput<T> {
    pub outside_range: bool,
    pub now: T,
    pub expired: bool,
}

/// The state of a latch that is new or has just been reset.
pub open spec fn latch_fresh<T>() -> LatchState<T> {
    LatchState { start: None, done: false }
}

/// The state after feeding the observations `obs`, in order, to a latch in
/// state `s`.
pub open spec fn latch_run<T>(s: LatchState<T>, obs: Seq<LatchInput<T>>) -> LatchState<T>
    decreases obs.len(),
{
    if obs.len() == 0 {
        s
    } else {
        let x = obs.last();
        latch_update(latch_run(s, obs.drop_last()), x.outside_range, x.now, x.expired)
    }
}

/// The `expired` flags of a run from a fresh latch were computed by the
/// caller's clock comparison `exceeds(start, now)` against the start the latch
/// had recorded at that update.
pub open spec fn expiry_honest<T>(obs: Seq<LatchInput<T>>, exceeds: spec_fn(T, T) -> bool) -> bool {
    forall|i: int|
        0 <= i < obs.len() && (#[trigger] latch_run(latch_fresh(), obs.take(i))).start is Some
            ==> obs[i].expired == exceeds(latch_run(latch_fresh(), obs.take(i)).start->0, obs[i].now)
}

/// Updates `j` to `k` all saw the error inside its range, and update `j` is
/// the one that brought it there (the first update, or one after an update
/// that saw it outside).
pub open spec fn inside_since<T>(obs: Seq<LatchInput<T>>, j: int, k: int) -> bool {
    &&& 0 <= j <= k < obs.len()
    &&& (j == 0 || obs[j - 1].outside_range)
    &&& forall|i: int| j <= i <= k ==> !(#[trigger] obs[i]).outside_range
}

/// Among the first `n` updates, one (`k`) came after the error had stayed
/// inside its range since an earlier update `j`, with the wait from `j` to `k`
/// exceeding the allowed time.
pub open spec fn fired_within<T>(obs: Seq<LatchInput<T>>, n: int, exceeds: spec_fn(T, T) -> bool) -> bool {
    exists|j: int, k: int| j < k < n && #[trigger] inside_since(obs, j, k) && exceeds(obs[j].now, obs[k].now)
}

proof fn lemma_run_step<T>(obs: Seq<LatchInput<T>>, n: int)
    requires
        0 < n <= obs.len(),
    ensures
        latch_run(latch_fresh(), obs.take(n)) == latch_update(
            latch_run(latch_fresh(), obs.take(n - 1)),
            obs[n - 1].outside_range,
            obs[n - 1].now,
            obs[n - 1].expired,
        ),
{
    assert(obs.take(n).drop_last() =~= obs.take(n - 1));
}

proof fn lemma_run_prefix<T>(obs: Seq<LatchInput<T>>, exceeds: spec_fn(T, T) -> bool, n: int)
    requires
        expiry_honest(obs, exceeds),
        0 <= n <= obs.len(),
    ensures
        (latch_run(latch_fresh(), obs.take(n)).start is None) <==> (n == 0 || obs[n - 1].outside_range),
        latch_run(latch_fresh(), obs.take(n)).start is Some ==> exists|r: int|
            #[trigger] inside_since(obs, r, n - 1) && latch_run(latch_fresh(), obs.take(n)).start->0
                == obs[r].now,
        latch_run(latch_fresh(), obs.take(n)).done <==> fired_within(obs, n, exceeds),
    decreases n,
{
    if n == 0 {
        assert(obs.take(0) =~= Seq::<LatchInput<T>>::empty());
        assert(!fired_within(obs, 0, exceeds));
    } else {
        let m = n - 1;
        lemma_run_prefix(obs, exceeds, m);
        lemma_run_step(obs, n);
        let p = latch_run(latch_fresh(), obs.take(m));
        let st = latch_run(latch_fresh(), obs.take(n));
        let x = obs[m];
        // a firing witness among the first m updates stays one
        assert(fired_within(obs, m, exceeds) ==> fired_within(obs, n, exceeds)) by {
            if fired_within(obs, m, exceeds) {
                let (j, k) = choose|j: int, k: int|
                    j < k < m && #[trigger] inside_since(obs, j, k) && exceeds(obs[j].now, obs[k].now);
                assert(inside_since(obs, j, k));
            }
        }
        if x.outside_range {
            assert(st.start is None);
            assert(fired_within(obs, n, exceeds) ==> fired_within(obs, m, exceeds)) by {
                if fired_within(obs, n, exceeds) {
                    let (j, k) = choose|j: int, k: int|
                        j < k < n && #[trigger] inside_since(obs, j, k) && exceeds(obs[j].now, obs[k].now);
                    assert(!obs[k].outside_range);
                    assert(k != m);
                    assert(inside_since(obs, j, k));
                }
            }
        } else if p.start is None {
            assert(st.start == Some(x.now));
            assert(inside_since(obs, m, m));
            assert(fired_within(obs, n, exceeds) ==> fired_within(obs, m, exceeds)) by {
                if fired_within(obs, n, exceeds) {
                    let (j, k) = choose|j: int, k: int|
                        j < k < n && #[trigger] inside_since(obs, j, k) && exceeds(obs[j].now, obs[k].now);
                    if k == m {
                        assert(j <= m - 1 <= k);
                        assert(!obs[m - 1].outside_range);
                        assert(false);
                    }
                    assert(inside_since(obs, j, k));
                }
            }
        } else {
            let r = choose|r: int| #[trigger] inside_since(obs, r, m - 1) && p.start->0 == obs[r].now;
            assert(inside_since(obs, r, m - 1));
            assert(inside_since(obs, r, m)) by {
                assert forall|i: int| r <= i <= m implies !(#[trigger] obs[i]).outside_range by {
                    if i < m {
                        assert(inside_since(obs, r, m - 1));
                    }
                }
            }
            assert(st.start == p.start);
            assert(x.expired == exceeds(obs[r].now, x.now)) by {
                assert(latch_run(latch_fresh(), obs.take(m)).start is Some);
            }
            // the run that update m belongs to started at r and nowhere else
            assert forall|j: int| #[trigger] inside_since(obs, j, m) implies j == r by {
                if j < r {
                    assert(obs[r - 1].outside_range);
                    assert(!obs[r - 1].outside_range);
                } else if j > r {
                    assert(obs[j - 1].outside_range);
                    assert(inside_since(obs, r, m - 1));
                    assert(r <= j - 1 <= m - 1);
                    assert(!obs[j - 1].outside_range);
                }
            }
            if x.expired {
                assert(inside_since(obs, r, m));
                assert(r < m);
                assert(fired_within(obs, n, exceeds));
            } else {
                assert(fired_within(obs, n, exceeds) ==> fired_within(obs, m, exceeds)) by {
                    if fired_within(obs, n, exceeds) {
                        let (j, k) = choose|j: int, k: int|
                            j < k < n && #[trigger] inside_since(obs, j, k) && exceeds(obs[j].now, obs[k].now);
                        if k == m {
                            assert(j == r);
                            assert(false);
                        }
                        assert(inside_since(obs, j, k));
                    }
                }
            }
        }
    }
}

/// An exit condition fed a run of updates since it was created or reset fires
/// exactly when, at some update, the error has stayed inside its range ever
/// since the update that brought it there, and the wait since that update
/// exceeds the allowed time (as the caller's clock comparison `exceeds`,
/// against the recorded start, judged it).
pub proof fn lemma_latch_fires_iff_settled<T>(obs: Seq<LatchInput<T>>, exceeds: spec_fn(T, T) -> bool)
    requires
        expiry_honest(obs, exceeds),
    ensures
        latch_run(latch_fresh(), obs).done <==> fired_within(obs, obs.len() as int, exceeds),
{
    lemma_run_prefix(obs, exceeds, obs.len() as int);
    assert(obs.take(obs.len() as int) =~= obs);
}

/// Once an exit condition has fired it stays fired through any run of
/// updates, until it is reset.
pub proof fn lemma_latch_run_stays_done<T>(s: LatchState<T>, obs: Seq<LatchInput<T>>)
    requires
        s.done,
    ensures
        latch_run(s, obs).done,
    decreases obs.len(),
{
    if obs.len() > 0 {
        lemma_latch_run_stays_done(s, obs.drop_last());
    }
}

/// What one update does to a latch: leaving the range forgets the start and
/// keeps the fired flag; entering it records the current instant; staying
/// inside past the allowed time fires the latch and keeps the start; staying
/// inside without that changes nothing. A run of updates is these updates one
/// after the other.
pub proof fn lemma_latch_steps<T>(s: LatchState<T>, now: T, expired: bool, obs: Seq<LatchInput<T>>, x: LatchInput<T>)
    ensures
        latch_update(s, true, now, expired).start is None,
        latch_update(s, true, now, expired).done == s.done,
        s.start is None ==> latch_update(s, false, now, expired).start == Some(now),
        s.start is None ==> latch_update(s, false, now, expired).done == s.done,
        s.start is Some ==> latch_update(s, false, now, true).start == s.start,
        s.start is Some ==> latch_update(s, false, now, true).done,
        s.start is Some ==> latch_update(s, false, now, false) == s,
        latch_fresh::<T>().start is None,
        !latch_fresh::<T>().done,
        latch_run(s, Seq::empty()) == s,
        latch_run(s, obs.push(x)) == latch_update(latch_run(s, obs), x.outside_range, x.now, x.expired),
{
    assert(obs.push(x).drop_last() =~= obs);
}

} // verus!
