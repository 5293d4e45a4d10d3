use vstd::prelude::*;

verus! {

/// Simulated time is counted in ticks; `TICKS_PER_UNIT` ticks make one time
/// unit, and wakeups are registered per whole unit (a bucket).
pub const TICKS_PER_UNIT: u64 = 1000;

/// The bucket of a point in simulated time: its whole number of units.
pub open spec fn bucket_of(t: nat) -> nat {
    t / (TICKS_PER_UNIT as nat)
}

/// A suspended flow, named by its handle, waiting for the clock to leave
/// `bucket`.
#[derive(Clone, Copy, Debug, PartialEq, Eq, Structural)]
pub struct PendingWake {
    pub bucket: u64,
    pub handle: u64,
}

/// A pending wakeup fires once the clock's bucket is strictly past its own.
pub open spec fn is_due(w: PendingWake, now: nat) -> bool {
    (w.bucket as nat) < bucket_of(now)
}

/// The handles of the due wakeups of `s`, in the order of `s`.
pub open spec fn woken_by(s: Seq<PendingWake>, now: nat) -> Seq<u64>
    decreases s.len(),
{
    if s.len() == 0 {
        seq![]
    } else {
        let rest = woken_by(s.drop_last(), now);
        if is_due(s.last(), now) {
            rest.push(s.last().handle)
        } else {
            rest
        }
    }
}

/// The wakeups of `s` that are not yet due, in the order of `s`.
pub open spec fn left_pending(s: Seq<PendingWake>, now: nat) -> Seq<PendingWake>
    decreases s.len(),
{
    if s.len() == 0 {
        seq![]
    } else {
        let rest = left_pending(s.drop_last(), now);
        if is_due(s.last(), now) {
            rest
        } else {
            rest.push(s.last())
        }
    }
}

/// The wakeups of `s` that belong to a handle other than `h`.
pub open spec fn without_handle(s: Seq<PendingWake>, h: u64) -> Seq<PendingWake>
    decreases s.len(),
{
    if s.len() == 0 {
        seq![]
    } else {
        let rest = without_handle(s.drop_last(), h);
        if s.last().handle == h {
            rest
        } else {
            rest.push(s.last())
        }
    }
}

/// Wakeups are kept by ascending bucket.
pub open spec fn sorted_by_bucket(s: Seq<PendingWake>) -> bool {
    forall|i: int, j: int| 0 <= i < j < s.len() ==> s[i].bucket <= s[j].bucket
}

/// `t` is `s` with `w` placed after every wakeup of a bucket up to its own
/// and before every later one: first in, first out within a bucket.
pub open spec fn inserted_in_order(s: Seq<PendingWake>, t: Seq<PendingWake>, w: PendingWake) -> bool {
    exists|p: int|
        0 <= p <= s.len() && t == s.insert(p, w) && (forall|i: int|
            0 <= i < p ==> #[trigger] s[i].bucket <= w.bucket) && (forall|i: int|
            p <= i < s.len() ==> #[trigger] s[i].bucket > w.bucket)
}

/// The simulated clock and the registry of suspended flows waiting on it.
pub struct FlowTimerMap {
    pub current_time: u64,
    pub wakers: Vec<PendingWake>,
}

impl FlowTimerMap {
    pub open spec fn wf(&self) -> bool {
        sorted_by_bucket(self.wakers@)
    }

    pub fn new() -> (r: FlowTimerMap)
        ensures
            r.wf(),
            r.current_time == 0,
            r.wakers@ == Seq::<PendingWake>::empty(),
    {
        FlowTimerMap { current_time: 0, wakers: Vec::new() }
    }

    /// Removes and returns the handles of every wakeup whose bucket is
    /// strictly below the bucket of `now`, by ascending bucket and in order of
    /// arrival within one. Wakeups of the bucket of `now` itself stay.
    pub fn drain(&mut self, now: u64) -> (r: Vec<u64>)
        requires
            old(self).wf(),
        ensures
            final(self).wf(),
            final(self).current_time == old(self).current_time,
            r@ == woken_by(old(self).wakers@, now as nat),
            final(self).wakers@ == left_pending(old(self).wakers@, now as nat),
    {
        let bucket = now / TICKS_PER_UNIT;
        let ghost s = self.wakers@;
        let mut woken: Vec<u64> = Vec::new();
        let mut rest: Vec<PendingWake> = Vec::new();
        let n = self.wakers.len();
        let mut i: usize = 0;
        while i < n
            invariant
                s == self.wakers@,
                sorted_by_bucket(s),
                n == s.len(),
                i <= n,
                bucket == bucket_of(now as nat),
                woken@ == woken_by(s.take(i as int), now as nat),
                rest@ == left_pending(s.take(i as int), now as nat),
                sorted_by_bucket(rest@),
                forall|j: int, k: int|
                    0 <= j < rest@.len() && i <= k < n ==> #[trigger] rest@[j].bucket <= #[trigger] s[k].bucket,
            decreases n - i,
        {
            let w = self.wakers[i];
            assert(s.take(i + 1).drop_last() =~= s.take(i as int));
            assert(s.take(i + 1).last() == w);
            if w.bucket < bucket {
                woken.push(w.handle);
            } else {
                rest.push(w);
            }
            i += 1;
        }
        assert(s.take(n as int) =~= s);
        self.wakers = rest;
        woken
    }

    /// One step of the clock: advances it by `time_delta` ticks, then drains
    /// the wakeups due at the new time.
    pub fn wake_flows(&mut self, time_delta: u64) -> (r: Vec<u64>)
        requires
            old(self).wf(),
            old(self).current_time + time_delta <= u64::MAX,
        ensures
            final(self).wf(),
            final(self).current_time == old(self).current_time + time_delta,
            r@ == woken_by(old(self).wakers@, final(self).current_time as nat),
            final(self).wakers@ == left_pending(old(self).wakers@, final(self).current_time as nat),
    {
        self.current_time = self.current_time + time_delta;
        let now = self.current_time;
        self.drain(now)
    }

    /// Registers `handle` to be woken once the clock leaves bucket
    /// `release_bucket`.
    pub fn add_flow(&mut self, handle: u64, release_bucket: u64)
        requires
            old(self).wf(),
        ensures
            final(self).wf(),
            final(self).current_time == old(self).current_time,
            inserted_in_order(
                old(self).wakers@,
                final(self).wakers@,
                PendingWake { bucket: release_bucket, handle },
            ),
    {
        let w = PendingWake { bucket: release_bucket, handle };
        let ghost s = self.wakers@;
        let mut p: usize = 0;
        while p < self.wakers.len() && self.wakers[p].bucket <= release_bucket
            invariant
                s == self.wakers@,
                p <= s.len(),
                forall|i: int| 0 <= i < p ==> #[trigger] s[i].bucket <= release_bucket,
            decreases s.len() - p,
        {
            p += 1;
        }
        self.wakers.insert(p, w);
        assert(forall|i: int| p <= i < s.len() ==> #[trigger] s[i].bucket > release_bucket) by {
            assert forall|i: int| p <= i < s.len() implies #[trigger] s[i].bucket > release_bucket by {
                assert(s[p as int].bucket > release_bucket);
                assert(sorted_by_bucket(s));
            }
        }
        assert(self.wakers@ == s.insert(p as int, w));
    }

    /// Suspends `handle` until simulated time `release_time`: a time already
    /// reached needs no wait (`true`); otherwise the handle is registered in
    /// the bucket of `release_time` (`false`).
    pub fn wait_until(&mut self, handle: u64, release_time: u64) -> (ready: bool)
        requires
            old(self).wf(),
        ensures
            final(self).wf(),
            final(self).current_time == old(self).current_time,
            ready == (release_time <= old(self).current_time),
            ready ==> final(self).wakers@ == old(self).wakers@,
            !ready ==> inserted_in_order(
                old(self).wakers@,
                final(self).wakers@,
                PendingWake { bucket: (release_time / TICKS_PER_UNIT) as u64, handle },
            ),
    {
        if release_time <= self.current_time {
            true
        } else {
            self.add_flow(handle, release_time / TICKS_PER_UNIT);
            false
        }
    }

    /// Suspends `handle` for `pause_time` ticks from now, as `wait_until`
    /// does for the time then.
    pub fn wait_pause(&mut self, handle: u64, pause_time: u64) -> (ready: bool)
        requires
            old(self).wf(),
            old(self).current_time + pause_time <= u64::MAX,
        ensures
            final(self).wf(),
            final(self).current_time == old(self).current_time,
            ready == (pause_time == 0),
            ready ==> final(self).wakers@ == old(self).wakers@,
            !ready ==> inserted_in_order(
                old(self).wakers@,
                final(self).wakers@,
                PendingWake {
                    bucket: ((old(self).current_time + pause_time) / TICKS_PER_UNIT as int) as u64,
                    handle,
                },
            ),
    {
        let release_time = self.current_time + pause_time;
        self.wait_until(handle, release_time)
    }

    /// Drops every wakeup registered for `handle`, as when the flow that owns
    /// it is cancelled.
    pub fn cancel(&mut self, handle: u64)
        requires
            old(self).wf(),
        ensures
            final(self).wf(),
            final(self).current_time == old(self).current_time,
            final(self).wakers@ == without_handle(old(self).wakers@, handle),
    {
        let ghost s = self.wakers@;
        let mut rest: Vec<PendingWake> = Vec::new();
        let n = self.wakers.len();
        let mut i: usize = 0;
        while i < n
            invariant
                s == self.wakers@,
                sorted_by_bucket(s),
                n == s.len(),
                i <= n,
                rest@ == without_handle(s.take(i as int), handle),
                sorted_by_bucket(rest@),
                forall|j: int, k: int|
                    0 <= j < rest@.len() && i <= k < n ==> #[trigger] rest@[j].bucket <= #[trigger] s[k].bucket,
            decreases n - i,
        {
            let w = self.wakers[i];
            assert(s.take(i + 1).drop_last() =~= s.take(i as int));
            assert(s.take(i + 1).last() == w);
            if w.handle != handle {
                rest.push(w);
            }
            i += 1;
        }
        assert(s.take(n as int) =~= s);
        self.wakers = rest;
    }
}


/// The lists of handles woken by a run of ticks of `deltas[0]`, `deltas[1]`,
/// ... ticks each, from clock `now` with wakeups `pending` and no new ones.
pub open spec fn timer_run(now: nat, pending: Seq<PendingWake>, deltas: Seq<nat>) -> Seq<Seq<u64>>
    decreases deltas.len(),
{
    if deltas.len() == 0 {
        seq![]
    } else {
        let t = now + deltas[0];
        seq![woken_by(pending, t)] + timer_run(t, left_pending(pending, t), deltas.skip(1))
    }
}

/// Index of the first tick of `deltas`, from clock `now`, after which the
/// clock's bucket exceeds `bucket`; `deltas.len()` if there is none.
pub open spec fn first_due_tick(now: nat, bucket: nat, deltas: Seq<nat>) -> nat
    decreases deltas.len(),
{
    if deltas.len() == 0 {
        0
    } else {
        let t = now + deltas[0];
        if bucket < bucket_of(t) {
            0
        } else {
            1 + first_due_tick(t, bucket, deltas.skip(1))
        }
    }
}

/// When a flow that asks at clock `now` to sleep until `release` resumes
/// over the ticks `deltas`: `-1` for at once, before any tick, else the index
/// of the tick that wakes it (`deltas.len()` if none does).
pub open spec fn resume_tick(now: nat, release: nat, deltas: Seq<nat>) -> int {
    if release <= now {
        -1
    } else {
        first_due_tick(now, bucket_of(release), deltas) as int
    }
}

proof fn lemma_woken_by_contains(s: Seq<PendingWake>, now: nat, h: u64)
    ensures
        woken_by(s, now).contains(h) <==> exists|j: int|
            0 <= j < s.len() && #[trigger] s[j].handle == h && is_due(s[j], now),
    decreases s.len(),
{
    if s.len() > 0 {
        lemma_woken_by_contains(s.drop_last(), now, h);
        let rest = woken_by(s.drop_last(), now);
        if woken_by(s, now).contains(h) {
            if !rest.contains(h) {
                let k = choose|k: int| 0 <= k < woken_by(s, now).len() && woken_by(s, now)[k] == h;
                assert(k == rest.len());
                assert(s[s.len() - 1].handle == h);
            } else {
                let j = choose|j: int|
                    0 <= j < s.drop_last().len() && #[trigger] s.drop_last()[j].handle == h && is_due(
                        s.drop_last()[j],
                        now,
                    );
                assert(s[j] == s.drop_last()[j]);
            }
        }
        if exists|j: int| 0 <= j < s.len() && #[trigger] s[j].handle == h && is_due(s[j], now) {
            let j = choose|j: int| 0 <= j < s.len() && #[trigger] s[j].handle == h && is_due(s[j], now);
            if j == s.len() - 1 {
                assert(woken_by(s, now)[rest.len() as int] == h);
            } else {
                assert(s.drop_last()[j] == s[j]);
                let k = choose|k: int| 0 <= k < rest.len() && rest[k] == h;
                assert(woken_by(s, now)[k] == h);
            }
        }
    }
}

proof fn lemma_left_pending_contains(s: Seq<PendingWake>, now: nat, w: PendingWake)
    ensures
        left_pending(s, now).contains(w) <==> (s.contains(w) && !is_due(w, now)),
    decreases s.len(),
{
    if s.len() > 0 {
        lemma_left_pending_contains(s.drop_last(), now, w);
        let rest = left_pending(s.drop_last(), now);
        if left_pending(s, now).contains(w) {
            if !rest.contains(w) {
                let k = choose|k: int| 0 <= k < left_pending(s, now).len() && left_pending(s, now)[k] == w;
                assert(k == rest.len());
                assert(s[s.len() - 1] == w);
            } else {
                let j = choose|j: int| 0 <= j < s.drop_last().len() && s.drop_last()[j] == w;
                assert(s[j] == w);
            }
        }
        if s.contains(w) && !is_due(w, now) {
            let j = choose|j: int| 0 <= j < s.len() && s[j] == w;
            if j == s.len() - 1 {
                assert(left_pending(s, now)[rest.len() as int] == w);
            } else {
                assert(s.drop_last()[j] == w);
                let k = choose|k: int| 0 <= k < rest.len() && rest[k] == w;
                assert(left_pending(s, now)[k] == w);
            }
        }
    }
}

proof fn lemma_timer_run_len(now: nat, pending: Seq<PendingWake>, deltas: Seq<nat>)
    ensures
        timer_run(now, pending, deltas).len() == deltas.len(),
    decreases deltas.len(),
{
    if deltas.len() > 0 {
        let t = now + deltas[0];
        lemma_timer_run_len(t, left_pending(pending, t), deltas.skip(1));
    }
}

proof fn lemma_absent_never_woken(now: nat, pending: Seq<PendingWake>, h: u64, deltas: Seq<nat>, k: int)
    requires
        forall|j: int| 0 <= j < pending.len() ==> #[trigger] pending[j].handle != h,
        0 <= k < deltas.len(),
    ensures
        !timer_run(now, pending, deltas)[k].contains(h),
    decreases deltas.len(),
{
    let t = now + deltas[0];
    let left = left_pending(pending, t);
    lemma_woken_by_contains(pending, t, h);
    lemma_timer_run_len(t, left, deltas.skip(1));
    if k > 0 {
        assert forall|j: int| 0 <= j < left.len() implies #[trigger] left[j].handle != h by {
            lemma_left_pending_contains(pending, t, left[j]);
            assert(left.contains(left[j]));
        }
        lemma_absent_never_woken(t, left, h, deltas.skip(1), k - 1);
        assert(timer_run(now, pending, deltas)[k] == timer_run(t, left, deltas.skip(1))[k - 1]);
    }
}

/// A handle whose wakeups all wait on bucket `b` is woken by exactly one
/// tick of a run: the first one after which the clock's bucket exceeds `b`.
/// No earlier tick and no later one returns it.
pub proof fn lemma_woken_on_first_tick_past_bucket(
    now: nat,
    pending: Seq<PendingWake>,
    h: u64,
    b: u64,
    deltas: Seq<nat>,
)
    requires
        exists|j: int| 0 <= j < pending.len() && #[trigger] pending[j].handle == h,
        forall|j: int| 0 <= j < pending.len() && #[trigger] pending[j].handle == h ==> pending[j].bucket == b,
    ensures
        timer_run(now, pending, deltas).len() == deltas.len(),
        forall|k: int|
            0 <= k < deltas.len() ==> ((#[trigger] timer_run(now, pending, deltas)[k]).contains(h)
                <==> k == first_due_tick(now, b as nat, deltas)),
    decreases deltas.len(),
{
    lemma_timer_run_len(now, pending, deltas);
    if deltas.len() > 0 {
        let t = now + deltas[0];
        let left = left_pending(pending, t);
        let run = timer_run(now, pending, deltas);
        lemma_woken_by_contains(pending, t, h);
        lemma_timer_run_len(t, left, deltas.skip(1));
        assert(run[0] == woken_by(pending, t));
        let j0 = choose|j: int| 0 <= j < pending.len() && #[trigger] pending[j].handle == h;
        if (b as nat) < bucket_of(t) {
            assert forall|j: int| 0 <= j < left.len() implies #[trigger] left[j].handle != h by {
                lemma_left_pending_contains(pending, t, left[j]);
                assert(left.contains(left[j]));
                if left[j].handle == h {
                    let i = choose|i: int| 0 <= i < pending.len() && pending[i] == left[j];
                    assert(pending[i].handle == h);
                }
            }
            assert forall|k: int| 0 <= k < deltas.len() implies (#[trigger] run[k]).contains(h) <==> k
                == first_due_tick(now, b as nat, deltas) by {
                if k > 0 {
                    lemma_absent_never_woken(t, left, h, deltas.skip(1), k - 1);
                    assert(run[k] == timer_run(t, left, deltas.skip(1))[k - 1]);
                } else {
                    assert(is_due(pending[j0], t));
                }
            }
        } else {
            lemma_left_pending_contains(pending, t, pending[j0]);
            assert(pending.contains(pending[j0]));
            let i0 = choose|i: int| 0 <= i < left.len() && left[i] == pending[j0];
            assert(left[i0].handle == h);
            assert forall|j: int| 0 <= j < left.len() && #[trigger] left[j].handle == h implies left[j].bucket
                == b by {
                lemma_left_pending_contains(pending, t, left[j]);
                assert(left.contains(left[j]));
                let i = choose|i: int| 0 <= i < pending.len() && pending[i] == left[j];
                assert(pending[i].handle == h);
            }
            lemma_woken_on_first_tick_past_bucket(t, left, h, b, deltas.skip(1));
            assert forall|k: int| 0 <= k < deltas.len() implies (#[trigger] run[k]).contains(h) <==> k
                == first_due_tick(now, b as nat, deltas) by {
                if k > 0 {
                    assert(run[k] == timer_run(t, left, deltas.skip(1))[k - 1]);
                } else {
                    assert forall|j: int|
                        0 <= j < pending.len() && #[trigger] pending[j].handle == h implies !is_due(
                        pending[j],
                        t,
                    ) by {}
                }
            }
        }
    }
}

/// A flow that sleeps until `release` while the clock is below it is woken
/// by the first tick after which the bucket of the clock exceeds the bucket
/// of `release`, never by an earlier tick and never again later.
pub proof fn lemma_sleep_until_wakes_past_release_bucket(
    now: nat,
    pending: Seq<PendingWake>,
    registered: Seq<PendingWake>,
    h: u64,
    release: u64,
    deltas: Seq<nat>,
)
    requires
        forall|j: int| 0 <= j < pending.len() ==> #[trigger] pending[j].handle != h,
        inserted_in_order(
            pending,
            registered,
            PendingWake { bucket: (release / TICKS_PER_UNIT) as u64, handle: h },
        ),
    ensures
        timer_run(now, registered, deltas).len() == deltas.len(),
        forall|k: int|
            0 <= k < deltas.len() ==> ((#[trigger] timer_run(now, registered, deltas)[k]).contains(h)
                <==> k == first_due_tick(now, bucket_of(release as nat), deltas)),
{
    let w = PendingWake { bucket: (release / TICKS_PER_UNIT) as u64, handle: h };
    let p = choose|p: int|
        0 <= p <= pending.len() && registered == pending.insert(p, w) && (forall|i: int|
            0 <= i < p ==> #[trigger] pending[i].bucket <= w.bucket) && (forall|i: int|
            p <= i < pending.len() ==> #[trigger] pending[i].bucket > w.bucket);
    assert(registered[p] == w);
    assert(registered[p].handle == h);
    assert forall|j: int| 0 <= j < registered.len() && #[trigger] registered[j].handle == h implies registered[j].bucket
        == w.bucket by {
        if j < p {
            assert(registered[j] == pending[j]);
        } else if j > p {
            assert(registered[j] == pending[j - 1]);
        }
    }
    lemma_woken_on_first_tick_past_bucket(now, registered, h, w.bucket, deltas);
}

proof fn lemma_first_due_tick_monotone(now: nat, b1: nat, b2: nat, deltas: Seq<nat>)
    requires
        b1 <= b2,
    ensures
        first_due_tick(now, b1, deltas) <= first_due_tick(now, b2, deltas),
    decreases deltas.len(),
{
    if deltas.len() > 0 {
        let t = now + deltas[0];
        lemma_first_due_tick_monotone(t, b1, b2, deltas.skip(1));
    }
}

/// Of two flows that ask at the same time to sleep for `d1 < d2` ticks, the
/// shorter sleeper resumes no later than the longer one, whatever the ticks.
pub proof fn lemma_shorter_sleep_resumes_first(now: nat, d1: nat, d2: nat, deltas: Seq<nat>)
    requires
        d1 < d2,
    ensures
        resume_tick(now, now + d1, deltas) <= resume_tick(now, now + d2, deltas),
{
    if now + d1 > now {
        assert(bucket_of(now + d1) <= bucket_of(now + d2)) by (nonlinear_arith)
            requires
                now + d1 <= now + d2,
        {
            vstd::arithmetic::div_mod::lemma_div_is_ordered(
                (now + d1) as int,
                (now + d2) as int,
                TICKS_PER_UNIT as int,
            );
        }
        lemma_first_due_tick_monotone(now, bucket_of(now + d1), bucket_of(now + d2), deltas);
    }
}

} // verus!
