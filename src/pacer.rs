use vstd::prelude::*;

verus! {

/// Drift-free pacing: sends are scheduled at `start + k * interval`, and the
/// schedule advances by exactly one interval per fired send, never to `now`.
pub struct Pacer {
    pub interval: u64,
    pub scheduled: u64,
    /// Clock reading at which the schedule began.
    pub start: Ghost<nat>,
    /// Number of sends that advanced the schedule.
    pub fired: Ghost<nat>,
}

/// Clock units between two sends: the clock rate divided by the target frequency.
pub open spec fn interval_for(clock_rate: u64, frequency: u64) -> nat
    recommends
        frequency > 0,
{
    (clock_rate / frequency) as nat
}

impl Pacer {
    /// The schedule never drifts: the next slot is the start plus one
    /// interval for every send that has been fired.
    pub open spec fn wf(&self) -> bool {
        self.scheduled == self.start@ + self.fired@ * self.interval
    }

    /// A send is due at `now` once a full interval has passed since the
    /// current scheduled instant.
    pub open spec fn is_due_at(&self, now: u64) -> bool {
        now >= self.scheduled && now - self.scheduled >= self.interval
    }

    /// Starts a schedule at clock reading `now` for `frequency` sends per
    /// `clock_rate` clock units.
    pub fn new(clock_rate: u64, frequency: u64, now: u64) -> (p: Pacer)
        requires
            frequency > 0,
        ensures
            p.wf(),
            p.interval == interval_for(clock_rate, frequency),
            p.scheduled == now,
            p.start@ == now as nat,
            p.fired@ == 0,
    {
        Pacer { interval: clock_rate / frequency, scheduled: now, start: Ghost(now as nat), fired: Ghost(0) }
    }

    /// Whether a send is due at clock reading `now`.
    pub fn is_due(&self, now: u64) -> (r: bool)
        ensures
            r == self.is_due_at(now),
    {
        now >= self.scheduled && now - self.scheduled >= self.interval
    }

    /// Records that the due send went out: the schedule moves on by exactly
    /// one interval, however late the send was.
    pub fn advance(&mut self, now: u64)
        requires
            old(self).wf(),
            old(self).is_due_at(now),
        ensures
            final(self).wf(),
            final(self).interval == old(self).interval,
            final(self).scheduled == old(self).scheduled + old(self).interval,
            final(self).scheduled <= now,
            final(self).start == old(self).start,
            final(self).fired@ == old(self).fired@ + 1,
    {
        let ghost prev = self.scheduled as int;
        let ghost k = self.fired@;
        self.scheduled = self.scheduled + self.interval;
        self.fired = Ghost(k + 1);
        proof {
            let iv = self.interval as int;
            assert(prev + iv == self.start@ + (k + 1) * iv) by (nonlinear_arith)
                requires
                    prev == self.start@ + k * iv,
            ;
        }
    }
}

/// Pacing accuracy: every fired send was at or after its scheduled slot, so
/// at a reading `now` where no send is due, the number of sends fired since
/// the start is exactly `(now - start) / interval`; the schedule is
/// `start + fired * interval`, never the time of the last send.
pub proof fn lemma_pacing_accuracy(p: Pacer, now: u64)
    requires
        p.wf(),
        p.scheduled <= now,
        !p.is_due_at(now),
    ensures
        p.start@ + p.fired@ * p.interval <= now < p.start@ + (p.fired@ + 1) * p.interval,
        p.interval > 0 ==> p.fired@ == (now - p.start@) / (p.interval as int),
{
    let iv = p.interval as int;
    let k = p.fired@ as int;
    assert(p.start@ + (k + 1) * iv == p.start@ + k * iv + iv) by (nonlinear_arith);
    if iv > 0 {
        let d = now - p.start@;
        assert(k * iv <= d < (k + 1) * iv);
        assert(d / iv == k) by (nonlinear_arith)
            requires
                k * iv <= d < (k + 1) * iv,
                iv > 0,
                k >= 0,
        {
            vstd::arithmetic::div_mod::lemma_fundamental_div_mod(d, iv);
            if d / iv > k {
                assert(d / iv >= k + 1);
                vstd::arithmetic::mul::lemma_mul_inequality(k + 1, d / iv, iv);
            } else if d / iv < k {
                vstd::arithmetic::mul::lemma_mul_inequality(d / iv + 1, k, iv);
            }
        }
    }
}

/// The schedule after polling at each reading of `nows` in turn, firing
/// whenever a send is due as `Pacer::is_due` decides and advancing as
/// `Pacer::advance` does (no send is refused): the final scheduled instant
/// and the number of sends fired.
pub open spec fn poll_run(start: int, interval: int, nows: Seq<u64>) -> (int, nat)
    decreases nows.len(),
{
    if nows.len() == 0 {
        (start, 0)
    } else {
        let (s, f) = poll_run(start, interval, nows.drop_last());
        let r = nows.last() as int;
        if r >= s && r - s >= interval {
            (s + interval, f + 1)
        } else {
            (s, f)
        }
    }
}

/// Readings that start within one interval of `start`, never go back, and
/// are at most one interval apart.
pub open spec fn polled_each_interval(start: int, interval: int, nows: Seq<u64>) -> bool {
    &&& nows.len() > 0
    &&& start <= nows[0] <= start + interval
    &&& forall|i: int|
        0 <= i < nows.len() - 1 ==> nows[i] <= #[trigger] nows[i + 1] <= nows[i] + interval
}

proof fn lemma_poll_run_gap(start: int, interval: int, nows: Seq<u64>)
    requires
        interval > 0,
        polled_each_interval(start, interval, nows),
    ensures
        poll_run(start, interval, nows).0 == start + poll_run(start, interval, nows).1 * interval,
        poll_run(start, interval, nows).0 <= nows.last(),
        nows.last() - poll_run(start, interval, nows).0 < interval,
    decreases nows.len(),
{
    let d = nows.drop_last();
    let (s, f) = poll_run(start, interval, d);
    if nows.len() == 1 {
        assert(poll_run(start, interval, d) == (start, 0nat));
    } else {
        assert forall|i: int| 0 <= i < d.len() - 1 implies d[i] <= #[trigger] d[i + 1] <= d[i]
            + interval by {
            assert(nows[i] <= nows[i + 1] <= nows[i] + interval);
        }
        lemma_poll_run_gap(start, interval, d);
        let i = nows.len() - 2;
        assert(nows[i] <= nows[i + 1] <= nows[i] + interval);
        assert(d.last() == nows[i]);
    }
    assert(start + (f + 1) * interval == start + f * interval + interval) by (nonlinear_arith);
}

/// Pacing accuracy over a whole run without backpressure: when the readings
/// are at most one interval apart, the sends fired by the last reading are
/// exactly `(last - start) / interval`, so over a duration `T` the count is
/// within one of `T / interval` however long the run, and the schedule
/// stands at `start + fired * interval`.
pub proof fn lemma_run_pacing(start: u64, interval: u64, nows: Seq<u64>)
    requires
        interval > 0,
        polled_each_interval(start as int, interval as int, nows),
    ensures
        poll_run(start as int, interval as int, nows).0 == start + poll_run(
            start as int,
            interval as int,
            nows,
        ).1 * interval,
        poll_run(start as int, interval as int, nows).1 == (nows.last() - start) / (interval as int),
{
    lemma_poll_run_gap(start as int, interval as int, nows);
    let (s, f) = poll_run(start as int, interval as int, nows);
    let p = Pacer { interval, scheduled: s as u64, start: Ghost(start as nat), fired: Ghost(f) };
    lemma_pacing_accuracy(p, nows.last());
}

} // verus!
