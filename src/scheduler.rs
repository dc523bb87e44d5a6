use vstd::prelude::*;

verus! {

/// Most extra update steps run in one iteration to catch up after a stall.
pub const MAX_FRAME_SKIPS: u32 = 5;

/// Consecutive iterations behind schedule after which the loop yields the
/// processor once.
pub const NUM_DELAYS_PER_YIELD: u32 = 16;

/// What the loop does after the work of one iteration.
#[derive(Debug, Clone, Copy, PartialEq, Eq, Structural)]
pub enum Pacing {
    /// On schedule: sleep `sleep_ms` milliseconds (none when 0), then report
    /// the ticks that passed to `woke`.
    Sleep { sleep_ticks: u64, sleep_ms: u64 },
    /// Behind schedule: no sleep; yield the processor first when `yield_now`.
    Behind { yield_now: bool },
}

/// `x`, capped at `u64::MAX`.
pub open spec fn capped(x: int) -> u64 {
    if x > u64::MAX {
        u64::MAX
    } else {
        x as u64
    }
}

/// Ticks in one frame at `target_fps` frames per second.
pub open spec fn frame_period_of(frequency: u64, target_fps: i32) -> int {
    frequency as int / target_fps as int
}

/// Whole milliseconds in `ticks`, rounded down.
pub open spec fn ticks_to_ms(ticks: u64, frequency: u64) -> int {
    ticks as int * 1000 / frequency as int
}

/// Catch-up steps owed by `excess` ticks behind, within the cap.
pub open spec fn skips_for(excess: int, period: int) -> int {
    let k = excess / period;
    if k > MAX_FRAME_SKIPS {
        MAX_FRAME_SKIPS as int
    } else {
        k
    }
}

/// Ticks behind after an iteration whose work took `proc` ticks.
pub open spec fn excess_after_frame(excess: int, proc: int, period: int) -> int {
    if proc <= period {
        excess
    } else {
        excess + proc - period
    }
}

/// Update steps run by an iteration that took `proc` ticks of work with
/// `excess` ticks behind before it: the regular one and the catch-up ones.
pub open spec fn updates_in_frame(excess: int, proc: int, period: int) -> int {
    1 + skips_for(excess_after_frame(excess, proc, period), period)
}

/// Ticks behind after that iteration's catch-up steps.
pub open spec fn excess_after_catch_up(excess: int, proc: int, period: int) -> int {
    let e = excess_after_frame(excess, proc, period);
    e - skips_for(e, period) * period
}

/// Decides the pacing of a fixed-rate loop from tick counts of a monotonic
/// counter: how long to sleep, when to yield, and how many update steps to
/// run to catch up.
pub struct FrameScheduler {
    frequency: u64,
    frame_period: u64,
    over_sleep: u64,
    sleep_ticks: u64,
    num_delays: u32,
    excess: u64,
    frame_skips: u64,
    updates: Ghost<int>,
    span: Ghost<int>,
    lost: Ghost<int>,
}

impl FrameScheduler {
    pub closed spec fn spec_frequency(&self) -> u64 {
        self.frequency
    }

    pub closed spec fn spec_frame_period(&self) -> u64 {
        self.frame_period
    }

    /// Ticks that the last sleep overshot, charged to the next iteration.
    pub closed spec fn spec_over_sleep(&self) -> u64 {
        self.over_sleep
    }

    /// Ticks of the sleep last decided.
    pub closed spec fn spec_sleep_ticks(&self) -> u64 {
        self.sleep_ticks
    }

    /// Consecutive iterations behind schedule since the last sleep or yield.
    pub closed spec fn spec_num_delays(&self) -> u32 {
        self.num_delays
    }

    /// Ticks the updates are behind.
    pub closed spec fn spec_excess(&self) -> u64 {
        self.excess
    }

    /// Catch-up steps run so far.
    pub closed spec fn spec_frame_skips(&self) -> u64 {
        self.frame_skips
    }

    /// Update steps decided so far: one per iteration, plus the catch-up ones.
    pub closed spec fn spec_updates(&self) -> int {
        self.updates@
    }

    /// Ticks spanned by the iterations so far, an on-time one counting a
    /// full period.
    pub closed spec fn spec_span(&self) -> int {
        self.span@
    }

    /// Ticks dropped because the excess was capped at `u64::MAX`.
    pub closed spec fn spec_lost(&self) -> int {
        self.lost@
    }

    pub open spec fn wf(&self) -> bool {
        &&& self.spec_updates() >= 0
        &&& self.spec_lost() >= 0
        &&& self.spec_updates() * self.spec_frame_period() + self.spec_excess()
            + self.spec_lost() == self.spec_span()
        &&& self.spec_frame_period() > 0
        &&& self.spec_frame_period() <= self.spec_frequency()
        &&& self.spec_num_delays() < NUM_DELAYS_PER_YIELD
        &&& self.spec_sleep_ticks() <= self.spec_frame_period()
    }

    /// A scheduler for a counter of `frequency` ticks per second and a target
    /// of `target_fps` frames per second; `None` unless `target_fps` is
    /// positive and one frame is at least one tick.
    pub fn new(frequency: u64, target_fps: i32) -> (r: Option<FrameScheduler>)
        ensures
            r is Some <==> target_fps > 0 && frame_period_of(frequency, target_fps) > 0,
            r matches Some(s) ==> {
                &&& s.wf()
                &&& s.spec_frequency() == frequency
                &&& s.spec_frame_period() == frame_period_of(frequency, target_fps)
                &&& s.spec_over_sleep() == 0
                &&& s.spec_sleep_ticks() == 0
                &&& s.spec_num_delays() == 0
                &&& s.spec_excess() == 0
                &&& s.spec_frame_skips() == 0
                &&& s.spec_updates() == 0
                &&& s.spec_span() == 0
                &&& s.spec_lost() == 0
            },
    {
        if target_fps <= 0 {
            return None;
        }
        let period = frequency / target_fps as u64;
        if period == 0 {
            return None;
        }
        Some(
            FrameScheduler {
                frequency,
                frame_period: period,
                over_sleep: 0,
                sleep_ticks: 0,
                num_delays: 0,
                excess: 0,
                frame_skips: 0,
                updates: Ghost(0),
                span: Ghost(0),
                lost: Ghost(0),
            },
        )
    }

    pub fn frequency(&self) -> (r: u64)
        ensures
            r == self.spec_frequency(),
    {
        self.frequency
    }

    pub fn frame_period(&self) -> (r: u64)
        ensures
            r == self.spec_frame_period(),
    {
        self.frame_period
    }

    /// Catch-up steps run so far.
    pub fn frame_skips(&self) -> (r: u64)
        ensures
            r == self.spec_frame_skips(),
    {
        self.frame_skips
    }

    /// Decides what follows the work of an iteration that took `work_ticks`.
    /// The overshoot of the last sleep counts as work. On schedule, the rest
    /// of the frame is slept and the run of delays ends; behind schedule, the
    /// overrun is added to the excess and every `NUM_DELAYS_PER_YIELD`-th
    /// iteration in a row yields the processor.
    pub fn after_frame(&mut self, work_ticks: u64) -> (r: Pacing)
        requires
            old(self).wf(),
        ensures
            final(self).wf(),
            final(self).spec_frequency() == old(self).spec_frequency(),
            final(self).spec_frame_period() == old(self).spec_frame_period(),
            final(self).spec_frame_skips() == old(self).spec_frame_skips(),
            final(self).spec_updates() == old(self).spec_updates() + 1,
            final(self).spec_span() == old(self).spec_span() + frame_span(
                capped(work_ticks + old(self).spec_over_sleep()) as int,
                old(self).spec_frame_period() as int,
            ),
            ({
                let proc = capped(work_ticks + old(self).spec_over_sleep());
                let period = old(self).spec_frame_period();
                if proc <= period {
                    &&& r == Pacing::Sleep {
                        sleep_ticks: (period - proc) as u64,
                        sleep_ms: ticks_to_ms((period - proc) as u64, old(self).spec_frequency())
                            as u64,
                    }
                    &&& final(self).spec_sleep_ticks() == period - proc
                    &&& final(self).spec_num_delays() == 0
                    &&& final(self).spec_over_sleep() == old(self).spec_over_sleep()
                    &&& final(self).spec_excess() == old(self).spec_excess()
                    &&& final(self).spec_lost() == old(self).spec_lost()
                } else {
                    let delays = old(self).spec_num_delays() + 1;
                    &&& r == Pacing::Behind { yield_now: delays >= NUM_DELAYS_PER_YIELD }
                    &&& final(self).spec_sleep_ticks() == 0
                    &&& final(self).spec_num_delays() == (if delays >= NUM_DELAYS_PER_YIELD {
                        0
                    } else {
                        delays
                    })
                    &&& final(self).spec_over_sleep() == 0
                    &&& final(self).spec_excess() == capped(
                        excess_after_frame(old(self).spec_excess() as int, proc as int, period as int),
                    )
                    &&& final(self).spec_lost() == old(self).spec_lost() + old(self).spec_excess()
                        + proc - period - final(self).spec_excess()
                }
            }),
    {
        let proc = work_ticks.saturating_add(self.over_sleep);
        if proc <= self.frame_period {
            let sleep_ticks = self.frame_period - proc;
            proof {
                assert(sleep_ticks as int * 1000 <= u128::MAX) by (nonlinear_arith)
                    requires
                        sleep_ticks <= u64::MAX,
                ;
                assert(sleep_ticks as int * 1000 / self.frequency as int <= sleep_ticks as int
                    * 1000 / self.frame_period as int) by (nonlinear_arith)
                    requires
                        0 < self.frame_period <= self.frequency,
                        sleep_ticks >= 0,
                ;
                assert(sleep_ticks as int * 1000 / self.frame_period as int <= 1000)
                    by (nonlinear_arith)
                    requires
                        0 < self.frame_period,
                        sleep_ticks <= self.frame_period,
                ;
            }
            let sleep_ms = (sleep_ticks as u128 * 1000 / self.frequency as u128) as u64;
            self.sleep_ticks = sleep_ticks;
            self.num_delays = 0;
            self.updates = Ghost(self.updates@ + 1);
            self.span = Ghost(self.span@ + self.frame_period);
            proof {
                let (u, p) = (old(self).updates@, self.frame_period as int);
                assert((u + 1) * p == u * p + p) by (nonlinear_arith);
            }
            Pacing::Sleep { sleep_ticks, sleep_ms }
        } else {
            self.num_delays = self.num_delays + 1;
            let yield_now = self.num_delays >= NUM_DELAYS_PER_YIELD;
            if yield_now {
                self.num_delays = 0;
            }
            self.over_sleep = 0;
            self.sleep_ticks = 0;
            let ghost owed = self.excess + proc - self.frame_period;
            self.excess = self.excess.saturating_add(proc - self.frame_period);
            self.updates = Ghost(self.updates@ + 1);
            self.span = Ghost(self.span@ + proc);
            self.lost = Ghost(self.lost@ + owed - self.excess);
            proof {
                let (u, p) = (old(self).updates@, self.frame_period as int);
                assert((u + 1) * p == u * p + p) by (nonlinear_arith);
            }
            Pacing::Behind { yield_now }
        }
    }

    /// Takes the ticks that passed during the sleep last decided. An overshoot
    /// is kept to be charged to the next iteration; on waking early, returns
    /// true: the loop then waits until the frame's full period has passed.
    pub fn woke(&mut self, slept_ticks: u64) -> (r: bool)
        requires
            old(self).wf(),
        ensures
            final(self).wf(),
            r == (slept_ticks < old(self).spec_sleep_ticks()),
            final(self).spec_over_sleep() == (if r {
                0
            } else {
                slept_ticks - old(self).spec_sleep_ticks()
            }),
            final(self).spec_frequency() == old(self).spec_frequency(),
            final(self).spec_frame_period() == old(self).spec_frame_period(),
            final(self).spec_sleep_ticks() == old(self).spec_sleep_ticks(),
            final(self).spec_num_delays() == old(self).spec_num_delays(),
            final(self).spec_excess() == old(self).spec_excess(),
            final(self).spec_frame_skips() == old(self).spec_frame_skips(),
            final(self).spec_updates() == old(self).spec_updates(),
            final(self).spec_span() == old(self).spec_span(),
            final(self).spec_lost() == old(self).spec_lost(),
    {
        if slept_ticks < self.sleep_ticks {
            self.over_sleep = 0;
            true
        } else {
            self.over_sleep = slept_ticks - self.sleep_ticks;
            false
        }
    }

    /// Whether `elapsed_ticks` since the iteration began fill its period.
    pub fn frame_complete(&self, elapsed_ticks: u64) -> (r: bool)
        ensures
            r == (elapsed_ticks >= self.spec_frame_period()),
    {
        elapsed_ticks >= self.frame_period
    }

    /// Takes as many whole periods off the excess as catch-up steps are owed,
    /// at most `MAX_FRAME_SKIPS`, and returns that number: the loop runs that
    /// many extra update steps without rendering.
    pub fn catch_up(&mut self) -> (r: u32)
        requires
            old(self).wf(),
        ensures
            final(self).wf(),
            r == skips_for(old(self).spec_excess() as int, old(self).spec_frame_period() as int),
            r <= MAX_FRAME_SKIPS,
            final(self).spec_excess() == old(self).spec_excess() - r * old(
                self,
            ).spec_frame_period(),
            final(self).spec_frame_skips() == capped(old(self).spec_frame_skips() + r),
            final(self).spec_frequency() == old(self).spec_frequency(),
            final(self).spec_frame_period() == old(self).spec_frame_period(),
            final(self).spec_over_sleep() == old(self).spec_over_sleep(),
            final(self).spec_sleep_ticks() == old(self).spec_sleep_ticks(),
            final(self).spec_num_delays() == old(self).spec_num_delays(),
            final(self).spec_updates() == old(self).spec_updates() + r,
            final(self).spec_span() == old(self).spec_span(),
            final(self).spec_lost() == old(self).spec_lost(),
    {
        let ghost e0 = self.excess as int;
        let ghost p = self.frame_period as int;
        let mut skips: u32 = 0;
        while self.excess >= self.frame_period && skips < MAX_FRAME_SKIPS
            invariant
                old(self).wf(),
                self.frequency == old(self).frequency,
                self.frame_period == p,
                p > 0,
                self.updates == old(self).updates,
                self.span == old(self).span,
                self.lost == old(self).lost,
                self.over_sleep == old(self).over_sleep,
                self.sleep_ticks == old(self).sleep_ticks,
                self.num_delays == old(self).num_delays,
                self.frame_skips == old(self).frame_skips,
                e0 == old(self).excess,
                skips <= MAX_FRAME_SKIPS,
                skips <= e0 / p,
                self.excess == e0 - skips * p,
            decreases MAX_FRAME_SKIPS - skips,
        {
            let ghost x = self.excess as int;
            let ghost k = skips as int;
            proof {
                assert(k + 1 <= e0 / p) by (nonlinear_arith)
                    requires
                        x == e0 - k * p,
                        x >= p,
                        p > 0,
                ;
                assert((k + 1) * p == k * p + p) by (nonlinear_arith);
            }
            self.excess = self.excess - self.frame_period;
            skips = skips + 1;
        }
        let ghost x = self.excess as int;
        let ghost k = skips as int;
        proof {
            if skips < MAX_FRAME_SKIPS {
                assert(e0 / p <= k) by (nonlinear_arith)
                    requires
                        x == e0 - k * p,
                        x < p,
                        p > 0,
                ;
            }
        }
        self.frame_skips = self.frame_skips.saturating_add(skips as u64);
        self.updates = Ghost(self.updates@ + skips);
        proof {
            let (u, p) = (old(self).updates@, self.frame_period as int);
            assert((u + k) * p == u * p + k * p) by (nonlinear_arith);
        }
        skips
    }

    /// Whether the statistics, last refreshed at tick `last`, are due again
    /// at tick `now`: a quarter of a second has passed.
    pub fn stats_due(&self, now: u64, last: u64) -> (r: bool)
        ensures
            r == (now >= last && now - last >= self.spec_frequency() / 4),
    {
        now >= last && now - last >= self.frequency / 4
    }
}

/// For a scheduler run from `new` through any iterations of `after_frame`,
/// `woke` and `catch_up`: the update steps decided, counted in periods, plus
/// the ticks still behind equal the ticks spanned, so no step is lost; the
/// steps are the span in whole periods, `floor(elapsed_seconds *
/// target_fps)`, whenever the scheduler is less than a period behind, which
/// it is unless the last catch-up reached `MAX_FRAME_SKIPS`. This holds as
/// long as the excess never reached `u64::MAX`.
pub proof fn lemma_updates_track_span(s: FrameScheduler)
    requires
        s.wf(),
        s.spec_lost() == 0,
    ensures
        s.spec_updates() * s.spec_frame_period() + s.spec_excess() == s.spec_span(),
        s.spec_excess() < s.spec_frame_period() ==> s.spec_updates() == s.spec_span()
            / s.spec_frame_period() as int,
{
    let (u, e, p, t) = (
        s.spec_updates(),
        s.spec_excess() as int,
        s.spec_frame_period() as int,
        s.spec_span(),
    );
    if e < p {
        assert(t / p == u) by (nonlinear_arith)
            requires
                u * p + e == t,
                0 <= e < p,
        ;
    }
}

/// The span of an iteration that took `proc` ticks of work: on schedule it
/// is padded to the full period.
pub open spec fn frame_span(proc: int, period: int) -> int {
    if proc <= period {
        period
    } else {
        proc
    }
}

/// Ticks spanned by iterations that took `procs` ticks of work each.
pub open spec fn total_span(procs: Seq<int>, period: int) -> int
    decreases procs.len(),
{
    if procs.len() == 0 {
        0
    } else {
        total_span(procs.drop_last(), period) + frame_span(procs.last(), period)
    }
}

/// Update steps run, and ticks behind at the end, over iterations that took
/// `procs` ticks of work each, starting `excess` ticks behind.
pub open spec fn run_updates(excess: int, procs: Seq<int>, period: int) -> (int, int)
    decreases procs.len(),
{
    if procs.len() == 0 {
        (0, excess)
    } else {
        let (u, e) = run_updates(excess, procs.drop_last(), period);
        (
            u + updates_in_frame(e, procs.last(), period),
            excess_after_catch_up(e, procs.last(), period),
        )
    }
}

/// One iteration runs between 1 and `1 + MAX_FRAME_SKIPS` update steps and
/// loses no time: the periods of the steps it runs plus the ticks still
/// behind equal the ticks behind before it plus its span. It ends less than
/// a period behind unless it ran the most steps allowed.
pub proof fn lemma_frame_accounting(excess: int, proc: int, period: int)
    requires
        period > 0,
        excess >= 0,
        proc >= 0,
    ensures
        1 <= updates_in_frame(excess, proc, period) <= 1 + MAX_FRAME_SKIPS,
        updates_in_frame(excess, proc, period) * period + excess_after_catch_up(
            excess,
            proc,
            period,
        ) == excess + frame_span(proc, period),
        0 <= excess_after_catch_up(excess, proc, period),
        excess_after_catch_up(excess, proc, period) < period || updates_in_frame(
            excess,
            proc,
            period,
        ) == 1 + MAX_FRAME_SKIPS,
{
    let e = excess_after_frame(excess, proc, period);
    let q = e / period;
    let k = skips_for(e, period);
    assert(e >= 0);
    assert(0 <= q) by (nonlinear_arith)
        requires
            e >= 0,
            period > 0,
            q == e / period,
    ;
    assert(q * period <= e && e < (q + 1) * period) by (nonlinear_arith)
        requires
            e >= 0,
            period > 0,
            q == e / period,
    ;
    assert(k * period <= q * period) by (nonlinear_arith)
        requires
            0 <= k <= q,
            period > 0,
    ;
    assert((1 + k) * period == period + k * period) by (nonlinear_arith);
    assert((q + 1) * period == q * period + period) by (nonlinear_arith);
}

/// Over any run of iterations that starts on time, the update steps run,
/// counted in periods, plus the ticks still behind equal the ticks that
/// passed; so the number of steps is the elapsed time in whole periods,
/// `floor(elapsed_seconds * target_fps)`, whenever the run ends less than a
/// period behind, which it does unless the catch-up cap was reached.
pub proof fn lemma_updates_track_elapsed(procs: Seq<int>, period: int)
    requires
        period > 0,
        forall|i: int| 0 <= i < procs.len() ==> procs[i] >= 0,
    ensures
        ({
            let (u, e) = run_updates(0, procs, period);
            &&& u * period + e == total_span(procs, period)
            &&& 0 <= e
            &&& e < period ==> u == total_span(procs, period) / period
        }),
    decreases procs.len(),
{
    let (u, e) = run_updates(0, procs, period);
    if procs.len() > 0 {
        let init = procs.drop_last();
        assert forall|i: int| 0 <= i < init.len() implies init[i] >= 0 by {
            assert(init[i] == procs[i]);
        }
        lemma_updates_track_elapsed(init, period);
        let (u0, e0) = run_updates(0, init, period);
        lemma_frame_accounting(e0, procs.last(), period);
        let n = updates_in_frame(e0, procs.last(), period);
        assert(u * period == u0 * period + n * period) by (nonlinear_arith)
            requires
                u == u0 + n,
        ;
    }
    if e < period {
        let t = total_span(procs, period);
        assert(t / period == u) by (nonlinear_arith)
            requires
                u * period + e == t,
                0 <= e < period,
                period > 0,
        ;
    }
}

} // verus!
