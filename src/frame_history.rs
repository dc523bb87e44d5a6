use vstd::prelude::*;

verus! {

/// Sum of the durations in `s`.
pub open spec fn total_duration(s: Seq<(u64, u64)>) -> int
    decreases s.len(),
{
    if s.len() == 0 {
        0
    } else {
        total_duration(s.drop_last()) + s.last().1
    }
}

/// First index at or after `c` whose sample is no older than `max_age`
/// relative to `now`.
pub open spec fn first_fresh(s: Seq<(u64, u64)>, c: int, now: u64, max_age: u64) -> int
    decreases s.len() - c,
{
    if 0 <= c < s.len() && s[c].0 + max_age < now {
        first_fresh(s, c + 1, now, max_age)
    } else {
        c
    }
}

/// The samples that stay after inserting one at `now`: the oldest go first,
/// until at most `max_len` are left and none is older than `max_age`.
pub open spec fn evicted(s: Seq<(u64, u64)>, now: u64, max_len: usize, max_age: u64) -> Seq<
    (u64, u64),
> {
    let start = if s.len() > max_len {
        s.len() - max_len
    } else {
        0
    };
    s.subrange(first_fresh(s, start, now, max_age), s.len() as int)
}

/// The samples after one frame ends at `now`: the projected entry of the
/// frame that just ended gets its measured duration, and a projected entry
/// for the next frame is added with that duration as first estimate.
pub open spec fn after_new_frame(
    s: Seq<(u64, u64)>,
    now: u64,
    duration: u64,
    max_len: usize,
    max_age: u64,
) -> Seq<(u64, u64)> {
    let filled = if s.len() > 0 {
        s.update(s.len() - 1, (s.last().0, duration))
    } else {
        s
    };
    evicted(filled.push((now, duration)), now, max_len, max_age)
}

/// A bounded window of recent frames: timestamps and durations in ticks of
/// a monotonic counter.
pub struct FrameHistory {
    samples: Vec<(u64, u64)>,
    max_len: usize,
    max_age: u64,
}

proof fn lemma_first_fresh(s: Seq<(u64, u64)>, c: int, now: u64, max_age: u64)
    requires
        0 <= c <= s.len(),
    ensures
        c <= first_fresh(s, c, now, max_age) <= s.len(),
        forall|i: int| c <= i < first_fresh(s, c, now, max_age) ==> s[i].0 + max_age < now,
        first_fresh(s, c, now, max_age) < s.len() ==> s[first_fresh(s, c, now, max_age)].0
            + max_age >= now,
    decreases s.len() - c,
{
    if c < s.len() && s[c].0 + max_age < now {
        lemma_first_fresh(s, c + 1, now, max_age);
    }
}

proof fn lemma_total_duration_push(s: Seq<(u64, u64)>, x: (u64, u64))
    ensures
        total_duration(s.push(x)) == total_duration(s) + x.1,
{
    assert(s.push(x).drop_last() =~= s);
}

proof fn lemma_total_duration_bound(s: Seq<(u64, u64)>)
    ensures
        0 <= total_duration(s) <= s.len() * (u64::MAX as int),
    decreases s.len(),
{
    if s.len() > 0 {
        lemma_total_duration_bound(s.drop_last());
    }
}

/// Drops samples from the front until at most `max_len` are left; returns
/// how many were dropped.
fn drop_to_len(v: &mut Vec<(u64, u64)>, max_len: usize) -> (r: usize)
    ensures
        r as int == (if old(v)@.len() > max_len {
            old(v)@.len() - max_len
        } else {
            0
        }),
        final(v)@ == old(v)@.subrange(r as int, old(v)@.len() as int),
{
    let ghost s = v@;
    let n = v.len();
    let mut c: usize = 0;
    while v.len() > max_len
        invariant
            s.len() == n,
            c <= s.len(),
            v@ == s.subrange(c as int, s.len() as int),
            s.len() > max_len ==> c <= s.len() - max_len,
            s.len() <= max_len ==> c == 0,
        decreases v@.len(),
    {
        v.remove(0);
        c = c + 1;
        assert(v@ =~= s.subrange(c as int, s.len() as int));
    }
    c
}

/// Drops samples from the front while the first one is older than `max_age`
/// relative to `now`; `v` is `s` from index `start` on.
fn drop_stale(
    v: &mut Vec<(u64, u64)>,
    Ghost(s): Ghost<Seq<(u64, u64)>>,
    start: usize,
    now: u64,
    max_age: u64,
) -> (r: usize)
    requires
        start <= s.len() <= usize::MAX,
        old(v)@ == s.subrange(start as int, s.len() as int),
    ensures
        r == first_fresh(s, start as int, now, max_age),
        r <= s.len(),
        final(v)@ == s.subrange(r as int, s.len() as int),
{
    let mut c: usize = start;
    while v.len() > 0 && v[0].0 < now && now - v[0].0 > max_age
        invariant
            start <= c <= s.len() <= usize::MAX,
            first_fresh(s, c as int, now, max_age) == first_fresh(s, start as int, now, max_age),
            v@ == s.subrange(c as int, s.len() as int),
        decreases v@.len(),
    {
        assert(v@[0] == s[c as int]);
        v.remove(0);
        c = c + 1;
        assert(v@ =~= s.subrange(c as int, s.len() as int));
    }
    if v.len() > 0 {
        assert(v@[0] == s[c as int]);
    }
    c
}

impl FrameHistory {
    /// The retained samples, oldest first, as (timestamp, duration).
    pub closed spec fn samples(&self) -> Seq<(u64, u64)> {
        self.samples@
    }

    pub closed spec fn spec_max_len(&self) -> usize {
        self.max_len
    }

    pub closed spec fn spec_max_age(&self) -> u64 {
        self.max_age
    }

    /// At most `max_len` samples, timestamps in order, none older than
    /// `max_age` relative to the newest.
    pub open spec fn wf(&self) -> bool {
        let s = self.samples();
        &&& s.len() <= self.spec_max_len()
        &&& forall|i: int, j: int| 0 <= i <= j < s.len() ==> s[i].0 <= s[j].0
        &&& forall|i: int| 0 <= i < s.len() ==> s[i].0 + self.spec_max_age() >= s.last().0
    }

    /// An empty window of at most `max_len` samples spanning at most
    /// `max_age` ticks.
    pub fn new(max_len: usize, max_age: u64) -> (r: FrameHistory)
        ensures
            r.wf(),
            r.samples() == Seq::<(u64, u64)>::empty(),
            r.spec_max_len() == max_len,
            r.spec_max_age() == max_age,
    {
        FrameHistory { samples: Vec::new(), max_len, max_age }
    }

    /// The newest timestamp, if any.
    pub fn latest_time(&self) -> (r: Option<u64>)
        ensures
            r == (if self.samples().len() > 0 {
                Some(self.samples().last().0)
            } else {
                None::<u64>
            }),
    {
        if self.samples.len() > 0 {
            Some(self.samples[self.samples.len() - 1].0)
        } else {
            None
        }
    }

    /// Records the end of a frame at `now` that took `previous_frame_time`
    /// ticks (0 when unknown), then evicts the oldest samples beyond
    /// `max_len` or older than `max_age`.
    pub fn on_new_frame(&mut self, now: u64, previous_frame_time: Option<u64>)
        requires
            old(self).wf(),
            old(self).samples().len() > 0 ==> old(self).samples().last().0 <= now,
        ensures
            final(self).wf(),
            final(self).spec_max_len() == old(self).spec_max_len(),
            final(self).spec_max_age() == old(self).spec_max_age(),
            final(self).samples() == after_new_frame(
                old(self).samples(),
                now,
                match previous_frame_time {
                    Some(d) => d,
                    None => 0,
                },
                old(self).spec_max_len(),
                old(self).spec_max_age(),
            ),
            final(self).samples().len() <= old(self).spec_max_len(),
            forall|i: int|
                0 <= i < final(self).samples().len() ==> #[trigger] final(self).samples()[i].0
                    + old(self).spec_max_age() >= now,
    {
        let d: u64 = match previous_frame_time {
            Some(d) => d,
            None => 0,
        };
        let n = self.samples.len();
        if n > 0 {
            let t = self.samples[n - 1].0;
            self.samples.set(n - 1, (t, d));
        }
        self.samples.push((now, d));
        let ghost s2 = self.samples@;
        let total = self.samples.len();
        proof {
            assert(s2.len() == total);
            assert forall|i: int, j: int| 0 <= i <= j < s2.len() implies s2[i].0 <= s2[j].0 by {
                if j < s2.len() - 1 {
                    assert(s2[i].0 == old(self).samples()[i].0);
                    assert(s2[j].0 == old(self).samples()[j].0);
                } else if i < s2.len() - 1 {
                    assert(s2[i].0 == old(self).samples()[i].0);
                    assert(old(self).samples()[i].0 <= old(self).samples().last().0);
                }
            }
        }
        let start = drop_to_len(&mut self.samples, self.max_len);
        proof {
            lemma_first_fresh(s2, start as int, now, self.max_age);
        }
        let first = drop_stale(&mut self.samples, Ghost(s2), start, now, self.max_age);
        proof {
            let r = self.samples@;
            assert forall|i: int| 0 <= i < r.len() implies #[trigger] r[i].0 + self.max_age
                >= now by {
                assert(r[i] == s2[first + i]);
                assert(s2[first as int].0 <= s2[first + i].0);
            }
        }
    }

    /// Mean of the retained durations, rounded down; 0 when empty.
    pub fn mean_frame_time(&self) -> (r: u64)
        ensures
            self.samples().len() == 0 ==> r == 0,
            self.samples().len() > 0 ==> r == total_duration(self.samples())
                / self.samples().len() as int,
    {
        let n = self.samples.len();
        if n == 0 {
            return 0;
        }
        let mut sum: u128 = 0;
        let mut i: usize = 0;
        while i < n
            invariant
                n == self.samples@.len(),
                i <= n,
                sum == total_duration(self.samples@.subrange(0, i as int)),
            decreases n - i,
        {
            proof {
                let s = self.samples@;
                lemma_total_duration_push(s.subrange(0, i as int), s[i as int]);
                assert(s.subrange(0, i as int).push(s[i as int]) =~= s.subrange(0, i + 1));
                lemma_total_duration_bound(s.subrange(0, i + 1));
                assert((i + 1) * (u64::MAX as int) <= (u64::MAX as int) * (u64::MAX as int))
                    by (nonlinear_arith)
                    requires
                        i + 1 <= u64::MAX,
                ;
            }
            sum = sum + self.samples[i].1 as u128;
            i = i + 1;
        }
        proof {
            assert(self.samples@.subrange(0, n as int) =~= self.samples@);
            lemma_total_duration_bound(self.samples@);
            assert((sum as int) / (n as int) <= u64::MAX) by (nonlinear_arith)
                requires
                    sum <= n * (u64::MAX as int),
                    n >= 1,
            ;
        }
        (sum / n as u128) as u64
    }

    /// Frames per second over the window, for a counter of `frequency` ticks
    /// per second: the reciprocal of the mean time between consecutive
    /// timestamps, rounded down and capped at `u64::MAX`; 0 with fewer than
    /// two samples or when all timestamps are equal.
    pub fn fps(&self, frequency: u64) -> (r: u64)
        requires
            self.wf(),
        ensures
            r == fps_of(self.samples(), frequency),
    {
        let n = self.samples.len();
        if n < 2 {
            return 0;
        }
        let span = self.samples[n - 1].0 - self.samples[0].0;
        if span == 0 {
            return 0;
        }
        let intervals = (n - 1) as u128;
        proof {
            assert(intervals * (frequency as int) <= u128::MAX) by (nonlinear_arith)
                requires
                    intervals <= u64::MAX,
                    frequency <= u64::MAX,
            ;
        }
        let f = intervals * frequency as u128 / span as u128;
        if f > u64::MAX as u128 {
            u64::MAX
        } else {
            f as u64
        }
    }
}

/// Frames per second that the samples `s` show for a counter of `frequency`
/// ticks per second.
pub open spec fn fps_of(s: Seq<(u64, u64)>, frequency: u64) -> u64 {
    if s.len() < 2 || s.last().0 <= s[0].0 {
        0
    } else {
        let f = (s.len() - 1) * frequency / (s.last().0 - s[0].0);
        if f > u64::MAX {
            u64::MAX
        } else {
            f as u64
        }
    }
}

} // verus!
