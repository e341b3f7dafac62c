use vstd::prelude::*;

verus! {

/// Length of the short pacing window, in milliseconds.
pub const SECOND_WINDOW_MILLIS: u64 = 1000;

/// Length of the long pacing window, in milliseconds.
pub const MINUTE_WINDOW_MILLIS: u64 = 60000;

/// How many grant times fall strictly after `lo` and at or before `hi`.
pub open spec fn grants_within(times: Seq<int>, lo: int, hi: int) -> int
    decreases times.len(),
{
    if times.len() == 0 {
        0
    } else {
        grants_within(times.drop_last(), lo, hi) + if lo < times.last() <= hi {
            1int
        } else {
            0int
        }
    }
}

/// Grant times never decrease.
pub open spec fn sorted(times: Seq<int>) -> bool {
    forall|i: int, j: int| 0 <= i <= j < times.len() ==> times[i] <= times[j]
}

/// Every grant observed the quota over the window ending at its own time,
/// counting itself and every earlier grant.
pub open spec fn paced(times: Seq<int>, window: int, quota: int) -> bool {
    forall|i: int|
        0 <= i < times.len() ==> grants_within(
            #[trigger] times.take(i + 1),
            times[i] - window,
            times[i],
        ) <= quota
}

/// Whether a request at time `instant` would clear both windows, counting
/// only the grants already given.
pub open spec fn clears_both_windows(
    times: Seq<int>,
    per_second_quota: int,
    per_minute_quota: int,
    instant: int,
) -> bool {
    &&& grants_within(times, instant - SECOND_WINDOW_MILLIS, instant) < per_second_quota
    &&& grants_within(times, instant - MINUTE_WINDOW_MILLIS, instant) < per_minute_quota
}

/// What an admission attempt decided: proceed now, or come back no earlier
/// than the carried time.
#[derive(Clone, Copy, PartialEq, Eq, Structural, Debug)]
pub enum AcquireOutcome {
    Granted,
    RetryAt(u64),
}

/// Gates requests against one upstream provider through two token windows
/// at once: at most `per_second_quota` grants in any rolling second and at
/// most `per_minute_quota` grants in any rolling minute. Both windows must
/// clear before a request proceeds; a request is never refused outright,
/// only told when to try again.
///
/// The limiter only decides; the caller supplies a monotonic clock reading
/// in milliseconds and performs its own waiting. Every grant is recorded,
/// so the record grows by one time per admitted request.
pub struct RateLimiter {
    /// Most grants allowed in any rolling second.
    pub per_second_quota: u32,
    /// Most grants allowed in any rolling minute.
    pub per_minute_quota: u32,
    /// Times of every grant given, in milliseconds, oldest first.
    pub grants: Vec<u64>,
}

impl RateLimiter {
    /// The grant times as mathematical integers.
    pub open spec fn history(self) -> Seq<int> {
        self.grants@.map_values(|t: u64| t as int)
    }

    /// Everything the limiter maintains between calls.
    pub open spec fn wf(self) -> bool {
        &&& self.per_second_quota >= 1
        &&& self.per_minute_quota >= 1
        &&& sorted(self.history())
        &&& forall|i: int|
            0 <= i < self.grants@.len() ==> #[trigger] self.grants@[i] <= u64::MAX
                - MINUTE_WINDOW_MILLIS
        &&& paced(self.history(), SECOND_WINDOW_MILLIS as int, self.per_second_quota as int)
        &&& paced(self.history(), MINUTE_WINDOW_MILLIS as int, self.per_minute_quota as int)
    }

    /// The clock reading a request is slotted at: the caller's reading, or
    /// the latest grant time if a lagging clock reads earlier than it.
    pub open spec fn effective_time(self, now: u64) -> int {
        if self.history().len() > 0 && self.history().last() > now {
            self.history().last()
        } else {
            now as int
        }
    }

    pub fn new(per_second_quota: u32, per_minute_quota: u32) -> (limiter: Self)
        requires
            per_second_quota >= 1,
            per_minute_quota >= 1,
        ensures
            limiter.wf(),
            limiter.per_second_quota == per_second_quota,
            limiter.per_minute_quota == per_minute_quota,
            limiter.history().len() == 0,
    {
        RateLimiter { per_second_quota, per_minute_quota, grants: Vec::new() }
    }

    /// Attempts to admit one request at clock reading `now` (milliseconds).
    /// The request is granted exactly when both windows have spare capacity,
    /// and the grant consumes one unit of each; otherwise nothing changes
    /// and the returned time is one at which both windows will have cleared,
    /// counting only the grants already given.
    pub fn acquire(&mut self, now: u64) -> (outcome: AcquireOutcome)
        requires
            old(self).wf(),
            now <= u64::MAX - MINUTE_WINDOW_MILLIS,
        ensures
            final(self).wf(),
            final(self).per_second_quota == old(self).per_second_quota,
            final(self).per_minute_quota == old(self).per_minute_quota,
            outcome is Granted <==> clears_both_windows(
                old(self).history(),
                old(self).per_second_quota as int,
                old(self).per_minute_quota as int,
                old(self).effective_time(now),
            ),
            outcome is Granted ==> final(self).history() == old(self).history().push(
                old(self).effective_time(now),
            ),
            match outcome {
                AcquireOutcome::Granted => true,
                AcquireOutcome::RetryAt(retry) => {
                    &&& final(self).grants == old(self).grants
                    &&& retry > now
                    &&& clears_both_windows(
                        old(self).history(),
                        old(self).per_second_quota as int,
                        old(self).per_minute_quota as int,
                        retry as int,
                    )
                },
            },
    {
        let len: usize = self.grants.len();
        let effective: u64 = if len > 0 && self.grants[len - 1] > now {
            self.grants[len - 1]
        } else {
            now
        };
        assert(effective == self.effective_time(now));
        assert(forall|i: int|
            0 <= i < self.history().len() ==> #[trigger] self.history()[i] <= effective);

        // count the grants inside each window ending at `effective`
        let ghost h = self.history();
        let ghost second_lo = effective - SECOND_WINDOW_MILLIS;
        let ghost minute_lo = effective - MINUTE_WINDOW_MILLIS;
        let mut in_second: usize = 0;
        let mut in_minute: usize = 0;
        let mut i: usize = 0;
        while i < len
            invariant
                len == self.grants@.len(),
                h == self.history(),
                forall|i: int| 0 <= i < h.len() ==> #[trigger] h[i] <= effective,
                i <= len,
                in_second == grants_within(h.take(i as int), second_lo, effective as int),
                in_minute == grants_within(h.take(i as int), minute_lo, effective as int),
                in_second <= i,
                in_minute <= i,
                second_lo == effective - SECOND_WINDOW_MILLIS,
                minute_lo == effective - MINUTE_WINDOW_MILLIS,
            decreases len - i,
        {
            let g: u64 = self.grants[i];
            proof {
                assert(h.take(i + 1).drop_last() =~= h.take(i as int));
                assert(h.take(i + 1).last() == h[i as int]);
            }
            if effective - g < SECOND_WINDOW_MILLIS {
                in_second += 1;
            }
            if effective - g < MINUTE_WINDOW_MILLIS {
                in_minute += 1;
            }
            i += 1;
        }
        proof {
            assert(h.take(len as int) =~= h);
        }

        if in_second < self.per_second_quota as usize && in_minute < self.per_minute_quota
            as usize {
            let ghost prev = *self;
            self.grants.push(effective);
            proof {
                let h2 = self.history();
                assert(h2 =~= h.push(effective as int));
                lemma_push_keeps_paced(
                    h,
                    SECOND_WINDOW_MILLIS as int,
                    prev.per_second_quota as int,
                    effective as int,
                );
                lemma_push_keeps_paced(
                    h,
                    MINUTE_WINDOW_MILLIS as int,
                    prev.per_minute_quota as int,
                    effective as int,
                );
            }
            AcquireOutcome::Granted
        } else {
            let ghost qps = self.per_second_quota as int;
            let ghost qpm = self.per_minute_quota as int;
            let mut retry: u64 = effective;
            if in_second >= self.per_second_quota as usize {
                let k: usize = len - self.per_second_quota as usize;
                let threshold: u64 = self.grants[k];
                let candidate: u64 = threshold + SECOND_WINDOW_MILLIS;
                proof {
                    lemma_retry_clears_window(h, SECOND_WINDOW_MILLIS as int, qps, k as int);
                    // the grant at index k sits inside the full window, so the
                    // candidate lies past `effective`
                    assert(h.take(len as int) =~= h);
                    lemma_count_cut_low(h, second_lo, effective as int, k as int, qps);
                }
                if candidate > retry {
                    retry = candidate;
                }
            }
            if in_minute >= self.per_minute_quota as usize {
                let k: usize = len - self.per_minute_quota as usize;
                let threshold: u64 = self.grants[k];
                let candidate: u64 = threshold + MINUTE_WINDOW_MILLIS;
                proof {
                    lemma_retry_clears_window(h, MINUTE_WINDOW_MILLIS as int, qpm, k as int);
                    lemma_count_cut_low(h, minute_lo, effective as int, k as int, qpm);
                }
                if candidate > retry {
                    retry = candidate;
                }
            }
            proof {
                // waiting longer never re-fills a window: carry each window's
                // clearance forward to the chosen retry time
                if grants_within(h, second_lo, effective as int) < qps {
                    lemma_window_count_monotone(
                        h,
                        SECOND_WINDOW_MILLIS as int,
                        effective as int,
                        retry as int,
                    );
                } else {
                    let k: int = (len - self.per_second_quota as usize) as int;
                    lemma_window_count_monotone(
                        h,
                        SECOND_WINDOW_MILLIS as int,
                        h[k] + SECOND_WINDOW_MILLIS,
                        retry as int,
                    );
                }
                if grants_within(h, minute_lo, effective as int) < qpm {
                    lemma_window_count_monotone(
                        h,
                        MINUTE_WINDOW_MILLIS as int,
                        effective as int,
                        retry as int,
                    );
                } else {
                    let k: int = (len - self.per_minute_quota as usize) as int;
                    lemma_window_count_monotone(
                        h,
                        MINUTE_WINDOW_MILLIS as int,
                        h[k] + MINUTE_WINDOW_MILLIS,
                        retry as int,
                    );
                }
            }
            AcquireOutcome::RetryAt(retry)
        }
    }
}

/// No grants at all fall in an interval that excludes every grant.
proof fn lemma_no_members_no_count(times: Seq<int>, lo: int, hi: int)
    requires
        forall|i: int| 0 <= i < times.len() ==> !(lo < #[trigger] times[i] <= hi),
    ensures
        grants_within(times, lo, hi) == 0,
    decreases times.len(),
{
    if times.len() > 0 {
        lemma_no_members_no_count(times.drop_last(), lo, hi);
    }
}

/// Counting over an interval ignores a suffix that lies wholly above it.
proof fn lemma_count_cut_suffix(times: Seq<int>, lo: int, hi: int, k: int)
    requires
        0 <= k <= times.len(),
        forall|i: int| k <= i < times.len() ==> #[trigger] times[i] > hi,
    ensures
        grants_within(times, lo, hi) == grants_within(times.take(k), lo, hi),
    decreases times.len(),
{
    if times.len() > k {
        lemma_count_cut_suffix(times.drop_last(), lo, hi, k);
        assert(times.drop_last().take(k) =~= times.take(k));
    } else {
        assert(times.take(k) =~= times);
    }
}

/// A count can only shrink when every counted grant is also counted by the
/// other interval.
proof fn lemma_count_le_when_contained(times: Seq<int>, lo1: int, hi1: int, lo2: int, hi2: int)
    requires
        forall|i: int|
            0 <= i < times.len() && (lo1 < #[trigger] times[i] <= hi1) ==> (lo2 < times[i]
                <= hi2),
    ensures
        grants_within(times, lo1, hi1) <= grants_within(times, lo2, hi2),
    decreases times.len(),
{
    if times.len() > 0 {
        lemma_count_le_when_contained(times.drop_last(), lo1, hi1, lo2, hi2);
        grants_within_nonneg(times.drop_last(), lo1, hi1);
        grants_within_nonneg(times.drop_last(), lo2, hi2);
    }
}

/// Counts are never negative.
proof fn grants_within_nonneg(times: Seq<int>, lo: int, hi: int)
    ensures
        grants_within(times, lo, hi) >= 0,
    decreases times.len(),
{
    if times.len() > 0 {
        grants_within_nonneg(times.drop_last(), lo, hi);
    }
}

/// Once every grant lies at or before `t1`, moving the window further into
/// the future can only drain it.
proof fn lemma_window_count_monotone(times: Seq<int>, window: int, t1: int, t2: int)
    requires
        t1 <= t2,
        forall|i: int| 0 <= i < times.len() ==> #[trigger] times[i] <= t1,
    ensures
        grants_within(times, t2 - window, t2) <= grants_within(times, t1 - window, t1),
{
    lemma_count_le_when_contained(times, t2 - window, t2, t1 - window, t1);
}

/// The largest index whose grant lies at or before `hi`.
proof fn max_index_at_or_before(times: Seq<int>, hi: int) -> (j: int)
    requires
        sorted(times),
        exists|i: int| 0 <= i < times.len() && #[trigger] times[i] <= hi,
    ensures
        0 <= j < times.len(),
        times[j] <= hi,
        forall|i: int| j < i < times.len() ==> #[trigger] times[i] > hi,
    decreases times.len(),
{
    if times.last() <= hi {
        times.len() - 1
    } else {
        let w: int = choose|i: int| 0 <= i < times.len() && #[trigger] times[i] <= hi;
        assert(times.drop_last()[w] == times[w]);
        let j: int = max_index_at_or_before(times.drop_last(), hi);
        assert forall|i: int| j < i < times.len() implies #[trigger] times[i] > hi by {
            if i < times.len() - 1 {
                assert(times.drop_last()[i] == times[i]);
            }
        }
        j
    }
}

/// The pacing invariant survives a grant at a time no earlier than every
/// existing grant, provided the windows ending there had spare capacity.
proof fn lemma_push_keeps_paced(times: Seq<int>, window: int, quota: int, instant: int)
    requires
        paced(times, window, quota),
        forall|i: int| 0 <= i < times.len() ==> #[trigger] times[i] <= instant,
        grants_within(times, instant - window, instant) < quota,
    ensures
        paced(times.push(instant), window, quota),
{
    let grown = times.push(instant);
    assert forall|i: int|
        0 <= i < grown.len() implies grants_within(
        #[trigger] grown.take(i + 1),
        grown[i] - window,
        grown[i],
    ) <= quota by {
        if i < times.len() {
            assert(grown.take(i + 1) =~= times.take(i + 1));
        } else {
            assert(grown.take(i + 1) =~= grown);
            assert(grown.drop_last() =~= times);
        }
    }
}

/// At the moment the oldest of the `quota` newest grants has aged out of the
/// window, strictly fewer than `quota` grants remain inside it.
proof fn lemma_retry_clears_window(times: Seq<int>, window: int, quota: int, k: int)
    requires
        sorted(times),
        quota >= 1,
        0 <= k,
        k + quota == times.len(),
    ensures
        grants_within(times, times[k], times[k] + window) <= quota - 1,
{
    let t: int = times[k];
    // members counted in (t, t + window] lie strictly above t, and the sorted
    // prefix through index k sits at or below t
    assert forall|i: int|
        0 <= i < times.len() && (t < #[trigger] times[i] <= t + window) implies i > k by {
        if i <= k {
            assert(times[i] <= times[k]);
        }
    }
    lemma_members_bound(times, t, t + window, k);
}

/// A window already holding `quota` grants reaches down past the grant that
/// sits `quota` places from the end.
proof fn lemma_count_cut_low(times: Seq<int>, lo: int, hi: int, k: int, quota: int)
    requires
        sorted(times),
        quota >= 1,
        0 <= k,
        k + quota == times.len(),
        grants_within(times, lo, hi) >= quota,
    ensures
        times[k] > lo,
{
    if times[k] <= lo {
        assert forall|i: int|
            0 <= i < times.len() && (lo < #[trigger] times[i] <= hi) implies i > k by {
            if i <= k {
                assert(times[i] <= times[k]);
            }
        }
        lemma_members_bound(times, lo, hi, k);
    }
}

/// When every counted member lies strictly past index `k`, the count is at
/// most the number of later indices.
proof fn lemma_members_bound(times: Seq<int>, lo: int, hi: int, k: int)
    requires
        0 <= k < times.len(),
        forall|i: int| 0 <= i < times.len() && (lo < #[trigger] times[i] <= hi) ==> i > k,
    ensures
        grants_within(times, lo, hi) <= times.len() - 1 - k,
    decreases times.len(),
{
    if times.len() - 1 > k {
        lemma_members_bound(times.drop_last(), lo, hi, k);
    } else {
        // only the last index may count
        lemma_no_members_no_count(times.drop_last(), lo, hi);
    }
}

/// Rate compliance: over any rolling window of one second, a well-formed
/// limiter granted at most its per-second quota of requests, and over any
/// rolling window of one minute at most its per-minute quota — whatever
/// interleaving of callers produced the record.
pub proof fn lemma_rate_compliance(limiter: RateLimiter, window_end: int)
    requires
        limiter.wf(),
    ensures
        grants_within(
            limiter.history(),
            window_end - SECOND_WINDOW_MILLIS,
            window_end,
        ) <= limiter.per_second_quota,
        grants_within(
            limiter.history(),
            window_end - MINUTE_WINDOW_MILLIS,
            window_end,
        ) <= limiter.per_minute_quota,
{
    lemma_paced_bounds_every_window(
        limiter.history(),
        SECOND_WINDOW_MILLIS as int,
        limiter.per_second_quota as int,
        window_end,
    );
    lemma_paced_bounds_every_window(
        limiter.history(),
        MINUTE_WINDOW_MILLIS as int,
        limiter.per_minute_quota as int,
        window_end,
    );
}

/// A record in which every grant observed the quota over its own trailing
/// window observes the quota over every window whatsoever.
pub proof fn lemma_paced_bounds_every_window(times: Seq<int>, window: int, quota: int, hi: int)
    requires
        sorted(times),
        paced(times, window, quota),
        quota >= 0,
    ensures
        grants_within(times, hi - window, hi) <= quota,
{
    if exists|i: int| 0 <= i < times.len() && (hi - window < #[trigger] times[i] <= hi) {
        let witness: int = choose|i: int|
            0 <= i < times.len() && (hi - window < #[trigger] times[i] <= hi);
        assert(times[witness] <= hi);
        let j: int = max_index_at_or_before(times, hi);
        // every counted member sits at or below index j, inside (times[j] - window, times[j]]
        lemma_count_cut_suffix(times, hi - window, hi, j + 1);
        assert(hi - window < times[j]) by {
            assert(times[witness] <= times[j]);
        }
        assert forall|i: int|
            0 <= i < times.take(j + 1).len() && (hi - window < #[trigger] times.take(j + 1)[i]
                <= hi) implies (times[j] - window < times.take(j + 1)[i] <= times[j]) by {
            assert(times.take(j + 1)[i] == times[i]);
            assert(times[i] <= times[j]);
        }
        lemma_count_le_when_contained(
            times.take(j + 1),
            hi - window,
            hi,
            times[j] - window,
            times[j],
        );
    } else {
        lemma_no_members_no_count(times, hi - window, hi);
    }
}

} // verus!
