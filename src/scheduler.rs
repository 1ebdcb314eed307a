use vstd::prelude::*;

verus! {

/// Decides when the host is sampled again: at most once per interval, on
/// the first check after a full interval has passed since the last sample.
///
/// Times are readings of a monotonic clock in any fixed unit.
#[derive(Clone, Copy, Debug, PartialEq, Eq, Structural)]
pub struct RefreshScheduler {
    pub last_refresh: u64,
    pub interval: u64,
}

/// Whether a check at `now` finds a refresh due.
pub open spec fn refresh_due(s: RefreshScheduler, now: u64) -> bool {
    now >= s.last_refresh && now - s.last_refresh >= s.interval
}

impl RefreshScheduler {
    /// A scheduler whose last sample was taken at `now`.
    pub fn new(now: u64, interval: u64) -> (r: RefreshScheduler)
        ensures
            r.last_refresh == now,
            r.interval == interval,
    {
        RefreshScheduler { last_refresh: now, interval }
    }

    /// Checks the clock at `now`: when a full interval has passed since the
    /// last sample, reports a refresh and takes `now` as the time of the
    /// last sample; otherwise reports none and changes nothing.
    pub fn tick(&mut self, now: u64) -> (r: bool)
        ensures
            r == refresh_due(*old(self), now),
            r ==> *final(self) == (RefreshScheduler { last_refresh: now, interval: old(self).interval }),
            !r ==> *final(self) == *old(self),
    {
        if now >= self.last_refresh && now - self.last_refresh >= self.interval {
            self.last_refresh = now;
            true
        } else {
            false
        }
    }
}

/// Two checks less than an interval apart refresh at most once.
pub proof fn lemma_no_double_refresh(s: RefreshScheduler, t1: u64, t2: u64)
    requires
        t1 <= t2,
        t2 - t1 < s.interval,
    ensures
        ({
            let after = if refresh_due(s, t1) {
                RefreshScheduler { last_refresh: t1, interval: s.interval }
            } else {
                s
            };
            !(refresh_due(s, t1) && refresh_due(after, t2))
        }),
{
}

/// Once a full interval has passed since the last sample, the next check
/// refreshes, and a second check at the same moment does not.
pub proof fn lemma_refresh_once_due(s: RefreshScheduler, now: u64)
    requires
        now >= s.last_refresh,
        now - s.last_refresh >= s.interval,
        s.interval > 0,
    ensures
        refresh_due(s, now),
        !refresh_due(RefreshScheduler { last_refresh: now, interval: s.interval }, now),
{
}

} // verus!
