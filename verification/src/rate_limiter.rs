//! Pacing of calls at a steady rate. The limiter decides how long a caller
//! has to wait for its permit; the caller does the waiting.

use vstd::prelude::*;

verus! {

/// Nanoseconds in a second.
pub const NANOS_PER_SECOND: u64 = 1_000_000_000;

/// Time between two permits at `rate_per_second` permits a second, in whole
/// nanoseconds; 0 for a rate of 0, which stands for no limit.
pub open spec fn interval_for(rate_per_second: u64) -> u64 {
    if rate_per_second == 0 {
        0
    } else {
        NANOS_PER_SECOND / rate_per_second
    }
}

/// Time between two permits at `thousandths_per_second` thousandths of a
/// permit a second, in whole nanoseconds; 0 for a rate of 0, which stands
/// for no limit.
pub open spec fn interval_for_thousandths(thousandths_per_second: u64) -> u64 {
    if thousandths_per_second == 0 {
        0
    } else {
        (1000 * NANOS_PER_SECOND / thousandths_per_second as int) as u64
    }
}

/// `a + b`, or `u64::MAX` where the sum does not fit.
pub open spec fn capped_sum(a: u64, b: u64) -> u64 {
    if a + b > u64::MAX {
        u64::MAX
    } else {
        (a + b) as u64
    }
}

/// One pacing authority for all the workers of a run: it hands out permits
/// no closer together than its interval. Times are nanoseconds on one clock
/// that the callers share.
#[derive(Clone, Copy, Debug, PartialEq, Eq, Structural)]
pub struct RateLimiter {
    /// Time between two permits in nanoseconds; 0 where there is no limit.
    pub interval: u64,
    /// Earliest time at which the next permit is free.
    pub next_free: u64,
}

impl RateLimiter {
    /// How long a caller that asks at `now` waits for its permit.
    pub open spec fn wait_at(self, now: u64) -> u64 {
        if self.interval == 0 || now >= self.next_free {
            0
        } else {
            (self.next_free - now) as u64
        }
    }

    /// Time at which a caller that asks at `now` has its permit.
    pub open spec fn grant_at(self, now: u64) -> u64 {
        (now + self.wait_at(now)) as u64
    }

    /// The limiter after it gave a permit to a caller that asked at `now`.
    pub open spec fn after_grant(self, now: u64) -> RateLimiter {
        if self.interval == 0 {
            self
        } else {
            RateLimiter {
                interval: self.interval,
                next_free: capped_sum(self.grant_at(now), self.interval),
            }
        }
    }

    /// A limiter for `rate_per_second` permits a second; a rate of 0 is no
    /// limit. The first permit is free at once.
    pub fn build_rate_limiter(rate_per_second: u64) -> (limiter: RateLimiter)
        ensures
            limiter.interval == interval_for(rate_per_second),
            limiter.next_free == 0,
    {
        let interval: u64 = if rate_per_second == 0 {
            0
        } else {
            NANOS_PER_SECOND / rate_per_second
        };
        RateLimiter { interval, next_free: 0 }
    }

    /// A limiter for `thousandths_per_second` thousandths of a permit a
    /// second, for rates that are no whole number of permits a second; a
    /// rate of 0 is no limit. The first permit is free at once.
    pub fn build_rate_limiter_thousandths(thousandths_per_second: u64) -> (limiter: RateLimiter)
        ensures
            limiter.interval == interval_for_thousandths(thousandths_per_second),
            limiter.next_free == 0,
    {
        let interval: u64 = if thousandths_per_second == 0 {
            0
        } else {
            1000 * NANOS_PER_SECOND / thousandths_per_second
        };
        RateLimiter { interval, next_free: 0 }
    }

    /// Whether every caller gets its permit at once.
    pub fn is_unlimited(&self) -> (unlimited: bool)
        ensures
            unlimited == (self.interval == 0),
    {
        self.interval == 0
    }

    /// Takes one permit for a caller that asks at `now`, and says how many
    /// nanoseconds the caller has to wait before it goes on. Without a limit
    /// that is 0 and the limiter stays as it is.
    pub fn acquire_at(&mut self, now: u64) -> (wait: u64)
        ensures
            wait == old(self).wait_at(now),
            *final(self) == old(self).after_grant(now),
    {
        if self.interval == 0 {
            return 0;
        }
        let grant: u64 = if now >= self.next_free {
            now
        } else {
            self.next_free
        };
        self.next_free = if grant > u64::MAX - self.interval {
            u64::MAX
        } else {
            grant + self.interval
        };
        grant - now
    }
}

/// The limiter after it gave one permit for each of the first `n` times of
/// `asked`, in their order.
pub open spec fn after_grants(limiter: RateLimiter, asked: Seq<u64>, n: int) -> RateLimiter
    decreases n,
{
    if n <= 0 || n > asked.len() {
        limiter
    } else {
        after_grants(limiter, asked, n - 1).after_grant(asked[n - 1])
    }
}

/// Time at which the caller that asked as number `k` (from 0) of `asked` had
/// its permit.
pub open spec fn granted_at(limiter: RateLimiter, asked: Seq<u64>, k: int) -> u64 {
    after_grants(limiter, asked, k).grant_at(asked[k])
}

/// A caller never waits for a permit that is already free: it waits only
/// until the next permit is free, and not at all without a limit.
pub proof fn lemma_wait_is_minimal(limiter: RateLimiter, now: u64)
    ensures
        limiter.interval == 0 ==> limiter.wait_at(now) == 0,
        now >= limiter.next_free ==> limiter.wait_at(now) == 0,
        now < limiter.next_free && limiter.interval > 0 ==> now + limiter.wait_at(now)
            == limiter.next_free,
        limiter.grant_at(now) >= now,
{
}

/// Giving permits keeps the interval, and moves the next free time forward
/// only.
pub proof fn lemma_after_grants(limiter: RateLimiter, asked: Seq<u64>, n: int)
    requires
        0 <= n <= asked.len(),
    ensures
        after_grants(limiter, asked, n).interval == limiter.interval,
        after_grants(limiter, asked, n).next_free >= limiter.next_free,
    decreases n,
{
    if n > 0 {
        lemma_after_grants(limiter, asked, n - 1);
    }
}

/// Two permits of a limiter with a limit, whoever asked for them and when,
/// are at least as far apart as the interval times the number of permits
/// from the one to the other, as long as the clock has not reached its last
/// value.
pub proof fn lemma_permits_are_paced(limiter: RateLimiter, asked: Seq<u64>, i: int, j: int)
    requires
        limiter.interval > 0,
        0 <= i <= j < asked.len(),
        after_grants(limiter, asked, j).next_free < u64::MAX,
    ensures
        granted_at(limiter, asked, j) - granted_at(limiter, asked, i) >= (j - i)
            * limiter.interval,
    decreases j - i,
{
    if i < j {
        let before = after_grants(limiter, asked, j - 1);
        let last = after_grants(limiter, asked, j);
        lemma_after_grants(limiter, asked, j - 1);
        lemma_after_grants(limiter, asked, j);
        assert(last == before.after_grant(asked[j - 1]));
        assert(last.next_free == granted_at(limiter, asked, j - 1) + limiter.interval);
        assert(granted_at(limiter, asked, j) >= last.next_free);
        lemma_permits_are_paced(limiter, asked, i, j - 1);
        assert((j - i) * limiter.interval == (j - 1 - i) * limiter.interval
            + limiter.interval) by (nonlinear_arith);
    } else {
        assert((j - i) * limiter.interval == 0) by (nonlinear_arith)
            requires
                j == i,
        ;
    }
}

/// Without a limit each caller has its permit at the time at which it asks.
pub proof fn lemma_unlimited_grants_at_once(limiter: RateLimiter, asked: Seq<u64>, k: int)
    requires
        0 <= k < asked.len(),
        limiter.interval == 0,
    ensures
        granted_at(limiter, asked, k) == asked[k],
{
    lemma_after_grants(limiter, asked, k);
}

} // verus!
