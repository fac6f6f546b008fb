use perf_gauge::rate_limiter::RateLimiter;

#[test]
fn no_limit_never_waits() {
    let mut limiter = RateLimiter::build_rate_limiter(0);
    assert!(limiter.is_unlimited());
    for now in [0u64, 0, 5, 5, 1, u64::MAX] {
        assert_eq!(limiter.acquire_at(now), 0);
    }
    assert_eq!(limiter, RateLimiter::build_rate_limiter(0));
}

#[test]
fn permits_are_one_interval_apart() {
    let mut limiter = RateLimiter::build_rate_limiter(4);
    assert!(!limiter.is_unlimited());
    let mut grants = Vec::new();
    for _ in 0..5 {
        let now = 100u64;
        grants.push(now + limiter.acquire_at(now));
    }
    assert_eq!(
        grants,
        vec![100, 250_000_100, 500_000_100, 750_000_100, 1_000_000_100]
    );
}

#[test]
fn a_late_caller_does_not_wait() {
    let mut limiter = RateLimiter::build_rate_limiter(1_000);
    assert_eq!(limiter.acquire_at(0), 0);
    assert_eq!(limiter.acquire_at(5_000_000), 0);
    assert_eq!(limiter.acquire_at(5_000_000), 1_000_000);
    assert_eq!(limiter.acquire_at(5_999_999), 1_000_001);
    assert_eq!(limiter.acquire_at(8_000_000), 0);
}

#[test]
fn many_callers_share_one_pace() {
    let mut limiter = RateLimiter::build_rate_limiter(100);
    let interval = 10_000_000u64;
    let asked = [0u64, 3, 1, 2, 50_000_000, 50_000_001, 7, 0, 60_000_000];
    let mut last: Option<u64> = None;
    for now in asked {
        let grant = now + limiter.acquire_at(now);
        assert!(grant >= now);
        if let Some(before) = last {
            assert!(grant - before >= interval);
        }
        last = Some(grant);
    }
}

#[test]
fn interval_is_a_second_by_the_rate() {
    let mut limiter = RateLimiter::build_rate_limiter(3);
    assert_eq!(limiter.acquire_at(0), 0);
    assert_eq!(limiter.acquire_at(0), 333_333_333);
    let mut fast = RateLimiter::build_rate_limiter(2_000_000_000);
    assert!(fast.is_unlimited());
    assert_eq!(fast.acquire_at(0), 0);
    assert_eq!(fast.acquire_at(0), 0);
}

#[test]
fn the_clock_may_reach_its_end() {
    let mut limiter = RateLimiter::build_rate_limiter(1);
    assert_eq!(limiter.acquire_at(u64::MAX), 0);
    assert_eq!(limiter.acquire_at(u64::MAX), 0);
    assert_eq!(limiter.acquire_at(u64::MAX - 10), 10);
}

#[test]
fn rates_below_one_permit_a_second() {
    let mut limiter = RateLimiter::build_rate_limiter_thousandths(500);
    assert!(!limiter.is_unlimited());
    assert_eq!(limiter.acquire_at(0), 0);
    assert_eq!(limiter.acquire_at(0), 2_000_000_000);
    assert_eq!(limiter.acquire_at(3_000_000_000), 1_000_000_000);
    assert_eq!(
        RateLimiter::build_rate_limiter_thousandths(4_000),
        RateLimiter::build_rate_limiter(4)
    );
    assert_eq!(RateLimiter::build_rate_limiter_thousandths(1).interval, 1_000_000_000_000);
    assert!(RateLimiter::build_rate_limiter_thousandths(0).is_unlimited());
}
