use otakuhub::limiter::{AcquireOutcome, RateLimiter};

#[test]
fn second_window_admits_up_to_quota() {
    let mut limiter = RateLimiter::new(3, 60);
    assert_eq!(limiter.acquire(0), AcquireOutcome::Granted);
    assert_eq!(limiter.acquire(0), AcquireOutcome::Granted);
    assert_eq!(limiter.acquire(0), AcquireOutcome::Granted);
    // the fourth request inside the same second must wait a full second
    assert_eq!(limiter.acquire(0), AcquireOutcome::RetryAt(1000));
    // and at that time it goes through
    assert_eq!(limiter.acquire(1000), AcquireOutcome::Granted);
}

#[test]
fn windows_gate_conjunctively() {
    // generous second quota, minute quota of 3: the minute window alone
    // must still hold the line
    let mut limiter = RateLimiter::new(10, 3);
    assert_eq!(limiter.acquire(0), AcquireOutcome::Granted);
    assert_eq!(limiter.acquire(100), AcquireOutcome::Granted);
    assert_eq!(limiter.acquire(200), AcquireOutcome::Granted);
    // second window is nearly empty, yet the minute window refuses
    assert_eq!(limiter.acquire(5000), AcquireOutcome::RetryAt(60000));
    assert_eq!(limiter.acquire(60000), AcquireOutcome::Granted);
}

#[test]
fn retry_time_respects_the_fuller_window() {
    let mut limiter = RateLimiter::new(2, 3);
    assert_eq!(limiter.acquire(0), AcquireOutcome::Granted);
    assert_eq!(limiter.acquire(10), AcquireOutcome::Granted);
    // second window full (2 in the last second), minute window not yet
    assert_eq!(limiter.acquire(20), AcquireOutcome::RetryAt(1000));
    assert_eq!(limiter.acquire(1000), AcquireOutcome::Granted);
    // now three grants within the minute: the minute window dominates
    assert_eq!(limiter.acquire(1500), AcquireOutcome::RetryAt(60000));
}

#[test]
fn rate_never_exceeded_in_any_rolling_window() {
    // drive a greedy caller for a while and check every rolling window of
    // the grant record afterwards
    let mut limiter = RateLimiter::new(3, 60);
    let mut now: u64 = 0;
    let mut granted: Vec<u64> = Vec::new();
    for _ in 0..200 {
        match limiter.acquire(now) {
            AcquireOutcome::Granted => {
                granted.push(now);
                now += 1; // greedy: come back at once
            }
            AcquireOutcome::RetryAt(at) => {
                assert!(at > now);
                now = at;
            }
        }
    }
    for &end in &granted {
        let in_second = granted
            .iter()
            .filter(|&&g| g + 1000 > end && g <= end)
            .count();
        let in_minute = granted
            .iter()
            .filter(|&&g| g + 60000 > end && g <= end)
            .count();
        assert!(in_second <= 3, "rolling second window held {in_second}");
        assert!(in_minute <= 60, "rolling minute window held {in_minute}");
    }
}

#[test]
fn lagging_clock_is_slotted_at_the_latest_grant() {
    let mut limiter = RateLimiter::new(1, 60);
    assert_eq!(limiter.acquire(5000), AcquireOutcome::Granted);
    // a reading before the last grant counts as that grant's time, so the
    // second window is still full
    assert_eq!(limiter.acquire(0), AcquireOutcome::RetryAt(6000));
}
