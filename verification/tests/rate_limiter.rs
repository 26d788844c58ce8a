use lynx::rate_limiter::{RefillRate, TokenBucket};

#[test]
fn test_acquire_under_burst() {
    let mut bucket = TokenBucket::new(RefillRate::per_second(10), 5);
    for _ in 0..5 {
        assert!(bucket.try_acquire(), "should allow within burst");
    }
}

#[test]
fn test_acquire_depleted() {
    let mut bucket = TokenBucket::new(RefillRate::per_second(10), 3);
    for _ in 0..3 {
        assert!(bucket.try_acquire());
    }
    assert!(
        !bucket.try_acquire(),
        "should be rate limited when depleted"
    );
}

// The two tests below wait (150 ms, 100 ms) on the bucket's own clock,
// given as explicit times.

#[test]
fn test_refill_over_time() {
    let start = 1_000_000;
    let mut bucket = TokenBucket::new_at(RefillRate::per_second(10), 5, start);
    for _ in 0..5 {
        bucket.try_acquire_at(start);
    }
    assert!(!bucket.try_acquire_at(start), "should be depleted");
    assert!(bucket.try_acquire_at(start + 150), "should have refilled");
}

#[test]
fn test_burst_cap() {
    let start = 1_000_000;
    let mut bucket = TokenBucket::new_at(RefillRate::per_second(100), 5, start);
    let now = start + 100;
    let mut count = 0;
    while bucket.try_acquire_at(now) {
        count += 1;
        if count > 10 {
            panic!("exceeded burst cap");
        }
    }
    assert!(count <= 5, "should be capped at burst");
}

#[test]
fn refill_earns_whole_tokens_only() {
    let mut bucket = TokenBucket::new_at(RefillRate::per_second(10), 1, 0);
    assert!(bucket.try_acquire_at(0));
    // 99 ms at 10/s is 0.99 of a token: nothing yet
    assert!(!bucket.try_acquire_at(99));
    // the refill clock did not move, so at 100 ms one token is earned
    assert!(bucket.try_acquire_at(100));
    assert!(!bucket.try_acquire_at(100));
}

#[test]
fn fractional_rates() {
    // 2.5 tokens a second: 400 ms earn one token
    let rate = RefillRate {
        milli_tokens_per_second: 2_500,
    };
    let mut bucket = TokenBucket::new_at(rate, 1, 0);
    assert!(bucket.try_acquire_at(0));
    assert!(!bucket.try_acquire_at(399));
    assert!(bucket.try_acquire_at(400));
}

#[test]
fn zero_burst_never_allows() {
    let mut bucket = TokenBucket::new_at(RefillRate::per_second(1000), 0, 0);
    assert!(!bucket.try_acquire_at(0));
    assert!(!bucket.try_acquire_at(10_000));
}

#[test]
fn clock_going_backwards_earns_nothing() {
    let mut bucket = TokenBucket::new_at(RefillRate::per_second(10), 1, 5_000);
    assert!(bucket.try_acquire_at(5_000));
    assert!(!bucket.try_acquire_at(1_000));
}
