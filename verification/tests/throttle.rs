use throttle::clock;
use throttle::error::ThrottleError;
use throttle::parse_command_args;
use throttle::parse_i64;
use throttle::throttle::store::MemoryStore;
use throttle::throttle::{Rate, RateLimitResult, RateLimiter, RateQuota};
use throttle::units::{nanos_to_seconds, scale_nanos, sub_saturating_nanos, MAX_INSTANT,
    NANOS_PER_SEC};
use throttle::ThrottleCommand;

fn limiter_at(now: i64, max_burst: i64, count: i64, period: i64) -> RateLimiter<MemoryStore> {
    let rate = Rate::per_period(count, period).unwrap();
    let quota = RateQuota::new(max_burst, rate).unwrap();
    RateLimiter::new(MemoryStore::new(now), quota)
}

#[test]
fn scenario_burst_of_five_then_throttled() {
    // max_burst=4, count=1, period=1s, quantity=1
    let mut l = limiter_at(0, 4, 1, 1);
    let (throttled, r) = l.rate_limit("k", 1).unwrap();
    assert!(!throttled);
    assert_eq!(r.limit, 5);
    assert_eq!(r.remaining, 4);
    assert_eq!(r.reset_after, NANOS_PER_SEC);
    assert_eq!(r.reset_after_seconds(), 1);
    assert_eq!(r.retry_after, None);

    for expected in [3, 2, 1, 0] {
        let (throttled, r) = l.rate_limit("k", 1).unwrap();
        assert!(!throttled);
        assert_eq!(r.remaining, expected);
    }

    let (throttled, r) = l.rate_limit("k", 1).unwrap();
    assert!(throttled);
    assert_eq!(r.retry_after, Some(NANOS_PER_SEC));
    assert_eq!(r.retry_after_seconds(), 1);
    assert_eq!(r.remaining, 0);
    assert_eq!(r.reset_after, 5 * NANOS_PER_SEC);
}

#[test]
fn burst_capacity_is_max_burst_plus_one() {
    let b: i64 = 2;
    let mut l = limiter_at(0, b, 1, 1);
    for expected in [2, 1, 0] {
        let (throttled, r) = l.rate_limit("k", 1).unwrap();
        assert!(!throttled);
        assert_eq!(r.remaining, expected);
    }
    let (throttled, _) = l.rate_limit("k", 1).unwrap();
    assert!(throttled);
}

#[test]
fn oversized_quantity_never_succeeds() {
    let mut l = limiter_at(0, 4, 1, 1);
    let (throttled, r) = l.rate_limit("k", 6).unwrap();
    assert!(throttled);
    assert_eq!(r.retry_after, None);
    assert_eq!(r.retry_after_seconds(), -1);
    // The store was left untouched: a fresh single-unit request still
    // sees a fully available bucket.
    let (throttled, r) = l.rate_limit("k", 1).unwrap();
    assert!(!throttled);
    assert_eq!(r.remaining, 4);
}

#[test]
fn rejection_does_not_perturb_later_outcomes() {
    let mut with_rejection = limiter_at(0, 1, 1, 1);
    let mut without_rejection = limiter_at(0, 1, 1, 1);

    with_rejection.rate_limit("k", 1).unwrap();
    without_rejection.rate_limit("k", 1).unwrap();

    // A throttled call in one of the two histories only.
    let (throttled, _) = with_rejection.rate_limit("k", 9).unwrap();
    assert!(throttled);

    let a = with_rejection.rate_limit("k", 1).unwrap();
    let b = without_rejection.rate_limit("k", 1).unwrap();
    assert_eq!(a.0, b.0);
    assert_eq!(a.1.remaining, b.1.remaining);
    assert_eq!(a.1.reset_after, b.1.reset_after);
    assert_eq!(a.1.retry_after, b.1.retry_after);
}

#[test]
fn waiting_retry_after_succeeds() {
    let mut l = limiter_at(0, 0, 1, 2);
    let (throttled, _) = l.rate_limit("k", 1).unwrap();
    assert!(!throttled);
    let (throttled, r) = l.rate_limit("k", 1).unwrap();
    assert!(throttled);
    let wait = r.retry_after.unwrap();
    assert_eq!(wait, 2 * NANOS_PER_SEC);
    l.store.set_now(wait);
    let (throttled, _) = l.rate_limit("k", 1).unwrap();
    assert!(!throttled);
}

#[test]
fn waiting_reset_after_restores_full_burst() {
    let mut l = limiter_at(0, 4, 1, 1);
    let mut reset_after = 0;
    for _ in 0..5 {
        let (throttled, r) = l.rate_limit("k", 1).unwrap();
        assert!(!throttled);
        reset_after = r.reset_after;
    }
    assert_eq!(reset_after, 5 * NANOS_PER_SEC);
    l.store.set_now(reset_after);
    let (throttled, r) = l.rate_limit("k", 1).unwrap();
    assert!(!throttled);
    assert_eq!(r.remaining, 4);
}

#[test]
fn multi_unit_request_costs_its_quantity() {
    let mut l = limiter_at(0, 4, 1, 1);
    let (throttled, r) = l.rate_limit("k", 3).unwrap();
    assert!(!throttled);
    assert_eq!(r.remaining, 2);
    assert_eq!(r.reset_after, 3 * NANOS_PER_SEC);
}

#[test]
fn buckets_are_independent() {
    let mut l = limiter_at(0, 0, 1, 1);
    let (throttled, _) = l.rate_limit("a", 1).unwrap();
    assert!(!throttled);
    let (throttled, _) = l.rate_limit("a", 1).unwrap();
    assert!(throttled);
    let (throttled, _) = l.rate_limit("b", 1).unwrap();
    assert!(!throttled);
}

#[test]
fn idle_bucket_expires_with_its_ttl() {
    let mut l = limiter_at(0, 0, 1, 1);
    let (throttled, _) = l.rate_limit("k", 1).unwrap();
    assert!(!throttled);
    // TTL of that write was one emission interval; well past it the
    // bucket reads as fully available again.
    l.store.set_now(5 * NANOS_PER_SEC);
    let (throttled, r) = l.rate_limit("k", 1).unwrap();
    assert!(!throttled);
    assert_eq!(r.remaining, 0);
}

#[test]
fn nonpositive_quantity_is_rejected() {
    let mut l = limiter_at(0, 4, 1, 1);
    assert!(matches!(l.rate_limit("k", 0), Err(ThrottleError::Usage(_))));
    assert!(matches!(l.rate_limit("k", -3), Err(ThrottleError::Usage(_))));
    // And the bucket is untouched.
    let (throttled, r) = l.rate_limit("k", 1).unwrap();
    assert!(!throttled);
    assert_eq!(r.remaining, 4);
}

#[test]
fn invalid_rate_parameters_are_rejected() {
    assert!(matches!(Rate::per_period(0, 1), Err(ThrottleError::Quota(_))));
    assert!(matches!(Rate::per_period(1, 0), Err(ThrottleError::Quota(_))));
    assert!(matches!(Rate::per_period(-2, 5), Err(ThrottleError::Quota(_))));
    assert!(matches!(Rate::per_period(1, -5), Err(ThrottleError::Quota(_))));
    // A derived per-action period of zero nanoseconds is rejected too.
    assert!(matches!(
        Rate::per_period(2 * NANOS_PER_SEC, 1),
        Err(ThrottleError::Quota(_))
    ));
    // 10 actions every 2 seconds: 200ms per action.
    let r = Rate::per_period(10, 2).unwrap();
    assert_eq!(r.period, 200_000_000);
}

#[test]
fn invalid_quota_parameters_are_rejected() {
    let rate = Rate::per_period(1, 1).unwrap();
    assert!(matches!(RateQuota::new(-1, rate), Err(ThrottleError::Quota(_))));
    assert!(matches!(RateQuota::new(i64::MAX - 1, rate), Err(ThrottleError::Quota(_))));
    let q = RateQuota::new(7, rate).unwrap();
    assert_eq!(q.max_burst, 7);
    assert_eq!(q.max_rate.period, NANOS_PER_SEC);
}

#[test]
fn parse_i64_accepts_decimal_integers() {
    assert_eq!(parse_i64("42").unwrap(), 42);
    assert_eq!(parse_i64("-7").unwrap(), -7);
    assert_eq!(parse_i64("+0").unwrap(), 0);
    assert_eq!(parse_i64("007").unwrap(), 7);
    assert_eq!(parse_i64("9223372036854775807").unwrap(), i64::MAX);
    assert_eq!(parse_i64("-9223372036854775808").unwrap(), i64::MIN);
}

#[test]
fn parse_i64_rejects_everything_else() {
    assert!(parse_i64("").is_err());
    assert!(parse_i64("+").is_err());
    assert!(parse_i64("-").is_err());
    assert!(parse_i64("12a").is_err());
    assert!(parse_i64("--1").is_err());
    assert!(parse_i64(" 5").is_err());
    assert!(parse_i64("9223372036854775808").is_err());
    assert!(parse_i64("-9223372036854775809").is_err());
    match parse_i64("12a") {
        Err(ThrottleError::Usage(t)) => assert_eq!(t, "12a"),
        _ => panic!("expected a usage error carrying the token"),
    }
}

#[test]
fn parse_command_args_decodes_the_argument_list() {
    let args: Vec<String> = ["throttle", "user1", "4", "1", "1"]
        .iter()
        .map(|s| s.to_string())
        .collect();
    let c = parse_command_args(&args).unwrap();
    assert_eq!(c.bucket, "user1");
    assert_eq!(c.max_burst, 4);
    assert_eq!(c.count, 1);
    assert_eq!(c.period, 1);
    assert_eq!(c.quantity, 1);

    let args6: Vec<String> = ["throttle", "user1", "4", "1", "1", "3"]
        .iter()
        .map(|s| s.to_string())
        .collect();
    let c = parse_command_args(&args6).unwrap();
    assert_eq!(c.quantity, 3);
}

#[test]
fn parse_command_args_rejects_bad_input() {
    let short: Vec<String> = ["throttle", "user1"].iter().map(|s| s.to_string()).collect();
    assert!(matches!(parse_command_args(&short), Err(ThrottleError::Usage(_))));
    let bad: Vec<String> = ["throttle", "user1", "x", "1", "1"]
        .iter()
        .map(|s| s.to_string())
        .collect();
    match parse_command_args(&bad) {
        Err(ThrottleError::Usage(t)) => assert_eq!(t, "x"),
        _ => panic!("expected a usage error naming the token"),
    }
}

#[test]
fn command_registration_strings() {
    assert_eq!(ThrottleCommand::name(), "throttle");
    assert_eq!(ThrottleCommand::str_flags(), "readonly");
}

#[test]
fn clock_reading_is_in_engine_range() {
    let n = clock::now_nanos();
    assert!((0..=MAX_INSTANT).contains(&n));
    // A clock reading seeds a usable store: the engine accepts it.
    let mut l = RateLimiter::new(
        MemoryStore::new(n),
        RateQuota::new(1, Rate::per_period(1, 1).unwrap()).unwrap(),
    );
    let (throttled, _) = l.rate_limit("k", 1).unwrap();
    assert!(!throttled);
}

#[test]
fn unit_helpers() {
    assert_eq!(nanos_to_seconds(1_500_000_000), 1);
    assert_eq!(nanos_to_seconds(999_999_999), 0);
    assert_eq!(scale_nanos(200_000_000, 3), 600_000_000);
    assert_eq!(sub_saturating_nanos(5, 7), 0);
    assert_eq!(sub_saturating_nanos(7, 5), 2);
}

#[test]
fn seconds_views_of_a_result() {
    let r = RateLimitResult {
        limit: 5,
        remaining: 2,
        retry_after: None,
        reset_after: 3 * NANOS_PER_SEC + 1,
    };
    assert_eq!(r.retry_after_seconds(), -1);
    assert_eq!(r.reset_after_seconds(), 3);
    let r2 = RateLimitResult { retry_after: Some(NANOS_PER_SEC - 1), ..r };
    assert_eq!(r2.retry_after_seconds(), 0);
}
