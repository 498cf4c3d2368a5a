//! Rate limiting policies.
use tracing_throttle::{
    CountBasedPolicy, Duration, ExponentialBackoffPolicy, Instant, Policy, PolicyDecision,
    PolicyError, RateLimitPolicy, TimeWindowPolicy, TokenBucketPolicy,
};

/// Some point in time, with years before it and after it.
fn now() -> Instant {
    Instant::from_nanos(400_000_000_000_000_000)
}

#[test]
fn test_count_based_policy() {
    let mut policy = CountBasedPolicy::new(3).unwrap();
    let now = now();

    assert_eq!(policy.register_event(now), PolicyDecision::Allow);
    assert_eq!(policy.register_event(now), PolicyDecision::Allow);
    assert_eq!(policy.register_event(now), PolicyDecision::Allow);
    assert_eq!(policy.register_event(now), PolicyDecision::Suppress);
    assert_eq!(policy.register_event(now), PolicyDecision::Suppress);

    policy.reset();
    assert_eq!(policy.register_event(now), PolicyDecision::Allow);
}

#[test]
fn test_time_window_policy() {
    let mut policy = TimeWindowPolicy::new(2, Duration::from_secs(1)).unwrap();
    let now = now();

    assert_eq!(policy.register_event(now), PolicyDecision::Allow);
    assert_eq!(policy.register_event(now), PolicyDecision::Allow);
    assert_eq!(policy.register_event(now), PolicyDecision::Suppress);

    // After window expires, should allow again
    let later = now + Duration::from_secs(2);
    assert_eq!(policy.register_event(later), PolicyDecision::Allow);
}

#[test]
fn test_exponential_backoff_policy() {
    let mut policy = ExponentialBackoffPolicy::new();
    let now = now();

    // 1st allowed
    assert_eq!(policy.register_event(now), PolicyDecision::Allow);
    // 2nd allowed
    assert_eq!(policy.register_event(now), PolicyDecision::Allow);
    // 3rd suppressed
    assert_eq!(policy.register_event(now), PolicyDecision::Suppress);
    // 4th allowed
    assert_eq!(policy.register_event(now), PolicyDecision::Allow);
    // 5th, 6th, 7th suppressed
    assert_eq!(policy.register_event(now), PolicyDecision::Suppress);
    assert_eq!(policy.register_event(now), PolicyDecision::Suppress);
    assert_eq!(policy.register_event(now), PolicyDecision::Suppress);
    // 8th allowed
    assert_eq!(policy.register_event(now), PolicyDecision::Allow);
}

#[test]
fn test_policy_enum() {
    let mut policy = Policy::count_based(2).unwrap();
    let now = now();

    assert!(policy.register_event(now).is_allow());
    assert!(policy.register_event(now).is_allow());
    assert!(policy.register_event(now).is_suppress());
}

#[test]
fn test_count_based_policy_zero_limit() {
    // Zero limit should be rejected
    let result = CountBasedPolicy::new(0);
    assert_eq!(result, Err(PolicyError::ZeroMaxCount));
}

#[test]
fn test_count_based_policy_one_limit() {
    let mut policy = CountBasedPolicy::new(1).unwrap();
    let now = now();

    // Only first event allowed
    assert_eq!(policy.register_event(now), PolicyDecision::Allow);
    assert_eq!(policy.register_event(now), PolicyDecision::Suppress);
    assert_eq!(policy.register_event(now), PolicyDecision::Suppress);
}

#[test]
fn test_count_based_policy_reset() {
    let mut policy = CountBasedPolicy::new(2).unwrap();
    let now = now();

    // Use up the limit
    assert_eq!(policy.register_event(now), PolicyDecision::Allow);
    assert_eq!(policy.register_event(now), PolicyDecision::Allow);
    assert_eq!(policy.register_event(now), PolicyDecision::Suppress);

    // Reset should restore the limit
    policy.reset();
    assert_eq!(policy.register_event(now), PolicyDecision::Allow);
    assert_eq!(policy.register_event(now), PolicyDecision::Allow);
    assert_eq!(policy.register_event(now), PolicyDecision::Suppress);
}

#[test]
fn test_time_window_policy_zero_duration() {
    // Zero duration should be rejected
    let result = TimeWindowPolicy::new(2, Duration::from_secs(0));
    assert_eq!(result, Err(PolicyError::ZeroWindowDuration));
}

#[test]
fn test_time_window_policy_rapid_events() {
    let mut policy = TimeWindowPolicy::new(3, Duration::from_millis(100)).unwrap();
    let now = now();

    // Rapid fire events
    for i in 0..10 {
        let decision = policy.register_event(now);
        if i < 3 {
            assert_eq!(
                decision,
                PolicyDecision::Allow,
                "Event {} should be allowed",
                i
            );
        } else {
            assert_eq!(
                decision,
                PolicyDecision::Suppress,
                "Event {} should be suppressed",
                i
            );
        }
    }
}

#[test]
fn test_time_window_policy_reset() {
    let mut policy = TimeWindowPolicy::new(2, Duration::from_secs(60)).unwrap();
    let now = now();

    // Use up limit
    assert_eq!(policy.register_event(now), PolicyDecision::Allow);
    assert_eq!(policy.register_event(now), PolicyDecision::Allow);
    assert_eq!(policy.register_event(now), PolicyDecision::Suppress);

    // Reset should clear the window
    policy.reset();
    assert_eq!(policy.register_event(now), PolicyDecision::Allow);
}

#[test]
fn test_exponential_backoff_large_count() {
    let mut policy = ExponentialBackoffPolicy::new();
    let now = now();

    let expected_allowed = [0, 1, 3, 7, 15, 31, 63]; // 0-indexed: 1st, 2nd, 4th, 8th, 16th, 32nd, 64th

    for i in 0..100 {
        let decision = policy.register_event(now);
        if expected_allowed.contains(&i) {
            assert_eq!(
                decision,
                PolicyDecision::Allow,
                "Event {} should be allowed",
                i + 1
            );
        } else {
            assert_eq!(
                decision,
                PolicyDecision::Suppress,
                "Event {} should be suppressed",
                i + 1
            );
        }
    }
}

#[test]
fn test_exponential_backoff_reset() {
    let mut policy = ExponentialBackoffPolicy::new();
    let now = now();

    // Progress through first few events
    assert_eq!(policy.register_event(now), PolicyDecision::Allow); // 1st
    assert_eq!(policy.register_event(now), PolicyDecision::Allow); // 2nd
    assert_eq!(policy.register_event(now), PolicyDecision::Suppress); // 3rd

    // Reset should start over
    policy.reset();
    assert_eq!(policy.register_event(now), PolicyDecision::Allow); // 1st again
}

#[test]
fn errors_of_all_constructors() {
    assert_eq!(Policy::count_based(0), Err(PolicyError::ZeroMaxCount));
    assert_eq!(Policy::time_window(0, Duration::from_secs(0)), Err(PolicyError::ZeroMaxEvents));
    assert_eq!(Policy::time_window(1, Duration::zero()), Err(PolicyError::ZeroWindowDuration));
    assert_eq!(Policy::token_bucket(0, 0), Err(PolicyError::ZeroCapacity));
    assert_eq!(Policy::token_bucket(1, 0), Err(PolicyError::ZeroRefillRate));
    assert_eq!(PolicyError::ZeroMaxCount.to_string(), "max_count must be greater than 0");
    assert_eq!(PolicyError::ZeroMaxEvents.to_string(), "max_events must be greater than 0");
    assert_eq!(
        PolicyError::ZeroWindowDuration.to_string(),
        "window duration must be greater than 0"
    );
    assert_eq!(PolicyError::ZeroCapacity.to_string(), "capacity must be greater than 0");
    assert_eq!(PolicyError::ZeroRefillRate.to_string(), "refill_rate must be greater than 0");
}

#[test]
fn time_window_slides() {
    let mut policy = TimeWindowPolicy::new(2, Duration::from_secs(60)).unwrap();
    let start = now();
    assert!(policy.register_event(start).is_allow());
    assert!(policy.register_event(start + Duration::from_secs(30)).is_allow());
    // An event that is exactly one window old still counts.
    assert!(policy.register_event(start + Duration::from_secs(60)).is_suppress());
    assert!(policy.register_event(start + Duration::from_secs(61)).is_allow());
    assert!(policy.register_event(start + Duration::from_secs(61)).is_suppress());
}

#[test]
fn token_bucket_recovers() {
    let mut policy = TokenBucketPolicy::new(2, 1).unwrap();
    let start = now();
    assert!(policy.register_event(start).is_allow());
    assert!(policy.register_event(start).is_allow());
    assert!(policy.register_event(start).is_suppress());
    // Half a token is not enough, two halves are.
    assert!(policy.register_event(start + Duration::from_millis(500)).is_suppress());
    assert!(policy.register_event(start + Duration::from_millis(1000)).is_allow());
    assert!(policy.register_event(start + Duration::from_millis(1000)).is_suppress());
    // However long it waits, the bucket holds no more than its capacity.
    let later = start + Duration::from_secs(1_000_000);
    assert!(policy.register_event(later).is_allow());
    assert!(policy.register_event(later).is_allow());
    assert!(policy.register_event(later).is_suppress());
}

#[test]
fn token_bucket_refills_nothing_twice() {
    let mut policy = TokenBucketPolicy::new(1, 1).unwrap();
    let start = now();
    assert!(policy.register_event(start).is_allow());
    // Time runs backwards and then forwards again.
    assert!(policy.register_event(start - Duration::from_secs(10)).is_suppress());
    assert!(policy.register_event(start).is_suppress());
    assert!(policy.register_event(start + Duration::from_secs(1)).is_allow());
    policy.reset();
    assert!(policy.register_event(start).is_allow());
}

#[test]
fn counters_have_an_end() {
    let policy = CountBasedPolicy::from_parts(5, usize::MAX);
    assert!(!policy.can_register());
    let mut policy = CountBasedPolicy::from_parts(5, 4);
    assert!(policy.can_register());
    assert!(policy.register_event(now()).is_allow());
    assert!(policy.register_event(now()).is_suppress());
    assert_eq!(policy.current_count(), 6);
    assert_eq!(policy.max_count(), 5);
}

#[test]
fn copies_go_separate_ways() {
    let mut policy = Policy::count_based(1).unwrap();
    let mut copy = policy.clone();
    assert!(policy.register_event(now()).is_allow());
    assert!(copy.register_event(now()).is_allow());
    assert!(policy.register_event(now()).is_suppress());
}

#[test]
fn token_buckets_count_in_fractions() {
    // Two and a half tokens, and half a token per second.
    let mut policy = TokenBucketPolicy::of_billionths(2_500_000_000, 500_000_000).unwrap();
    let start = now();
    assert!(policy.register_event(start).is_allow());
    assert!(policy.register_event(start).is_allow());
    assert!(policy.register_event(start).is_suppress());
    assert_eq!(policy.level(), 500_000_000_000_000_000);
    // The half that is left and the half that comes in within a second make one.
    assert!(policy.register_event(start + Duration::from_millis(999)).is_suppress());
    assert!(policy.register_event(start + Duration::from_secs(1)).is_allow());
    assert_eq!(policy.level(), 0);
    assert!(policy.register_event(start + Duration::from_secs(2)).is_suppress());
    assert!(policy.register_event(start + Duration::from_secs(3)).is_allow());
    policy.reset();
    assert_eq!(policy.level(), 2_500_000_000_000_000_000);

    assert_eq!(Policy::token_bucket_of_billionths(0, 1), Err(PolicyError::ZeroCapacity));
    assert_eq!(Policy::token_bucket_of_billionths(1, 0), Err(PolicyError::ZeroRefillRate));
    assert_eq!(
        Policy::token_bucket_of_billionths(3_000_000_000, 1_000_000_000),
        Policy::token_bucket(3, 1)
    );
    // Less than one token never suffices, and more than can be counted is cut off.
    let mut small = Policy::token_bucket_of_billionths(999_999_999, 1_000_000_000).unwrap();
    assert!(small.register_event(start).is_suppress());
    assert!(small.register_event(start + Duration::from_secs(9)).is_suppress());
    let large = TokenBucketPolicy::of_billionths(u128::MAX, 1).unwrap();
    assert_eq!(large.level(), u128::MAX);
}
