//! The rate limiter, with its registry and clocks.
use std::sync::{Arc, Mutex};
use tracing_throttle::infrastructure::eviction::LruEviction;
use tracing_throttle::{
    AnyClock, AnyEviction, CircuitBreaker, CircuitBreakerConfig, CircuitState, Clock, Duration,
    EventMetadata, EventSignature, EventState, ExponentialBackoffPolicy, FieldMap, Instant,
    LimitDecision, Metrics, Policy, RateLimiter, ShardedStorage, SuppressionRegistry, SystemClock,
};

/// A clock that stands still until it is moved.
#[derive(Clone)]
struct MockClock {
    current_time: Arc<Mutex<Instant>>,
}

impl MockClock {
    fn new(start: Instant) -> Self {
        MockClock { current_time: Arc::new(Mutex::new(start)) }
    }

    fn advance(&self, duration: Duration) {
        let mut time = self.current_time.lock().unwrap();
        *time = *time + duration;
    }

    fn set(&self, instant: Instant) {
        *self.current_time.lock().unwrap() = instant;
    }
}

impl Clock for MockClock {
    fn now(&self) -> Instant {
        *self.current_time.lock().unwrap()
    }
}

type Store = ShardedStorage<EventSignature, EventState>;

fn system_clock() -> AnyClock {
    AnyClock::System(SystemClock::new())
}

fn limiter(policy: Policy) -> RateLimiter<Store> {
    let registry = SuppressionRegistry::new(ShardedStorage::new(), system_clock(), policy);
    RateLimiter::new(registry, Metrics::new(), CircuitBreaker::new())
}

#[test]
fn test_mock_clock() {
    let start = Instant::from_nanos(1_000_000);
    let clock = MockClock::new(start);

    assert_eq!(clock.now(), start);

    clock.advance(Duration::from_secs(10));
    assert_eq!(clock.now(), start + Duration::from_secs(10));

    let new_time = start + Duration::from_secs(100);
    clock.set(new_time);
    assert_eq!(clock.now(), new_time);
}

#[test]
fn test_system_clock() {
    let clock = SystemClock::new();
    let t1 = clock.now();
    // Keep busy until at least ten milliseconds have passed.
    let start = std::time::Instant::now();
    while start.elapsed() < std::time::Duration::from_millis(10) {}
    let t2 = clock.now();

    assert!(t2 > t1);
    assert!(t2.duration_since(t1) >= Duration::from_millis(10));
}

#[test]
fn test_rate_limiter_basic() {
    let mut limiter = limiter(Policy::count_based(2).unwrap());
    let sig = EventSignature::simple("INFO", "Test message");

    // First two events allowed
    assert_eq!(limiter.check_event(sig), LimitDecision::Allow);
    assert_eq!(limiter.check_event(sig), LimitDecision::Allow);

    // Third and beyond suppressed
    assert_eq!(limiter.check_event(sig), LimitDecision::Suppress);
    assert_eq!(limiter.check_event(sig), LimitDecision::Suppress);
}

#[test]
fn test_rate_limiter_with_mock_clock() {
    let mock_clock = MockClock::new(SystemClock::new().now());
    let policy = Policy::time_window(2, Duration::from_secs(60)).unwrap();
    let registry: SuppressionRegistry<Store> = SuppressionRegistry::new(
        ShardedStorage::new(),
        AnyClock::Custom(Arc::new(Box::new(mock_clock.clone()))),
        policy,
    );
    let mut limiter = RateLimiter::new(registry, Metrics::new(), CircuitBreaker::new());

    let sig = EventSignature::simple("INFO", "Test");

    // First 2 allowed
    assert_eq!(limiter.check_event(sig), LimitDecision::Allow);
    assert_eq!(limiter.check_event(sig), LimitDecision::Allow);

    // 3rd suppressed
    assert_eq!(limiter.check_event(sig), LimitDecision::Suppress);

    // Advance time by 61 seconds
    mock_clock.advance(Duration::from_secs(61));

    // Should allow again
    assert_eq!(limiter.check_event(sig), LimitDecision::Allow);
}

#[test]
fn test_rate_limiter_different_signatures() {
    let mut limiter = limiter(Policy::count_based(1).unwrap());

    let sig1 = EventSignature::simple("INFO", "Message 1");
    let sig2 = EventSignature::simple("INFO", "Message 2");

    // Each signature has independent limits
    assert_eq!(limiter.check_event(sig1), LimitDecision::Allow);
    assert_eq!(limiter.check_event(sig2), LimitDecision::Allow);

    assert_eq!(limiter.check_event(sig1), LimitDecision::Suppress);
    assert_eq!(limiter.check_event(sig2), LimitDecision::Suppress);
}

#[test]
fn test_rate_limiter_suppression_counting() {
    let mut limiter = limiter(Policy::count_based(1).unwrap());
    let sig = EventSignature::simple("INFO", "Test");

    // Allow first
    assert_eq!(limiter.check_event(sig), LimitDecision::Allow);

    // Suppress next 3
    assert_eq!(limiter.check_event(sig), LimitDecision::Suppress);
    assert_eq!(limiter.check_event(sig), LimitDecision::Suppress);
    assert_eq!(limiter.check_event(sig), LimitDecision::Suppress);

    // Check counter - initial creation counts as 1, plus 3 recorded = 4 total
    limiter.registry_mut().with_event_state(sig, |state, _now| {
        assert_eq!(state.counter.count(), 4);
    });
}

#[test]
fn metadata_of_first_occurrence_is_kept() {
    let mut limiter = limiter(Policy::count_based(1).unwrap());
    let sig = EventSignature::simple("INFO", "Test");
    let describe = |message: &str| {
        EventMetadata::new(
            "INFO".to_string(),
            message.to_string(),
            "app".to_string(),
            FieldMap::new(),
        )
    };

    assert_eq!(
        limiter.check_event_with_metadata(sig, describe("first")),
        LimitDecision::Allow
    );
    assert_eq!(
        limiter.check_event_with_metadata(sig, describe("second")),
        LimitDecision::Suppress
    );
    let message = limiter
        .registry_mut()
        .with_event_state(sig, |state, _now| state.metadata.as_ref().unwrap().message.clone());
    assert_eq!(message, "first");
}

#[test]
fn open_circuit_lets_events_pass() {
    let config =
        CircuitBreakerConfig { failure_threshold: 1, recovery_timeout: Duration::from_secs(10) };
    let registry: SuppressionRegistry<Store> = SuppressionRegistry::new(
        ShardedStorage::new(),
        system_clock(),
        Policy::count_based(1).unwrap(),
    );
    let mut limiter =
        RateLimiter::new(registry, Metrics::new(), CircuitBreaker::with_config(config));
    let sig = EventSignature::simple("INFO", "Test");
    let start = Instant::base();

    assert_eq!(limiter.check_event_at(sig, start, start), LimitDecision::Allow);
    assert_eq!(limiter.check_event_at(sig, start, start), LimitDecision::Suppress);

    limiter.circuit_breaker_mut().record_failure_at(start);
    assert_eq!(limiter.circuit_breaker().state(), CircuitState::Open);
    let soon = start + Duration::from_secs(9);
    assert_eq!(limiter.check_event_at(sig, soon, soon), LimitDecision::Allow);
    // The state of the signature is untouched while the circuit is open.
    assert_eq!(limiter.metrics().snapshot().events_allowed, 2);
    assert_eq!(limiter.metrics().snapshot().events_suppressed, 1);

    // After the timeout the policy is asked again, and a success closes the circuit.
    let later = start + Duration::from_secs(10);
    assert_eq!(limiter.check_event_at(sig, later, later), LimitDecision::Suppress);
    assert_eq!(limiter.circuit_breaker().state(), CircuitState::Closed);
}

#[test]
fn times_can_be_given() {
    let mut limiter = limiter(Policy::time_window(1, Duration::from_secs(5)).unwrap());
    let sig = EventSignature::simple("INFO", "Test");
    let metadata = || {
        EventMetadata::new(
            "INFO".to_string(),
            "Test".to_string(),
            "app".to_string(),
            FieldMap::new(),
        )
    };
    let mut decide = |secs: u64| {
        let now = Instant::base() + Duration::from_secs(secs);
        limiter.check_event_with_metadata_at(sig, metadata(), now, now)
    };
    assert_eq!(decide(0), LimitDecision::Allow);
    assert_eq!(decide(5), LimitDecision::Suppress);
    assert_eq!(decide(6), LimitDecision::Allow);
}

#[test]
fn policy_that_cannot_register_counts_as_failure() {
    let exhausted =
        Policy::ExponentialBackoff(ExponentialBackoffPolicy::from_parts(u64::MAX, u64::MAX));
    let mut limiter = limiter(exhausted);
    let sig = EventSignature::simple("INFO", "Test");
    for i in 1..=5 {
        assert_eq!(limiter.check_event(sig), LimitDecision::Allow);
        assert_eq!(limiter.circuit_breaker().consecutive_failures(), i);
    }
    assert_eq!(limiter.circuit_breaker().state(), CircuitState::Open);
    assert_eq!(limiter.metrics().events_allowed(), 5);
}

#[test]
fn steps_of_a_check_can_be_taken_one_by_one() {
    let mut limiter = limiter(Policy::count_based(1).unwrap());
    let sig = EventSignature::simple("INFO", "Test");

    assert!(limiter.begin());
    let answer = limiter.decide(sig, None);
    assert_eq!(limiter.finish(answer), LimitDecision::Allow);

    // An operation that did not come to an answer is a failure, and the event passes.
    assert!(limiter.begin());
    assert_eq!(limiter.finish(None), LimitDecision::Allow);
    assert_eq!(limiter.circuit_breaker().consecutive_failures(), 1);

    assert!(limiter.begin());
    let answer = limiter.decide(sig, None);
    assert_eq!(limiter.finish(answer), LimitDecision::Suppress);
    assert_eq!(limiter.circuit_breaker().consecutive_failures(), 0);
    assert_eq!(limiter.metrics().snapshot().total_events(), 3);
}

#[test]
fn each_signature_follows_its_policy() {
    let mut limiter = limiter(Policy::exponential_backoff());
    let noisy = EventSignature::simple("WARN", "noisy");
    let quiet = EventSignature::simple("WARN", "quiet");
    let mut passed = Vec::new();
    for i in 1..=16 {
        if limiter.check_event(noisy) == LimitDecision::Allow {
            passed.push(i);
        }
    }
    assert_eq!(passed, vec![1, 2, 4, 8, 16]);
    assert_eq!(limiter.check_event(quiet), LimitDecision::Allow);
    assert_eq!(limiter.registry().len(), 2);
    limiter.registry_mut().clear();
    assert!(limiter.registry().is_empty());
}

#[test]
fn the_clock_tells_when_an_event_comes() {
    let clock = MockClock::new(Instant::base() + Duration::from_secs(100));
    let registry: SuppressionRegistry<Store> = SuppressionRegistry::new(
        ShardedStorage::new(),
        AnyClock::Custom(Arc::new(Box::new(clock.clone()))),
        Policy::time_window(1, Duration::from_secs(5)).unwrap(),
    );
    let mut limiter = RateLimiter::new(registry, Metrics::new(), CircuitBreaker::new());
    let sig = EventSignature::simple("INFO", "Test");
    assert_eq!(limiter.check_event(sig), LimitDecision::Allow);
    clock.advance(Duration::from_secs(5));
    assert_eq!(limiter.check_event(sig), LimitDecision::Suppress);
    clock.advance(Duration::from_secs(1));
    assert_eq!(limiter.check_event(sig), LimitDecision::Allow);
    let last = limiter
        .registry_mut()
        .with_event_state(sig, |state, _now| state.counter.last_suppressed());
    assert_eq!(last, Instant::base() + Duration::from_secs(105));
}

#[test]
fn metadata_has_no_part_in_the_decision() {
    let mut told = limiter(Policy::exponential_backoff());
    let mut untold = limiter(Policy::exponential_backoff());
    let sig = EventSignature::simple("INFO", "Test");
    let now = Instant::base() + Duration::from_secs(1);
    for i in 0..20 {
        let metadata = EventMetadata::new(
            "INFO".to_string(),
            format!("message {}", i),
            "app".to_string(),
            FieldMap::new(),
        );
        assert_eq!(
            told.check_event_with_metadata_at(sig, metadata, now, now),
            untold.check_event_at(sig, now, now)
        );
    }
    assert_eq!(told.metrics().snapshot(), untold.metrics().snapshot());
    assert_eq!(told.circuit_breaker().state(), untold.circuit_breaker().state());
    let a = told.registry_mut().with_event_state(sig, |state, _now| state.clone());
    let b = untold.registry_mut().with_event_state(sig, |state, _now| state.clone());
    assert_eq!(a.policy, b.policy);
    assert_eq!(a.counter.count(), b.counter.count());
    assert_eq!(a.metadata.unwrap().message, "message 0");
    assert!(b.metadata.is_none());
}

#[test]
fn what_passes_and_what_does_not_is_counted() {
    let mut limiter = limiter(Policy::count_based(3).unwrap());
    let mut allowed = 0;
    for i in 0..50 {
        let sig = EventSignature::simple("INFO", &format!("Test {}", i % 4));
        if limiter.check_event(sig) == LimitDecision::Allow {
            allowed += 1;
        }
    }
    assert_eq!(allowed, 12);
    assert_eq!(limiter.metrics().events_allowed(), 12);
    assert_eq!(limiter.metrics().events_suppressed(), 38);
    assert_eq!(limiter.tally(), limiter.metrics().snapshot());
    limiter.metrics().reset();
    assert_eq!(limiter.metrics().snapshot().total_events(), 0);
    assert_eq!(limiter.tally().total_events(), 50);
}

#[test]
fn evictions_are_counted_where_counts_are_shared() {
    let run = |shared: bool| {
        let metrics = Metrics::new();
        let of_storage = if shared { metrics.clone() } else { Metrics::new() };
        let storage: Store = ShardedStorage::new()
            .with_metrics(of_storage)
            .with_eviction_policy(AnyEviction::Lru(LruEviction::new(2)));
        let registry =
            SuppressionRegistry::new(storage, system_clock(), Policy::count_based(1).unwrap());
        let mut limiter = RateLimiter::new(registry, metrics, CircuitBreaker::new());
        for i in 0..5 {
            limiter.check_event(EventSignature::simple("INFO", &format!("Test {}", i)));
        }
        assert_eq!(limiter.registry().storage().metrics().unwrap().signatures_evicted(), 3);
        // Three signatures had to go for the events of this limiter, wherever that is counted.
        assert_eq!(limiter.tally().signatures_evicted, 3);
        limiter.metrics().snapshot()
    };
    let counts = run(true);
    assert_eq!(counts.signatures_evicted, 3);
    assert_eq!(counts.events_allowed, 5);
    let counts = run(false);
    assert_eq!(counts.signatures_evicted, 0);
    assert_eq!(counts.events_allowed, 5);
}

#[test]
fn a_count_is_one_plus_the_suppressed_events() {
    let mut limiter = limiter(Policy::count_based(3).unwrap());
    let sig = EventSignature::simple("INFO", "Test");
    let other = EventSignature::simple("INFO", "Other");
    let mut suppressed = 0;
    for _ in 0..10 {
        limiter.check_event(other);
        if limiter.check_event(sig) == LimitDecision::Suppress {
            suppressed += 1;
        }
        let count =
            limiter.registry_mut().with_event_state(sig, |state, _now| state.counter.count());
        assert_eq!(count, 1 + suppressed);
    }
    assert_eq!(suppressed, 7);
}
