//! The layer and its builder.
use std::sync::Arc;
use tracing_throttle::infrastructure::layer::FormatSummary;
use tracing_throttle::infrastructure::visitor::FieldVisitor;
use tracing_throttle::{
    AnyClock, BuildError, CircuitBreaker, CircuitBreakerConfig, CircuitState, Duration,
    EmitterConfigError, EventSignature, EventState, Metrics, Policy, RateLimiter, ShardedStorage,
    SummaryFormatter, SuppressionRegistry, SuppressionSummary, SystemClock, TracingRateLimitLayer,
};

type Store = ShardedStorage<EventSignature, EventState>;

#[test]
fn test_layer_builder() {
    let layer = TracingRateLimitLayer::builder()
        .with_policy(Policy::count_based(50).unwrap())
        .with_summary_interval(Duration::from_secs(60))
        .build()
        .unwrap();

    assert!(layer.limiter().registry().is_empty());
}

#[test]
fn test_span_context_fields_deduplication() {
    let layer = TracingRateLimitLayer::builder()
        .with_span_context_fields(vec![
            "user_id".to_string(),
            "user_id".to_string(), // duplicate
            "tenant_id".to_string(),
            "".to_string(),        // empty, should be filtered
            "user_id".to_string(), // another duplicate
        ])
        .build()
        .unwrap();

    // Should only have 2 unique fields: user_id and tenant_id
    assert_eq!(layer.span_context_fields().len(), 2);
    assert!(layer.span_context_fields().iter().any(|f| f == "user_id"));
    assert!(layer.span_context_fields().iter().any(|f| f == "tenant_id"));
}

#[test]
fn test_event_fields_deduplication() {
    let layer = TracingRateLimitLayer::builder()
        .with_event_fields(vec![
            "error_code".to_string(),
            "error_code".to_string(), // duplicate
            "status".to_string(),
            "".to_string(),           // empty, should be filtered
            "error_code".to_string(), // another duplicate
        ])
        .build()
        .unwrap();

    // Should only have 2 unique fields: error_code and status
    assert_eq!(layer.event_fields().len(), 2);
    assert!(layer.event_fields().iter().any(|f| f == "error_code"));
    assert!(layer.event_fields().iter().any(|f| f == "status"));
}

#[test]
fn test_layer_default() {
    let layer = TracingRateLimitLayer::<Store>::default();
    assert!(layer.limiter().registry().is_empty());
}

#[test]
fn test_signature_computation() {
    let _layer = TracingRateLimitLayer::<Store>::new();

    // Use a simple signature test without metadata construction
    let sig1 = EventSignature::simple("INFO", "test_event");
    let sig2 = EventSignature::simple("INFO", "test_event");

    // Same inputs should produce same signature
    assert_eq!(sig1, sig2);
}

#[test]
fn test_basic_rate_limiting() {
    let mut layer = TracingRateLimitLayer::builder()
        .with_policy(Policy::count_based(2).unwrap())
        .build()
        .unwrap();

    let sig = EventSignature::simple("INFO", "test_message");

    // First two should be allowed
    assert!(layer.should_allow(sig));
    assert!(layer.should_allow(sig));

    // Third should be suppressed
    assert!(!layer.should_allow(sig));
}

#[test]
fn test_layer_suppression_logic() {
    let mut layer = TracingRateLimitLayer::builder()
        .with_policy(Policy::count_based(3).unwrap())
        .build()
        .unwrap();

    let sig = EventSignature::simple("INFO", "test");

    // Verify the suppression logic works correctly
    let mut allowed_count = 0;
    for _ in 0..10 {
        if layer.should_allow(sig) {
            allowed_count += 1;
        }
    }

    assert_eq!(allowed_count, 3);
}

#[test]
fn test_builder_zero_summary_interval() {
    let result = TracingRateLimitLayer::builder()
        .with_summary_interval(Duration::from_secs(0))
        .build();

    assert!(matches!(
        result,
        Err(BuildError::EmitterConfig(EmitterConfigError::ZeroSummaryInterval))
    ));
}

#[test]
fn test_builder_zero_max_signatures() {
    let result = TracingRateLimitLayer::builder().with_max_signatures(0).build();

    assert!(matches!(result, Err(BuildError::ZeroMaxSignatures)));
}

#[test]
fn test_builder_valid_max_signatures() {
    let layer = TracingRateLimitLayer::builder().with_max_signatures(100).build().unwrap();

    assert!(layer.limiter().registry().is_empty());
}

#[test]
fn test_metrics_tracking() {
    let mut layer = TracingRateLimitLayer::builder()
        .with_policy(Policy::count_based(2).unwrap())
        .build()
        .unwrap();

    let sig = EventSignature::simple("INFO", "test");

    // Check initial metrics
    assert_eq!(layer.metrics().events_allowed(), 0);
    assert_eq!(layer.metrics().events_suppressed(), 0);

    // Allow first two events
    assert!(layer.should_allow(sig));
    assert!(layer.should_allow(sig));

    // Check metrics after allowed events
    assert_eq!(layer.metrics().events_allowed(), 2);
    assert_eq!(layer.metrics().events_suppressed(), 0);

    // Suppress third event
    assert!(!layer.should_allow(sig));

    // Check metrics after suppressed event
    assert_eq!(layer.metrics().events_allowed(), 2);
    assert_eq!(layer.metrics().events_suppressed(), 1);
}

#[test]
fn test_metrics_snapshot() {
    let mut layer = TracingRateLimitLayer::builder()
        .with_policy(Policy::count_based(3).unwrap())
        .build()
        .unwrap();

    let sig = EventSignature::simple("INFO", "test");

    // Generate some events
    for _ in 0..5 {
        layer.should_allow(sig);
    }

    // Get snapshot
    let snapshot = layer.metrics().snapshot();
    assert_eq!(snapshot.events_allowed, 3);
    assert_eq!(snapshot.events_suppressed, 2);
    assert_eq!(snapshot.total_events(), 5);
    let (suppressed, total) = snapshot.suppression_ratio();
    assert!((suppressed as f64 / total as f64 - 0.4).abs() < f64::EPSILON);
}

#[test]
fn test_signature_count() {
    let mut layer = TracingRateLimitLayer::builder()
        .with_policy(Policy::count_based(2).unwrap())
        .build()
        .unwrap();

    assert_eq!(layer.signature_count(), 0);

    let sig1 = EventSignature::simple("INFO", "test1");
    let sig2 = EventSignature::simple("INFO", "test2");

    layer.should_allow(sig1);
    assert_eq!(layer.signature_count(), 1);

    layer.should_allow(sig2);
    assert_eq!(layer.signature_count(), 2);

    // Same signature shouldn't increase count
    layer.should_allow(sig1);
    assert_eq!(layer.signature_count(), 2);
}

#[test]
fn test_metrics_with_eviction() {
    let mut layer = TracingRateLimitLayer::builder()
        .with_policy(Policy::count_based(1).unwrap())
        .with_max_signatures(3)
        .build()
        .unwrap();

    // Fill up to capacity
    for i in 0..3 {
        let sig = EventSignature::simple("INFO", &format!("test{}", i));
        layer.should_allow(sig);
    }

    assert_eq!(layer.signature_count(), 3);
    assert_eq!(layer.metrics().signatures_evicted(), 0);

    // Add one more, which should trigger eviction
    let sig = EventSignature::simple("INFO", "test3");
    layer.should_allow(sig);

    assert_eq!(layer.signature_count(), 3);
    assert_eq!(layer.metrics().signatures_evicted(), 1);
}

#[test]
fn test_circuit_breaker_observability() {
    let mut layer = TracingRateLimitLayer::builder()
        .with_policy(Policy::count_based(2).unwrap())
        .build()
        .unwrap();

    // Check initial circuit breaker state
    assert_eq!(layer.circuit_breaker().state(), CircuitState::Closed);
    assert_eq!(layer.circuit_breaker().consecutive_failures(), 0);

    // Circuit breaker should remain closed during normal operation
    let sig = EventSignature::simple("INFO", "test");
    layer.should_allow(sig);
    layer.should_allow(sig);
    layer.should_allow(sig);

    assert_eq!(layer.circuit_breaker().state(), CircuitState::Closed);
}

#[test]
fn test_circuit_breaker_fail_open_integration() {
    // Create a circuit breaker with low threshold for testing
    let cb_config = CircuitBreakerConfig {
        failure_threshold: 2,
        recovery_timeout: Duration::from_secs(1),
    };
    let circuit_breaker = CircuitBreaker::with_config(cb_config);

    // Build layer with custom circuit breaker
    let storage: Store = ShardedStorage::new();
    let clock = AnyClock::System(SystemClock::new());
    let policy = Policy::count_based(2).unwrap();
    let registry = SuppressionRegistry::new(storage, clock, policy);
    let metrics = Metrics::new();
    let limiter = RateLimiter::new(registry, metrics, circuit_breaker);

    let mut layer = TracingRateLimitLayer::with_limiter(limiter);

    let sig = EventSignature::simple("INFO", "test");

    // Normal operation - first 2 events allowed, third suppressed
    assert!(layer.should_allow(sig));
    assert!(layer.should_allow(sig));
    assert!(!layer.should_allow(sig));

    // Circuit should still be closed
    assert_eq!(layer.circuit_breaker().state(), CircuitState::Closed);

    // Manually trigger circuit breaker failures to test fail-open
    layer.limiter_mut().circuit_breaker_mut().record_failure();
    layer.limiter_mut().circuit_breaker_mut().record_failure();

    // Circuit should now be open
    assert_eq!(layer.circuit_breaker().state(), CircuitState::Open);

    // With circuit open, rate limiter should fail open (allow all events)
    // even though we've already hit the rate limit
    assert!(layer.should_allow(sig));
    assert!(layer.should_allow(sig));
    assert!(layer.should_allow(sig));

    // Metrics should show these as allowed (fail-open behavior)
    let snapshot = layer.metrics().snapshot();
    assert!(snapshot.events_allowed >= 5); // 2 normal + 3 fail-open
}

#[test]
fn test_empty_visitor() {
    let visitor = FieldVisitor::new();
    let fields = visitor.into_fields();
    assert!(fields.is_empty());
}

#[test]
fn test_visitor_fields_reference() {
    let visitor = FieldVisitor::new();
    assert!(visitor.fields().is_empty());
}

#[test]
fn visitor_writes_values_as_text() {
    let mut visitor = FieldVisitor::new();
    visitor.record_i64("least", i64::MIN);
    visitor.record_i64("minus", -456);
    visitor.record_u64("most", u64::MAX);
    visitor.record_bool("yes", true);
    visitor.record_bool("no", false);
    visitor.record_str("text", "/api/\u{7528}\u{6237}");
    visitor.record_str("text", "later");
    let fields = visitor.into_fields();
    assert_eq!(fields.get("least").unwrap(), "-9223372036854775808");
    assert_eq!(fields.get("minus").unwrap(), "-456");
    assert_eq!(fields.get("most").unwrap(), "18446744073709551615");
    assert_eq!(fields.get("yes").unwrap(), "true");
    assert_eq!(fields.get("no").unwrap(), "false");
    assert_eq!(fields.get("text").unwrap(), "later");
    assert!(fields.get("other").is_none());
    assert_eq!(fields.len(), 6);
}

#[test]
fn default_policy_is_a_token_bucket() {
    let mut layer = TracingRateLimitLayer::<Store>::new();
    let sig = EventSignature::simple("INFO", "burst");
    let mut allowed = 0;
    for _ in 0..60 {
        if layer.should_allow(sig) {
            allowed += 1;
        }
    }
    assert!(allowed >= 50);
    assert!(allowed < 60);
    assert_eq!(layer.emitter_config().interval, Duration::from_secs(30));
    assert!(!layer.active_emission());
    assert!(layer.summary_formatter().is_none());
}

#[test]
fn limits_are_checked_before_the_interval() {
    let result = TracingRateLimitLayer::builder()
        .with_max_signatures(0)
        .with_summary_interval(Duration::zero())
        .build();
    assert!(matches!(result, Err(BuildError::ZeroMaxSignatures)));
}

#[test]
fn build_errors_can_be_read() {
    assert_eq!(
        BuildError::ZeroMaxSignatures.to_string(),
        "max_signatures must be greater than 0"
    );
    assert_eq!(
        BuildError::from(EmitterConfigError::ZeroSummaryInterval).to_string(),
        "emitter configuration error: summary interval must be greater than 0"
    );
}

/// Throws summaries away.
struct Silent;

impl FormatSummary for Silent {
    fn format(&self, _summary: &SuppressionSummary) {}
}

#[test]
fn settings_for_summaries_are_kept() {
    let layer = TracingRateLimitLayer::builder()
        .with_active_emission(true)
        .with_summary_interval(Duration::from_millis(1500))
        .with_summary_formatter(SummaryFormatter(Arc::new(Box::new(Silent))))
        .build()
        .unwrap();
    assert!(layer.active_emission());
    assert_eq!(layer.emitter_config().interval, Duration::from_millis(1500));
    assert_eq!(layer.emitter_config().min_count, 1);
    assert!(layer.summary_formatter().is_some());
}

#[test]
fn a_layer_can_be_put_around_a_storage() {
    let mut layer = TracingRateLimitLayer::with_storage(
        Store::new(),
        Policy::count_based(1).unwrap(),
        AnyClock::System(SystemClock::new()),
    );
    let sig = EventSignature::simple("INFO", "test");
    assert!(layer.should_allow(sig));
    assert!(!layer.should_allow(sig));
}

#[test]
fn a_handle_on_the_counts_stays_up_to_date() {
    let mut layer = TracingRateLimitLayer::builder()
        .with_policy(Policy::count_based(1).unwrap())
        .with_max_signatures(2)
        .build()
        .unwrap();
    let live = layer.metrics().clone();
    assert_eq!(live.snapshot().total_events(), 0);
    for i in 0..3 {
        let sig = EventSignature::simple("INFO", &format!("test{}", i));
        layer.should_allow(sig);
        layer.should_allow(sig);
    }
    assert_eq!(live.snapshot().events_allowed, 3);
    assert_eq!(live.snapshot().events_suppressed, 3);
    assert_eq!(live.snapshot().signatures_evicted, 1);
    assert_eq!(live.snapshot(), layer.metrics().snapshot());
    assert_eq!(live.snapshot(), layer.tally());
}
