//! Events with their fields and the spans around them, as they reach the layer.
use std::sync::Arc;
use tracing_throttle::{
    CircuitState, Duration, EventRecord, EventSignature, EventState, EvictionStrategy, FieldMap,
    Policy, PriorityFn, ShardedStorage, TracingRateLimitLayer,
};

type Layer = TracingRateLimitLayer<ShardedStorage<EventSignature, EventState>>;

fn fields(pairs: &[(&str, &str)]) -> FieldMap {
    FieldMap::from_pairs(pairs.iter().map(|(k, v)| (k.to_string(), v.to_string())).collect())
}

fn names(list: &[&str]) -> Vec<String> {
    list.iter().map(|s| s.to_string()).collect()
}

/// An event from one place in the code. Each place has a name of its own.
struct Place {
    level: &'static str,
    target: &'static str,
    name: &'static str,
}

fn info(name: &'static str) -> Place {
    Place { level: "INFO", target: "events", name }
}

fn warn(name: &'static str) -> Place {
    Place { level: "WARN", target: "events", name }
}

fn error(name: &'static str) -> Place {
    Place { level: "ERROR", target: "events", name }
}

/// Lets the layer decide about one event, within spans that are given from the innermost on.
fn emit(layer: &mut Layer, place: &Place, pairs: &[(&str, &str)], spans: &[FieldMap]) -> bool {
    let event = EventRecord {
        level: place.level.to_string(),
        name: place.name.to_string(),
        target: place.target.to_string(),
        fields: fields(pairs),
    };
    layer.event_enabled(&event, &spans.to_vec())
}

/// How many of `n` equal events pass.
fn emit_many(
    layer: &mut Layer,
    n: usize,
    place: &Place,
    pairs: &[(&str, &str)],
    spans: &[FieldMap],
) -> usize {
    (0..n).filter(|_| emit(layer, place, pairs, spans)).count()
}

fn count_based(n: usize) -> Layer {
    TracingRateLimitLayer::builder().with_policy(Policy::count_based(n).unwrap()).build().unwrap()
}

// --- one place after another ---------------------------------------------------------------

#[test]
fn test_layer_integration() {
    let mut layer = count_based(3);
    // Emit 10 identical events
    assert_eq!(emit_many(&mut layer, 10, &info("test event"), &[], &[]), 3);
    assert_eq!(layer.limiter().registry().len(), 1);
}

#[test]
fn test_rate_limit_layer_integration() {
    let mut layer = count_based(3);
    // Only first 3 should pass through
    assert_eq!(emit_many(&mut layer, 10, &info("test event"), &[], &[]), 3);
}

#[test]
fn test_different_messages_independent_limits() {
    let mut layer = count_based(2);
    let a = emit_many(&mut layer, 5, &info("message A"), &[], &[]);
    let b = emit_many(&mut layer, 5, &warn("message B"), &[], &[]);
    // 2 from A + 2 from B = 4 total
    assert_eq!(a + b, 4);
}

#[test]
fn test_different_levels_independent_limits() {
    let mut layer = count_based(2);
    let info_count = emit_many(&mut layer, 5, &info("same message"), &[], &[]);
    let warn_count = emit_many(&mut layer, 5, &warn("same message"), &[], &[]);

    // 2 info + 2 warn = 4 total
    assert_eq!(info_count, 2);
    assert_eq!(warn_count, 2);
}

#[test]
fn test_metrics_match_suppression() {
    let mut layer = count_based(3);
    let passed = emit_many(&mut layer, 10, &info("test"), &[], &[]);

    // Verify metrics match actual suppression
    let metrics = layer.metrics().snapshot();
    assert_eq!(metrics.events_allowed, 3);
    assert_eq!(metrics.events_suppressed, 7);
    assert_eq!(passed, 3); // Only allowed events captured
}

#[test]
fn test_signature_count_tracking() {
    let mut layer = count_based(1);
    for name in ["events.rs:1", "events.rs:2", "events.rs:3", "events.rs:4"] {
        emit(&mut layer, &info(name), &[("message", "message")], &[]);
    }

    // Each place is a signature of its own
    assert_eq!(layer.signature_count(), 4);
}

#[test]
fn test_eviction_with_small_limit() {
    let mut layer = TracingRateLimitLayer::builder()
        .with_policy(Policy::count_based(1).unwrap())
        .with_max_signatures(3)
        .build()
        .unwrap();

    // Fill to capacity
    emit(&mut layer, &info("msg 1"), &[], &[]);
    emit(&mut layer, &info("msg 2"), &[], &[]);
    emit(&mut layer, &info("msg 3"), &[], &[]);

    // This should trigger eviction
    emit(&mut layer, &info("msg 4"), &[], &[]);

    // Signature count should be at limit
    assert_eq!(layer.signature_count(), 3);

    // Should have evicted 1 signature
    assert_eq!(layer.metrics().signatures_evicted(), 1);
}

#[test]
fn test_circuit_breaker_remains_closed() {
    let mut layer = count_based(2);
    emit_many(&mut layer, 100, &info("test"), &[], &[]);

    // Circuit breaker should remain closed during normal operation
    assert_eq!(layer.circuit_breaker().state(), CircuitState::Closed);
    assert_eq!(layer.circuit_breaker().consecutive_failures(), 0);
}

#[test]
fn test_zero_limit_suppresses_all_after_first() {
    let mut layer = count_based(1);
    // Only the very first event allowed
    assert_eq!(emit_many(&mut layer, 100, &info("test"), &[], &[]), 1);
}

// --- fields of events ----------------------------------------------------------------------

#[test]
fn test_same_field_values_are_throttled() {
    let mut layer = count_based(2);
    // Same user_id = same signature = throttled together
    let passed =
        emit_many(&mut layer, 5, &error("Failed to fetch user"), &[("user_id", "123")], &[]);
    assert_eq!(passed, 2, "Events with same field values should be throttled together");
}

fn excluding(list: &[&str]) -> Layer {
    TracingRateLimitLayer::builder()
        .with_policy(Policy::count_based(2).unwrap())
        .with_excluded_fields(names(list))
        .build()
        .unwrap()
}

#[test]
fn test_excluded_fields_not_in_signature() {
    let mut layer = excluding(&["request_id"]);
    let mut passed = 0;
    // Same user_id, different request_id
    // request_id is excluded, so these have the SAME signature
    for i in 0..5 {
        let request_id = format!("req-{}", i);
        let pairs = [("user_id", "123"), ("request_id", request_id.as_str())];
        passed += emit_many(&mut layer, 1, &error("Failed to fetch user"), &pairs, &[]);
    }
    assert_eq!(passed, 2, "Excluded fields should not affect signature");
}

#[test]
fn test_multiple_excluded_fields() {
    let mut layer = excluding(&["request_id", "trace_id"]);
    let mut passed = 0;
    for i in 0..5 {
        let request_id = format!("req-{}", i);
        let trace_id = format!("trace-{}", i);
        let pairs = [
            ("user_id", "123"),
            ("request_id", request_id.as_str()),
            ("trace_id", trace_id.as_str()),
        ];
        passed += emit_many(&mut layer, 1, &error("Failed to fetch user"), &pairs, &[]);
    }
    assert_eq!(passed, 2, "Multiple excluded fields should all be excluded");
}

#[test]
fn test_different_error_codes_not_throttled() {
    let mut layer = count_based(2);
    let auth = [("error_code", "AUTH_FAILED")];
    let timeout = [("error_code", "TIMEOUT")];
    let passed = emit_many(&mut layer, 3, &error("Authentication failed"), &auth, &[])
        + emit_many(&mut layer, 3, &error("Request timeout"), &timeout, &[]);
    // 4 total: 2 AUTH_FAILED + 2 TIMEOUT (independent limits)
    assert_eq!(passed, 4);
}

#[test]
fn test_no_fields_on_event() {
    let mut layer = count_based(2);
    let passed = emit_many(&mut layer, 5, &error("Simple error without fields"), &[], &[]);
    assert_eq!(passed, 2, "Events without fields share the same signature");
}

#[test]
fn test_combined_span_context_and_event_fields() {
    let mut layer = TracingRateLimitLayer::builder()
        .with_policy(Policy::count_based(2).unwrap())
        .with_span_context_fields(names(&["user_id"]))
        .build()
        .unwrap();
    let alice = [fields(&[("user_id", "alice")])];
    let bob = [fields(&[("user_id", "bob")])];
    let auth = [("error_code", "AUTH_FAILED")];
    let timeout = [("error_code", "TIMEOUT")];

    let passed = emit_many(&mut layer, 3, &error("events.rs:10"), &auth, &alice)
        + emit_many(&mut layer, 3, &error("events.rs:11"), &timeout, &alice)
        + emit_many(&mut layer, 3, &error("events.rs:12"), &auth, &bob);

    // 6 total: 2 per (user_id, error_code) combination
    assert_eq!(passed, 6);
}

#[test]
fn test_excluded_fields_with_span_context() {
    let mut layer = TracingRateLimitLayer::builder()
        .with_policy(Policy::count_based(2).unwrap())
        .with_span_context_fields(names(&["user_id"]))
        .with_excluded_fields(names(&["request_id"]))
        .build()
        .unwrap();
    let alice = [fields(&[("user_id", "alice")])];
    let mut passed = 0;
    for i in 0..5 {
        let request_id = format!("req-{}", i);
        let pairs = [("error_code", "AUTH_FAILED"), ("request_id", request_id.as_str())];
        passed += emit_many(&mut layer, 1, &error("Authentication failed"), &pairs, &alice);
    }
    // Only 2 logged - request_id excluded
    assert_eq!(passed, 2, "Excluded fields work with span context");
}

#[test]
fn test_excluded_field_not_present() {
    let mut layer = excluding(&["request_id", "trace_id"]);
    let place = error("Failed to fetch user");
    let passed = emit_many(&mut layer, 5, &place, &[("user_id", "123")], &[])
        + emit_many(&mut layer, 5, &place, &[("user_id", "456")], &[]);
    // 4 total: 2 for user_id=123, 2 for user_id=456
    assert_eq!(passed, 4);
}

#[test]
fn fields_count_only_where_they_are_chosen() {
    let place = info("Login");

    // By default the values of fields make no difference.
    let mut layer = count_based(1);
    assert!(emit(&mut layer, &place, &[("user_id", "1")], &[]));
    assert!(!emit(&mut layer, &place, &[("user_id", "2")], &[]));

    let mut layer = TracingRateLimitLayer::builder()
        .with_policy(Policy::count_based(1).unwrap())
        .with_event_fields(names(&["user_id"]))
        .build()
        .unwrap();
    assert!(emit(&mut layer, &place, &[("user_id", "1"), ("ip", "a")], &[]));
    assert!(emit(&mut layer, &place, &[("user_id", "2"), ("ip", "a")], &[]));
    assert!(!emit(&mut layer, &place, &[("user_id", "2"), ("ip", "b")], &[]));
}

// --- spans ---------------------------------------------------------------------------------

fn per(list: &[&str], n: usize) -> Layer {
    TracingRateLimitLayer::builder()
        .with_policy(Policy::count_based(n).unwrap())
        .with_span_context_fields(names(list))
        .build()
        .unwrap()
}

#[test]
fn test_span_context_per_user_rate_limiting() {
    let mut layer = per(&["user_id"], 2);
    let alice = [fields(&[("user_id", "alice")])];
    let bob = [fields(&[("user_id", "bob")])];
    let passed = emit_many(&mut layer, 3, &info("event"), &[], &alice)
        + emit_many(&mut layer, 3, &info("event"), &[], &bob);
    // Should have 4 total: 2 for alice + 2 for bob
    assert_eq!(passed, 4, "Should rate limit independently per user_id");
}

#[test]
fn test_missing_span_context_field() {
    let mut layer = per(&["user_id"], 2);
    let first = [fields(&[("request_id", "req-123")])];
    let second = [fields(&[("request_id", "req-456")])];
    // Different places have different signatures, within each events share one
    let passed = emit_many(&mut layer, 3, &info("events.rs:20"), &[], &first)
        + emit_many(&mut layer, 3, &info("events.rs:21"), &[], &second);
    assert_eq!(passed, 4);
    // From one place, events without the field share one limit.
    let mut layer = per(&["user_id"], 2);
    let passed = emit_many(&mut layer, 3, &info("events.rs:22"), &[], &first)
        + emit_many(&mut layer, 3, &info("events.rs:22"), &[], &second);
    assert_eq!(passed, 2);
}

#[test]
fn test_nested_span_inheritance() {
    let mut layer = per(&["request_id"], 2);
    let request = fields(&[("request_id", "req-123")]);
    let handler = fields(&[]);
    let mut passed = emit_many(&mut layer, 1, &info("event 1"), &[], &[request.clone()]);
    let nested = [handler, request.clone()];
    passed += emit_many(&mut layer, 1, &info("event 2"), &[], &nested);
    passed += emit_many(&mut layer, 1, &info("event 3"), &[], &nested);
    passed += emit_many(&mut layer, 1, &info("event 4"), &[], &[request.clone()]);
    assert_eq!(passed, 4);
    // The nested span inherits the field: the same place has one limit inside and outside.
    assert!(emit(&mut layer, &info("event 1"), &[], &nested));
    assert!(!emit(&mut layer, &info("event 1"), &[], &[request]));
}

#[test]
fn test_multiple_context_fields() {
    let mut layer = per(&["user_id", "tenant_id"], 2);
    let mut passed = 0;
    for (user, tenant) in [("alice", "tenant1"), ("alice", "tenant2"), ("bob", "tenant1")] {
        let span = [fields(&[("user_id", user), ("tenant_id", tenant)])];
        passed += emit_many(&mut layer, 3, &info("event"), &[], &span);
    }
    // Should have 6 total: 2 per (user_id, tenant_id) combination
    assert_eq!(passed, 6);
}

#[test]
fn test_no_span_context_configured() {
    let mut layer = count_based(2);
    let alice = [fields(&[("user_id", "alice")])];
    let bob = [fields(&[("user_id", "bob")])];
    let passed = emit_many(&mut layer, 2, &info("events.rs:30"), &[], &alice)
        + emit_many(&mut layer, 2, &info("events.rs:31"), &[], &bob);
    assert_eq!(passed, 4);
}

#[test]
fn test_explicit_parent_span_is_used_for_context() {
    let mut layer = per(&["user_id"], 1);
    let mut passed = 0;
    for user in ["alice", "bob"] {
        let span = [fields(&[("user_id", user)])];
        passed += emit_many(&mut layer, 3, &info("event"), &[], &span);
    }
    assert_eq!(passed, 2, "alice and bob should each get their own bucket");
}

#[test]
fn test_root_event_ignores_entered_span() {
    let mut layer = per(&["user_id"], 1);
    // A root event has no span around it.
    let passed = emit_many(&mut layer, 2, &info("event"), &[], &[]);
    assert_eq!(passed, 1, "root events share one bucket regardless of the entered span");
}

#[test]
fn test_span_record_overrides_creation_value() {
    let mut layer = per(&["user_id"], 1);
    let mut span = fields(&[("user_id", "anonymous")]);
    let mut passed = 0;
    for user in [None, Some("alice"), Some("bob")] {
        if let Some(user) = user {
            span.insert("user_id".to_string(), user.to_string());
        }
        passed += emit_many(&mut layer, 1, &info("event"), &[], &[span.clone()]);
    }
    assert_eq!(passed, 3, "each recorded value should open a new bucket");
}

#[test]
fn test_span_record_after_creation_reaches_context() {
    let mut layer = per(&["user_id"], 2);
    let mut passed = 0;
    for user in ["alice", "bob"] {
        let mut span = fields(&[]);
        span.insert("user_id".to_string(), user.to_string());
        passed += emit_many(&mut layer, 3, &info("event"), &[], &[span]);
    }
    assert_eq!(passed, 4);
}

// --- precedence ----------------------------------------------------------------------------

#[test]
fn test_event_field_overrides_span_context() {
    let alice = [fields(&[("user_id", "alice")])];
    let mut layer = per(&["user_id"], 2);
    let passed = emit_many(&mut layer, 3, &info("events.rs:40"), &[("user_id", "bob")], &alice)
        + emit_many(&mut layer, 3, &info("events.rs:41"), &[("user_id", "charlie")], &alice);
    // Should have 4 total: 2 for bob + 2 for charlie
    assert_eq!(passed, 4, "Event fields should override span context fields");

    // From one place, with the field chosen in the span and in the event
    let mut layer = TracingRateLimitLayer::builder()
        .with_policy(Policy::count_based(2).unwrap())
        .with_span_context_fields(names(&["user_id"]))
        .with_event_fields(names(&["user_id"]))
        .build()
        .unwrap();
    let place = info("events.rs:42");
    let passed = emit_many(&mut layer, 3, &place, &[("user_id", "bob")], &alice)
        + emit_many(&mut layer, 3, &place, &[("user_id", "charlie")], &alice);
    // If span context won, we'd only have 2 (all as alice)
    assert_eq!(passed, 4, "Event fields should override span context fields");
}

#[test]
fn test_token_bucket_policy_with_span_fields() {
    let mut layer = TracingRateLimitLayer::builder()
        .with_policy(Policy::token_bucket(2, 100).unwrap())
        .with_span_context_fields(names(&["user_id"]))
        .build()
        .unwrap();
    let mut passed = 0;
    for user in ["alice", "bob"] {
        passed += emit_many(&mut layer, 4, &info("Event"), &[], &[fields(&[("user_id", user)])]);
    }
    assert_eq!(passed, 4, "Token bucket should work independently per span context");
}

#[test]
fn test_token_bucket_policy_with_event_fields() {
    let mut layer = TracingRateLimitLayer::builder()
        .with_policy(Policy::token_bucket(2, 100).unwrap())
        .build()
        .unwrap();
    let auth = [("error_code", "AUTH_FAILED")];
    let timeout = [("error_code", "TIMEOUT")];
    let passed = emit_many(&mut layer, 4, &error("events.rs:43"), &auth, &[])
        + emit_many(&mut layer, 4, &error("events.rs:44"), &timeout, &[]);
    assert_eq!(passed, 4, "Token bucket should work independently per event field");

    // From one place, with the field chosen
    let mut layer = TracingRateLimitLayer::builder()
        .with_policy(Policy::token_bucket(2, 100).unwrap())
        .with_event_fields(names(&["error_code"]))
        .build()
        .unwrap();
    let passed = emit_many(&mut layer, 4, &error("Error"), &auth, &[])
        + emit_many(&mut layer, 4, &error("Error"), &timeout, &[]);
    assert_eq!(passed, 4, "Token bucket should work independently per event field");
}

#[test]
fn test_time_window_policy_with_span_fields() {
    let mut layer = TracingRateLimitLayer::builder()
        .with_policy(Policy::time_window(1, Duration::from_secs(1)).unwrap())
        .with_span_context_fields(names(&["user_id"]))
        .build()
        .unwrap();
    let mut passed = 0;
    for user in ["alice", "bob"] {
        passed += emit_many(&mut layer, 3, &info("Event"), &[], &[fields(&[("user_id", user)])]);
    }
    // Should have 2 total: 1 for alice + 1 for bob
    assert_eq!(passed, 2, "Time window should work independently per span context");
}

#[test]
fn test_exponential_backoff_with_event_fields() {
    let auth = [("error_code", "AUTH_FAILED")];
    let timeout = [("error_code", "TIMEOUT")];
    let mut layer = TracingRateLimitLayer::builder()
        .with_policy(Policy::exponential_backoff())
        .build()
        .unwrap();
    let passed = emit_many(&mut layer, 4, &error("events.rs:45"), &auth, &[])
        + emit_many(&mut layer, 4, &error("events.rs:46"), &timeout, &[]);
    // Should have 6 total: 3 for AUTH_FAILED + 3 for TIMEOUT
    // (exponential backoff allows: 1st, 2nd, 4th events)
    assert_eq!(passed, 6);

    // From one place, with the field chosen
    let mut layer = TracingRateLimitLayer::builder()
        .with_policy(Policy::exponential_backoff())
        .with_event_fields(names(&["error_code"]))
        .build()
        .unwrap();
    let passed = emit_many(&mut layer, 4, &error("Error"), &auth, &[])
        + emit_many(&mut layer, 4, &error("Error"), &timeout, &[]);
    assert_eq!(passed, 6);
}

#[test]
fn test_deeply_nested_spans() {
    let mut layer = per(&["request_id", "user_id"], 2);
    let request = fields(&[("request_id", "req-123")]);
    let handler = fields(&[]);
    let mut passed = 0;
    for user in ["alice", "bob"] {
        let spans = [handler.clone(), fields(&[("user_id", user)]), request.clone()];
        passed += emit_many(&mut layer, 3, &info("Deep event"), &[], &spans);
    }
    // Should have 4 total: 2 for (req-123, alice) + 2 for (req-123, bob)
    assert_eq!(passed, 4);
}

#[test]
fn test_span_field_shadowing() {
    let mut layer = per(&["user_id"], 2);
    let parent = fields(&[("user_id", "alice")]);
    let child = fields(&[("user_id", "bob")]);
    let place = info("Event");
    let passed = emit_many(&mut layer, 3, &place, &[], &[parent.clone()])
        + emit_many(&mut layer, 3, &place, &[], &[child, parent]);
    // Should have 4 total: 2 for alice + 2 for bob
    assert_eq!(passed, 4, "Child span fields should override parent span fields");
}

fn per_event(name: &str) -> Layer {
    TracingRateLimitLayer::builder()
        .with_policy(Policy::count_based(2).unwrap())
        .with_event_fields(names(&[name]))
        .build()
        .unwrap()
}

#[test]
fn test_different_field_value_types() {
    let values = ["string", "123", "-456", "123.456", "true"];
    let places = ["events.rs:50", "events.rs:51", "events.rs:52", "events.rs:53", "events.rs:54"];
    let mut layer = count_based(2);
    let mut chosen = per_event("value");
    let mut passed = 0;
    let mut passed_from_one_place = 0;
    for (value, place) in values.into_iter().zip(places) {
        let pairs = [("value", value)];
        passed += emit_many(&mut layer, 3, &info(place), &pairs, &[]);
        passed_from_one_place += emit_many(&mut chosen, 3, &info("Event"), &pairs, &[]);
    }
    // Should have 10 total: 2 per value type
    assert_eq!(passed, 10);
    assert_eq!(passed_from_one_place, 10);
}

#[test]
fn test_empty_string_field_values() {
    let mut layer = count_based(2);
    let passed = emit_many(&mut layer, 3, &info("events.rs:55"), &[("category", "")], &[])
        + emit_many(&mut layer, 3, &info("events.rs:56"), &[("category", "error")], &[]);
    // Should have 4 total: 2 for empty string + 2 for "error"
    assert_eq!(passed, 4, "Empty string field values should be treated as distinct");

    let mut layer = per_event("category");
    let passed = emit_many(&mut layer, 3, &info("Event"), &[("category", "")], &[])
        + emit_many(&mut layer, 3, &info("Event"), &[("category", "error")], &[]);
    assert_eq!(passed, 4, "Empty string field values should be treated as distinct");
}

#[test]
fn test_special_characters_in_field_values() {
    let paths = ["/api/users/{id}/posts", "/api/\u{7528}\u{6237}/posts", "/api\nusers"];
    let places = ["events.rs:57", "events.rs:58", "events.rs:59"];
    let mut layer = count_based(2);
    let mut chosen = per_event("path");
    let mut passed = 0;
    let mut passed_from_one_place = 0;
    for (path, place) in paths.into_iter().zip(places) {
        passed += emit_many(&mut layer, 3, &info(place), &[("path", path)], &[]);
        passed_from_one_place += emit_many(&mut chosen, 3, &info("Event"), &[("path", path)], &[]);
    }
    // Should have 6 total: 2 per unique path
    assert_eq!(passed, 6);
    assert_eq!(passed_from_one_place, 6);
}

// --- targets -------------------------------------------------------------------------------

#[test]
fn test_exempt_targets_never_throttled() {
    let mut layer = TracingRateLimitLayer::builder()
        .with_policy(Policy::count_based(2).unwrap())
        .with_exempt_targets(names(&["security::audit", "compliance::logging"]))
        .build()
        .unwrap();
    let at = |target| Place { level: "INFO", target, name: "event" };

    // Regular events - throttled after 2
    emit_many(&mut layer, 5, &info("Normal event"), &[], &[]);
    // Security events - never throttled
    emit_many(&mut layer, 10, &at("security::audit"), &[], &[]);
    // Compliance events - never throttled
    emit_many(&mut layer, 10, &at("compliance::logging"), &[], &[]);

    let metrics = layer.metrics();

    // 2 normal events + 10 security + 10 compliance = 22 allowed
    assert_eq!(metrics.events_allowed(), 22);

    // 3 normal events suppressed
    assert_eq!(metrics.events_suppressed(), 3);
    assert_eq!(layer.signature_count(), 1);
}

#[test]
fn test_exempt_targets_mixed_with_regular() {
    let mut layer = TracingRateLimitLayer::builder()
        .with_policy(Policy::count_based(3).unwrap())
        .with_exempt_targets(names(&["critical"]))
        .build()
        .unwrap();
    let critical = Place { level: "INFO", target: "critical", name: "Critical event" };

    // Interleave exempt and regular events
    for i in 0..10 {
        if i % 2 == 0 {
            emit(&mut layer, &critical, &[], &[]);
        } else {
            emit(&mut layer, &info("Regular event"), &[], &[]);
        }
    }

    let metrics = layer.metrics();

    // 5 critical (all allowed) + 3 regular (first 3 allowed) = 8 allowed
    assert_eq!(metrics.events_allowed(), 8);

    // 2 regular events suppressed
    assert_eq!(metrics.events_suppressed(), 2);
}

#[test]
fn test_empty_exempt_targets() {
    let mut layer = TracingRateLimitLayer::builder()
        .with_policy(Policy::count_based(2).unwrap())
        .with_exempt_targets(vec![])
        .build()
        .unwrap();
    emit_many(&mut layer, 5, &info("Event"), &[], &[]);

    // No exemptions, normal throttling applies
    assert_eq!(layer.metrics().events_allowed(), 2);
    assert_eq!(layer.metrics().events_suppressed(), 3);
}

#[test]
fn test_exempt_targets_with_different_levels() {
    let mut layer = TracingRateLimitLayer::builder()
        .with_policy(Policy::count_based(1).unwrap())
        .with_exempt_targets(names(&["audit"]))
        .build()
        .unwrap();
    for level in ["INFO", "WARN", "ERROR"] {
        let place = Place { level, target: "audit", name: "Audit" };
        emit_many(&mut layer, 3, &place, &[], &[]);
    }

    // All 9 audit events allowed (3 info + 3 warn + 3 error)
    assert_eq!(layer.metrics().events_allowed(), 9);
    assert_eq!(layer.metrics().events_suppressed(), 0);
}

// --- eviction ------------------------------------------------------------------------------

fn by_level() -> PriorityFn<EventSignature, EventState> {
    PriorityFn(Arc::new(Box::new(|_sig: &EventSignature, state: &EventState| {
        match state.metadata.as_ref().map(|m| m.level.as_str()) {
            Some("ERROR") => 100,
            Some("WARN") => 50,
            Some("INFO") => 10,
            _ => 5,
        }
    })))
}

#[test]
fn test_lru_eviction_with_max_signatures() {
    let mut layer = TracingRateLimitLayer::builder()
        .with_policy(Policy::token_bucket(1000, 100).unwrap())
        .with_max_signatures(5) // Only allow 5 signatures
        .build()
        .unwrap();

    // Generate 10 unique signatures
    for name in ["0", "1", "2", "3", "4", "5", "6", "7", "8", "9"] {
        emit(&mut layer, &info(name), &[], &[]);
    }

    // Should have evicted approximately 5 signatures (10 - 5 = 5)
    let evictions = layer.metrics().signatures_evicted();
    assert!((4..=6).contains(&evictions), "Expected ~5 evictions, got {}", evictions);

    // Verify signature count is at the limit
    assert_eq!(layer.signature_count(), 5);
}

#[test]
fn test_priority_eviction_keeps_high_priority() {
    let mut layer = TracingRateLimitLayer::builder()
        .with_policy(Policy::token_bucket(1000, 100).unwrap())
        .with_max_signatures(3)
        .with_eviction_strategy(EvictionStrategy::Priority(by_level()))
        .build()
        .unwrap();

    // First, emit ERROR events to fill the cache with high-priority items
    emit(&mut layer, &error("Error message 1"), &[], &[]);
    emit(&mut layer, &error("Error message 2"), &[], &[]);

    // Add one INFO message
    emit(&mut layer, &info("Info message 1"), &[], &[]);

    // All three should fit
    assert_eq!(layer.signature_count(), 3);

    // Now add more INFO messages - they should evict existing INFO, not ERROR
    emit(&mut layer, &info("Info message 2"), &[], &[]);
    emit(&mut layer, &info("Info message 3"), &[], &[]);

    // Still at limit
    assert_eq!(layer.signature_count(), 3);

    // The INFO messages should have been evicted, ERROR should remain
    let evictions = layer.metrics().signatures_evicted();
    assert!(evictions >= 2, "Expected at least 2 evictions (INFO messages), got {}", evictions);
    let levels = layer
        .limiter()
        .registry()
        .for_each(|_sig, state| state.metadata.as_ref().unwrap().level.clone());
    assert_eq!(levels.iter().filter(|l| l.as_str() == "ERROR").count(), 2);
}

#[test]
fn test_memory_based_eviction() {
    let mut layer = TracingRateLimitLayer::builder()
        .with_policy(Policy::token_bucket(1000, 100).unwrap())
        .with_eviction_strategy(EvictionStrategy::Memory {
            max_bytes: 800, // Small enough that ~4-5 entries will exceed it
        })
        .build()
        .unwrap();

    // Generate unique messages to exceed memory limit
    for name in ["0", "1", "2", "3", "4", "5", "6", "7", "8", "9"] {
        emit(&mut layer, &info(name), &[], &[]);
    }

    // Should have triggered evictions due to memory pressure
    let evictions = layer.metrics().signatures_evicted();
    assert!(evictions > 0, "Expected evictions due to memory limit, got 0");

    // Signature count should be limited by memory, not unbounded
    let sig_count = layer.signature_count();
    assert!(sig_count < 10, "Expected memory limit to constrain signatures, got {}", sig_count);
}

#[test]
fn test_priority_with_memory_combined() {
    let mut layer = TracingRateLimitLayer::builder()
        .with_policy(Policy::token_bucket(1000, 100).unwrap())
        .with_max_signatures(10)
        .with_eviction_strategy(EvictionStrategy::PriorityWithMemory {
            priority_fn: by_level(),
            max_bytes: 1000, // Very small memory limit
        })
        .build()
        .unwrap();

    // First emit ERROR events
    for name in ["Err A", "Err B", "Err C"] {
        emit(&mut layer, &error(name), &[], &[]);
    }

    // Then emit INFO events - should trigger eviction due to memory
    for name in ["Info A", "Info B", "Info C", "Info D", "Info E"] {
        emit(&mut layer, &info(name), &[], &[]);
    }

    // Should have evicted some signatures
    let evictions = layer.metrics().signatures_evicted();
    assert!(evictions > 0, "Expected evictions, got 0");
}

type Strategy = EvictionStrategy<EventSignature, EventState>;

fn one() -> PriorityFn<EventSignature, EventState> {
    PriorityFn(Arc::new(Box::new(|_: &EventSignature, _: &EventState| 1)))
}

#[test]
fn test_eviction_strategy_tracks_memory() {
    let lru = Strategy::Lru;
    assert!(!lru.tracks_memory());

    let priority = Strategy::Priority(one());
    assert!(!priority.tracks_memory());

    let memory = Strategy::Memory { max_bytes: 1000 };
    assert!(memory.tracks_memory());

    let combined = Strategy::PriorityWithMemory { priority_fn: one(), max_bytes: 1000 };
    assert!(combined.tracks_memory());
}

#[test]
fn test_eviction_strategy_memory_limit() {
    let lru = Strategy::Lru;
    assert_eq!(lru.memory_limit(), None);

    let memory = Strategy::Memory { max_bytes: 5000 };
    assert_eq!(memory.memory_limit(), Some(5000));

    let combined = Strategy::PriorityWithMemory { priority_fn: one(), max_bytes: 10000 };
    assert_eq!(combined.memory_limit(), Some(10000));
}

#[test]
fn test_eviction_strategy_uses_priority() {
    let lru = Strategy::Lru;
    assert!(!lru.uses_priority());

    let priority = Strategy::Priority(one());
    assert!(priority.uses_priority());

    let memory = Strategy::Memory { max_bytes: 1000 };
    assert!(!memory.uses_priority());

    let combined = Strategy::PriorityWithMemory { priority_fn: one(), max_bytes: 1000 };
    assert!(combined.uses_priority());
}

#[test]
fn test_no_eviction_with_unlimited_signatures() {
    let mut layer = TracingRateLimitLayer::builder()
        .with_policy(Policy::token_bucket(1000, 100).unwrap())
        .with_unlimited_signatures()
        .build()
        .unwrap();

    for name in ["0", "1", "2", "3", "4", "5", "6", "7", "8", "9"] {
        emit(&mut layer, &info(name), &[], &[]);
    }

    // Should not have evicted any signatures
    assert_eq!(layer.metrics().signatures_evicted(), 0);

    // All signatures should be tracked
    assert_eq!(layer.signature_count(), 10);
}

#[test]
fn test_lru_evicts_oldest_accessed() {
    let mut layer = TracingRateLimitLayer::builder()
        .with_policy(Policy::token_bucket(1000, 100).unwrap())
        .with_max_signatures(3)
        .build()
        .unwrap();

    // Create 3 signatures
    for name in ["Message A", "Message B", "Message C"] {
        emit(&mut layer, &info(name), &[], &[]);
    }
    assert_eq!(layer.signature_count(), 3);

    // Access A and B to refresh them
    emit(&mut layer, &info("Message A"), &[], &[]);
    emit(&mut layer, &info("Message B"), &[], &[]);

    // Now add new signatures - should evict C and potentially others (LRU)
    for name in ["Message D", "Message E", "Message F"] {
        emit(&mut layer, &info(name), &[], &[]);
    }

    // Should still be at limit
    assert_eq!(layer.signature_count(), 3);

    // Should have evicted at least 3 signatures to make room
    let evictions = layer.metrics().signatures_evicted();
    assert!(evictions >= 3, "Expected at least 3 evictions, got {}", evictions);
}

// --- what a summary says -------------------------------------------------------------------

#[test]
fn an_event_is_described_by_its_message() {
    let layer = per_event("user_id");
    let event = EventRecord {
        level: "INFO".to_string(),
        name: "event src/main.rs:7".to_string(),
        target: "app".to_string(),
        fields: fields(&[("message", "Login"), ("user_id", "7"), ("ip", "::1")]),
    };
    let (signature, metadata) = layer.describe(&event, &vec![]);
    assert_eq!(metadata.format_detailed(), "[INFO] app: Login {user_id=\"7\"}");
    assert_eq!(
        signature,
        EventSignature::new(
            "INFO",
            "event src/main.rs:7",
            &fields(&[("user_id", "7")]),
            Some("app")
        )
    );

    let silent = EventRecord { fields: fields(&[]), ..event };
    let (_, metadata) = layer.describe(&silent, &vec![]);
    assert_eq!(metadata.format_brief(), "[INFO] app: event src/main.rs:7");
}
