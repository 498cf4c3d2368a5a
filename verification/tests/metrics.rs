//! Counts for monitoring.
use tracing_throttle::{Metrics, MetricsSnapshot};

/// The share of suppressed events as a number.
fn rate(metrics: &Metrics) -> f64 {
    let (suppressed, total) = metrics.snapshot().suppression_ratio();
    suppressed as f64 / total as f64
}

#[test]
fn test_metrics_initial_state() {
    let metrics = Metrics::new();
    assert_eq!(metrics.events_allowed(), 0);
    assert_eq!(metrics.events_suppressed(), 0);
    assert_eq!(metrics.signatures_evicted(), 0);
}

#[test]
fn test_record_allowed() {
    let metrics = Metrics::new();
    metrics.record_allowed();
    metrics.record_allowed();
    metrics.record_allowed();
    assert_eq!(metrics.events_allowed(), 3);
    assert_eq!(metrics.events_suppressed(), 0);
}

#[test]
fn test_record_suppressed() {
    let metrics = Metrics::new();
    metrics.record_suppressed();
    metrics.record_suppressed();
    assert_eq!(metrics.events_allowed(), 0);
    assert_eq!(metrics.events_suppressed(), 2);
}

#[test]
fn test_record_eviction() {
    let metrics = Metrics::new();
    metrics.record_eviction();
    assert_eq!(metrics.signatures_evicted(), 1);
}

#[test]
fn test_snapshot() {
    let metrics = Metrics::new();
    metrics.record_allowed();
    metrics.record_allowed();
    metrics.record_suppressed();
    metrics.record_eviction();

    let snapshot = metrics.snapshot();
    assert_eq!(snapshot.events_allowed, 2);
    assert_eq!(snapshot.events_suppressed, 1);
    assert_eq!(snapshot.signatures_evicted, 1);
}

#[test]
fn test_snapshot_suppression_rate() {
    let metrics = Metrics::new();

    // No events - rate should be 0
    assert_eq!(rate(&metrics), 0.0);

    // 1 allowed, 0 suppressed - rate should be 0
    metrics.record_allowed();
    assert_eq!(rate(&metrics), 0.0);

    // 1 allowed, 1 suppressed - rate should be 0.5
    metrics.record_suppressed();
    assert!((rate(&metrics) - 0.5).abs() < f64::EPSILON);

    // 1 allowed, 3 suppressed - rate should be 0.75
    metrics.record_suppressed();
    metrics.record_suppressed();
    assert!((rate(&metrics) - 0.75).abs() < f64::EPSILON);
}

#[test]
fn test_snapshot_total_events() {
    let metrics = Metrics::new();
    assert_eq!(metrics.snapshot().total_events(), 0);

    metrics.record_allowed();
    metrics.record_allowed();
    metrics.record_suppressed();
    assert_eq!(metrics.snapshot().total_events(), 3);
}

#[test]
fn metrics_test_reset() {
    let metrics = Metrics::new();
    metrics.record_allowed();
    metrics.record_suppressed();
    metrics.record_eviction();

    metrics.reset();
    assert_eq!(metrics.events_allowed(), 0);
    assert_eq!(metrics.events_suppressed(), 0);
    assert_eq!(metrics.signatures_evicted(), 0);
}

#[test]
fn test_metrics_clone() {
    let metrics1 = Metrics::new();
    metrics1.record_allowed();

    let metrics2 = metrics1.clone();
    metrics2.record_allowed();

    // Both should see the same count (shared state)
    assert_eq!(metrics1.events_allowed(), 2);
    assert_eq!(metrics2.events_allowed(), 2);
}

#[test]
fn a_reset_reaches_every_holder() {
    let metrics1 = Metrics::new();
    let metrics2 = metrics1.clone();
    metrics1.record_allowed();
    metrics1.record_suppressed();
    metrics2.record_eviction();
    assert_eq!(
        metrics1.snapshot(),
        MetricsSnapshot { events_allowed: 1, events_suppressed: 1, signatures_evicted: 1 }
    );
    metrics2.reset();
    assert_eq!(metrics1.snapshot(), MetricsSnapshot::zero());
    // Others do not see it.
    let metrics3 = Metrics::default();
    metrics3.record_allowed();
    assert_eq!(metrics1.events_allowed(), 0);
}

#[test]
fn counts_start_over_after_the_largest_number() {
    let full = MetricsSnapshot {
        events_allowed: u64::MAX,
        events_suppressed: u64::MAX,
        signatures_evicted: u64::MAX - 1,
    };
    assert_eq!(full.plus_allowed().events_allowed, 0);
    assert_eq!(full.plus_suppressed().events_suppressed, 0);
    assert_eq!(full.plus_evictions(3).signatures_evicted, 1);
}
