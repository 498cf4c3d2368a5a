//! Suppression counters and summaries.
#![allow(unused_mut)]
use tracing_throttle::{
    Duration, EventMetadata, EventSignature, FieldMap, Instant, SuppressionCounter,
    SuppressionSummary,
};

/// Some point in time, with years before it and after it.
fn now() -> Instant {
    Instant::from_nanos(400_000_000_000_000_000)
}

#[test]
fn test_suppression_counter_basic() {
    let now = now();
    let mut counter = SuppressionCounter::new(now);

    assert_eq!(counter.count(), 0);
    assert_eq!(counter.reported_count(), 0);
    assert_eq!(counter.unreported_count(), 0);

    counter.record_suppression(now);
    assert_eq!(counter.count(), 1);
    assert_eq!(counter.unreported_count(), 1);

    counter.record_suppression(now);
    assert_eq!(counter.count(), 2);
    assert_eq!(counter.unreported_count(), 2);
}

#[test]
fn test_claim_unreported_suppressions() {
    let now = now();
    let mut counter = SuppressionCounter::new(now);

    counter.record_suppression(now);
    counter.record_suppression(now);

    let claim = counter.claim_unreported(1).expect("claim should exist");
    assert_eq!(claim.count, 2);
    assert_eq!(claim.total_count, 2);
    assert_eq!(counter.reported_count(), 2);
    assert_eq!(counter.unreported_count(), 0);

    assert!(
        counter.claim_unreported(1).is_none(),
        "already claimed suppressions should not be claimed again"
    );

    counter.record_suppression(now);
    let claim = counter.claim_unreported(1).expect("new claim should exist");
    assert_eq!(claim.count, 1);
    assert_eq!(claim.total_count, 3);
}

#[test]
fn test_claim_unreported_uses_first_new_suppression_timestamp() {
    let now = now();
    let mut counter = SuppressionCounter::new(now);

    counter.record_suppression(now + Duration::from_secs(1));
    let first_claim = counter.claim_unreported(1).expect("claim should exist");
    assert_eq!(first_claim.first_suppressed, now + Duration::from_secs(1));
    assert_eq!(first_claim.last_suppressed, now + Duration::from_secs(1));

    counter.record_suppression(now + Duration::from_secs(60));
    let second_claim = counter.claim_unreported(1).expect("claim should exist");
    assert_eq!(second_claim.count, 1);
    assert_eq!(second_claim.first_suppressed, now + Duration::from_secs(60));
    assert_eq!(second_claim.last_suppressed, now + Duration::from_secs(60));
    assert_eq!(second_claim.duration, Duration::zero());
}

#[test]
fn test_claim_unreported_respects_min_count() {
    let now = now();
    let mut counter = SuppressionCounter::new(now);

    for _ in 0..4 {
        counter.record_suppression(now);
    }

    assert!(counter.claim_unreported(5).is_none());
    assert_eq!(counter.reported_count(), 0);
    assert_eq!(counter.unreported_count(), 4);

    counter.record_suppression(now);
    let claim = counter.claim_unreported(5).expect("claim should exist");
    assert_eq!(claim.count, 5);
    assert_eq!(counter.reported_count(), 5);
}

#[test]
fn test_claim_unreported_min_count_zero_requires_suppressions() {
    let now = now();
    let mut counter = SuppressionCounter::new(now);

    assert!(
        counter.claim_unreported(0).is_none(),
        "zero min_count should not create an empty claim"
    );

    counter.record_suppression(now);
    let claim = counter.claim_unreported(0).expect("claim should exist");
    assert_eq!(claim.count, 1);

    assert!(
        counter.claim_unreported(0).is_none(),
        "reported suppressions should not create a zero-count claim"
    );
}

#[test]
fn test_rollback_claim_restores_unreported_suppressions() {
    let now = now();
    let mut counter = SuppressionCounter::new(now);

    counter.record_suppression(now);
    counter.record_suppression(now);

    let claim = counter.claim_unreported(1).expect("claim should exist");
    assert_eq!(counter.reported_count(), 2);
    assert_eq!(counter.unreported_count(), 0);

    assert!(counter.rollback_claim(&claim));
    assert_eq!(counter.reported_count(), 0);
    assert_eq!(counter.unreported_count(), 2);

    let claim = counter
        .claim_unreported(1)
        .expect("rolled back suppressions should be claimable again");
    assert_eq!(claim.count, 2);
}

#[test]
fn test_rollback_superseded_claim_restores_full_unreported_range() {
    let now = now();
    let mut counter = SuppressionCounter::new(now);

    counter.record_suppression(now + Duration::from_secs(1));
    counter.record_suppression(now + Duration::from_secs(2));
    let first_claim = counter.claim_unreported(1).expect("claim should exist");

    counter.record_suppression(now + Duration::from_secs(3));
    let second_claim = counter
        .claim_unreported(1)
        .expect("later claim should exist");
    assert_eq!(second_claim.count, 1);
    assert_eq!(counter.reported_count(), 3);

    assert!(counter.rollback_claim(&first_claim));
    assert_eq!(counter.reported_count(), 0);
    assert_eq!(counter.unreported_count(), 3);

    let retry_claim = counter
        .claim_unreported(1)
        .expect("rolled back suppressions should retry");
    assert_eq!(retry_claim.count, 3);
    assert_eq!(retry_claim.first_suppressed, now + Duration::from_secs(1));
    assert_eq!(retry_claim.last_suppressed, now + Duration::from_secs(3));
}

#[test]
fn test_suppression_counter_timestamps() {
    let start = now();
    let mut counter = SuppressionCounter::new(start);

    let later = start + Duration::from_millis(10);
    counter.record_suppression(later);

    let first = counter.first_suppressed();
    let last = counter.last_suppressed();

    // First should be approximately the first recorded suppression
    assert!(first.saturating_duration_since(later) < Duration::from_millis(5));

    // Last should be approximately later
    assert!(last.saturating_duration_since(later) < Duration::from_millis(5));
}

#[test]
fn test_suppression_counter_reset() {
    let now = now();
    let mut counter = SuppressionCounter::new(now);

    counter.record_suppression(now);
    counter.record_suppression(now);
    assert_eq!(counter.count(), 2);

    counter.reset(now);
    assert_eq!(counter.count(), 0);
    assert_eq!(counter.reported_count(), 0);
    assert_eq!(counter.unreported_count(), 0);
}

#[test]
fn test_suppression_summary_creation() {
    let sig = EventSignature::simple("INFO", "Test message");
    let start = now();
    let mut counter = SuppressionCounter::new(start);

    let first = now();
    counter.record_suppression(first);
    counter.record_suppression(first + Duration::from_millis(10));

    let summary = SuppressionSummary::from_counter(sig, &counter);

    assert_eq!(summary.signature, sig);
    assert_eq!(summary.count, 2);
    assert!(summary.duration >= Duration::from_millis(10));
}

#[test]
fn test_suppression_summary_message() {
    let sig = EventSignature::simple("INFO", "Test");
    let now = now();
    let mut counter = SuppressionCounter::new(now);
    counter.record_suppression(now);

    let summary = SuppressionSummary::from_counter(sig, &counter);
    let message = summary.format_message();

    assert!(message.contains("suppressed 1 times"));
    assert!(message.contains(&sig.to_string()));
}

#[test]
fn test_very_large_suppression_count() {
    let now = now();
    let mut counter = SuppressionCounter::new(now);

    // Simulate a very large number of suppressions
    for _ in 0..10_000 {
        counter.record_suppression(now);
    }

    assert_eq!(counter.count(), 10_000);
}

#[test]
fn test_zero_duration_summary() {
    let sig = EventSignature::simple("INFO", "Test");
    let now = now();
    let mut counter = SuppressionCounter::new(now);

    // Immediately create summary (same timestamp)
    let summary = SuppressionSummary::from_counter(sig, &counter);

    assert_eq!(summary.count, 0);
    assert!(summary.duration < Duration::from_millis(1));
}

#[test]
fn test_reset_multiple_times() {
    let now = now();
    let mut counter = SuppressionCounter::new(now);

    counter.record_suppression(now);
    assert_eq!(counter.count(), 1);

    counter.reset(now);
    assert_eq!(counter.count(), 0);

    counter.record_suppression(now);
    assert_eq!(counter.count(), 1);

    counter.reset(now);
    assert_eq!(counter.count(), 0);
}

#[test]
fn test_clone_preserves_state() {
    let now = now();
    let mut counter = SuppressionCounter::new(now);

    counter.record_suppression(now);
    counter.record_suppression(now);

    let cloned = counter.clone();

    assert_eq!(counter.count(), cloned.count());
    assert_eq!(counter.reported_count(), cloned.reported_count());
    assert_eq!(counter.first_suppressed(), cloned.first_suppressed());
    assert_eq!(counter.last_suppressed(), cloned.last_suppressed());
}

#[test]
fn test_clone_independence() {
    let now = now();
    let mut counter1 = SuppressionCounter::new(now);
    let counter2 = counter1.clone();

    // Modify counter1
    counter1.record_suppression(now);
    let _claim = counter1.claim_unreported(1);

    // counter2 should not be affected
    assert_eq!(counter1.count(), 1);
    assert_eq!(counter1.reported_count(), 1);
    assert_eq!(counter2.count(), 0);
    assert_eq!(counter2.reported_count(), 0);
}

#[test]
fn test_very_large_suppression_count_stress() {
    let now = now();
    let mut counter = SuppressionCounter::new(now);

    // Simulate a huge number of suppressions
    for _ in 0..100_000 {
        counter.record_suppression(now);
    }

    assert_eq!(counter.count(), 100_000);
}

#[test]
fn test_timestamp_persistence_over_time() {
    let start = now();
    let mut counter = SuppressionCounter::new(start);

    // Record suppressions over time
    for i in 1..=10 {
        let timestamp = start + Duration::from_millis(i * 100);
        counter.record_suppression(timestamp);
    }

    // First recorded suppression timestamp should be preserved
    let first = counter.first_suppressed();
    let expected_first = start + Duration::from_millis(100);
    let duration_from_first = first.duration_since(expected_first);
    assert!(duration_from_first < Duration::from_millis(10));

    // Last timestamp should be the most recent
    let last = counter.last_suppressed();
    let expected_last = start + Duration::from_millis(1000);
    let duration_diff = last.duration_since(expected_last);
    assert!(duration_diff < Duration::from_millis(10));
}

#[test]
fn test_epoch_overflow_handling() {
    // Test with duration that would overflow u64 nanoseconds
    let base = SuppressionCounter::base_instant();
    let now = base;

    let mut counter = SuppressionCounter::new(now);

    // Try to record at a time far in the future
    // Duration::from_secs(u64::MAX / 1_000_000_000) would be ~584 years
    // This tests saturation behavior
    let far_future = now + Duration::from_secs(600 * 365 * 24 * 3600); // 600 years

    counter.record_suppression(far_future);

    // Should not panic, timestamps should saturate gracefully
    let _first = counter.first_suppressed();
    let _last = counter.last_suppressed();
    assert!(counter.count() > 0);
}

#[test]
fn test_base_instant_consistency() {
    // base_instant should be consistent across calls
    let base1 = SuppressionCounter::base_instant();
    let base2 = SuppressionCounter::base_instant();

    assert_eq!(base1, base2, "base_instant should be consistent");
}

#[test]
fn test_nanos_conversion_roundtrip() {
    let now = now();
    let mut counter = SuppressionCounter::new(now);

    // Convert to nanos and back
    let first = counter.first_suppressed();
    let last = counter.last_suppressed();

    // Both should be close to 'now'
    assert!(first.duration_since(now) < Duration::from_millis(10));
    assert!(last.duration_since(now) < Duration::from_millis(10));
}

#[test]
fn test_summary_with_zero_duration() {
    let sig = EventSignature::simple("INFO", "Test");
    let now = now();
    let mut counter = SuppressionCounter::new(now);

    // Create summary immediately - same timestamp for first and last
    let summary = SuppressionSummary::from_counter(sig, &counter);

    assert_eq!(summary.count, 0);
    assert_eq!(summary.duration, Duration::from_secs(0));
    assert_eq!(summary.first_suppressed, summary.last_suppressed);
}

#[test]
fn test_snapshot_roundtrip() {
    let now = now();
    let mut counter = SuppressionCounter::new(now);

    counter.record_suppression(now + Duration::from_secs(1));
    counter.record_suppression(now + Duration::from_secs(2));
    let _claim = counter.claim_unreported(1);
    counter.record_suppression(now + Duration::from_secs(3));

    let snapshot = counter.snapshot();

    let restored = SuppressionCounter::from_snapshot(
        snapshot.suppressed_count,
        snapshot.first_suppressed,
        snapshot.last_suppressed,
    );

    assert_eq!(counter.count(), restored.count());
    assert_eq!(0, restored.reported_count());

    let restored_with_reported = SuppressionCounter::from_snapshot_with_reported(
        snapshot.suppressed_count,
        snapshot.reported_count,
        snapshot.first_suppressed,
        snapshot.last_suppressed,
        snapshot.last_reported,
    );
    assert_eq!(counter.count(), restored_with_reported.count());
    assert_eq!(
        counter.reported_count(),
        restored_with_reported.reported_count()
    );

    let restored_with_unreported =
        SuppressionCounter::from_snapshot_with_reported_and_first_unreported(
            snapshot.suppressed_count,
            snapshot.reported_count,
            snapshot.first_suppressed,
            snapshot.last_suppressed,
            snapshot.last_reported,
            snapshot.first_unreported,
        );
    assert_eq!(counter.count(), restored_with_unreported.count());
    assert_eq!(
        counter.reported_count(),
        restored_with_unreported.reported_count()
    );

    // Note: timestamps may have slight differences due to serialization precision
    let first_diff = counter
        .first_suppressed()
        .duration_since(restored.first_suppressed());
    let last_diff = counter
        .last_suppressed()
        .duration_since(restored.last_suppressed());
    let last_reported_diff = counter
        .last_reported()
        .duration_since(restored_with_reported.last_reported());
    let first_unreported_diff = counter
        .first_unreported()
        .duration_since(restored_with_unreported.first_unreported());

    assert!(first_diff < Duration::from_millis(1));
    assert!(last_diff < Duration::from_millis(1));
    assert!(last_reported_diff < Duration::from_millis(1));
    assert!(first_unreported_diff < Duration::from_millis(1));
}

#[test]
fn messages_are_written_out() {
    let sig = EventSignature::from_hash(0x2845_015f_ad80_b28f);
    let start = now();
    let mut counter = SuppressionCounter::new(start);
    for i in 0..18 {
        counter.record_suppression(start + Duration::from_millis(100 * i));
    }
    let summary = SuppressionSummary::from_counter(sig, &counter);
    assert_eq!(
        summary.format_message(),
        "Event suppressed 18 times over 1.7s (signature: 2845015fad80b28f)"
    );
    assert_eq!(summary.format_detailed(), summary.format_message());

    let mut fields = FieldMap::new();
    fields.insert("b".to_string(), "2".to_string());
    fields.insert("a".to_string(), "1".to_string());
    let metadata = EventMetadata::new(
        "INFO".to_string(),
        "Login".to_string(),
        "app".to_string(),
        fields,
    );
    let summary =
        SuppressionSummary::from_counter_with_metadata(sig, &counter, Some(metadata.clone()));
    assert_eq!(summary.format_message(), "Suppressed 18 times over 1.70s: [INFO] app: Login");
    assert_eq!(
        summary.format_detailed(),
        "Suppressed 18 times over 1.70s: [INFO] app: Login {a=\"1\", b=\"2\"}"
    );
    assert_eq!(
        summary.format_message_with("3", "3s"),
        "Suppressed 18 times over 3s: [INFO] app: Login"
    );

    let claim = counter.claim_unreported(1).unwrap();
    let summary = SuppressionSummary::from_claim(sig, claim);
    assert_eq!(summary.count, 18);
    assert_eq!(summary.duration, Duration::from_millis(1700));
    let summary = SuppressionSummary::from_claim_with_metadata(sig, claim, Some(metadata));
    assert_eq!(summary.format_message(), "Suppressed 18 times over 1.70s: [INFO] app: Login");
}

#[test]
fn claims_and_the_rest_add_up() {
    let start = now();
    let mut counter = SuppressionCounter::new(start);
    let mut claimed = 0;
    for i in 0..100 {
        counter.record_suppression(start);
        if i % 7 == 0 {
            if let Some(claim) = counter.claim_unreported(5) {
                claimed += claim.count;
            }
        }
    }
    assert_eq!(claimed + counter.unreported_count(), 100);
    assert_eq!(claimed, counter.reported_count());
}

#[test]
fn rollback_of_a_claim_that_is_not_reached() {
    let start = now();
    let mut counter = SuppressionCounter::new(start);
    counter.record_suppression(start);
    let claim = counter.claim_unreported(1).unwrap();
    counter.reset(start);
    // The cursor is where the claim began, so there is nothing to undo.
    assert!(counter.rollback_claim(&claim));
    assert_eq!(counter.reported_count(), 0);

    let mut other = SuppressionCounter::from_snapshot_with_reported(9, 3, start, start, start);
    let far = tracing_throttle::domain::summary::ClaimedSuppressions { total_count: 5, ..claim };
    assert!(!other.rollback_claim(&far));
    assert_eq!(other.reported_count(), 3);
}

#[test]
fn no_more_is_reported_than_there_was() {
    let counter = SuppressionCounter::from_snapshot_with_reported(4, 9, now(), now(), now());
    assert_eq!(counter.reported_count(), 4);
    assert_eq!(counter.unreported_count(), 0);
}

#[test]
fn times_beyond_the_range_are_cut_off() {
    let far = Instant::from_nanos(u64::MAX as u128 + 5);
    assert_eq!(SuppressionCounter::instant_to_nanos(far), u64::MAX);
    assert_eq!(
        SuppressionCounter::nanos_to_instant(u64::MAX),
        Instant::from_nanos(u64::MAX as u128)
    );
}

#[test]
fn standing_claims_and_the_rest_add_up() {
    let now = now();
    let at = |n: u64| now + Duration::from_secs(n);
    let mut counter = SuppressionCounter::new(now);
    for n in 0..5 {
        counter.record_suppression(at(n));
    }
    let first = counter.claim_unreported(1).unwrap();
    for n in 5..8 {
        counter.record_suppression(at(n));
    }
    let second = counter.claim_unreported(1).unwrap();
    assert_eq!(counter.reported_count(), first.count + second.count);

    // The second claim is taken back, and made again with what came meanwhile.
    assert!(counter.rollback_claim(&second));
    counter.record_suppression(at(8));
    let third = counter.claim_unreported(1).unwrap();
    assert_eq!(third.count, 4);
    assert_eq!(counter.reported_count(), first.count + third.count);

    // With the first claim all later ones go.
    assert!(counter.rollback_claim(&first));
    assert_eq!(counter.reported_count(), 0);
    assert_eq!(counter.unreported_count(), 9);

    counter.reset(at(20));
    assert_eq!(counter.reported_count() + counter.unreported_count(), 0);
    counter.record_suppression(at(21));
    assert_eq!(counter.claim_unreported(1).unwrap().count, counter.count());
}

#[test]
fn the_first_suppression_is_kept() {
    let now = now();
    let at = |n: u64| now + Duration::from_secs(n);
    let mut counter = SuppressionCounter::new(now);
    assert_eq!(counter.first_suppressed(), now);
    counter.record_suppression(at(3));
    counter.record_suppression(at(2));
    assert_eq!(counter.first_suppressed(), at(3));
    let claim = counter.claim_unreported(1).unwrap();
    counter.record_suppression(at(4));
    counter.rollback_claim(&claim);
    assert_eq!(counter.first_suppressed(), at(3));
    counter.reset(at(10));
    assert_eq!(counter.first_suppressed(), at(10));
    counter.record_suppression(at(11));
    counter.record_suppression(at(12));
    assert_eq!(counter.first_suppressed(), at(11));
}
