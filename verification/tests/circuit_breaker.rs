//! The circuit breaker.
use tracing_throttle::{CircuitBreaker, CircuitBreakerConfig, CircuitState, Duration, Instant};

#[test]
fn test_initial_state() {
    let mut cb = CircuitBreaker::new();
    assert_eq!(cb.state(), CircuitState::Closed);
    assert_eq!(cb.consecutive_failures(), 0);
    assert!(cb.allow_request());
}

#[test]
fn test_failure_threshold() {
    let config = CircuitBreakerConfig {
        failure_threshold: 3,
        recovery_timeout: Duration::from_secs(1),
    };
    let mut cb = CircuitBreaker::with_config(config);

    // Record failures below threshold
    cb.record_failure();
    assert_eq!(cb.state(), CircuitState::Closed);
    assert_eq!(cb.consecutive_failures(), 1);

    cb.record_failure();
    assert_eq!(cb.state(), CircuitState::Closed);
    assert_eq!(cb.consecutive_failures(), 2);

    // Third failure should open circuit
    cb.record_failure();
    assert_eq!(cb.state(), CircuitState::Open);
    assert_eq!(cb.consecutive_failures(), 3);
}

#[test]
fn test_fail_open_when_circuit_open() {
    let config = CircuitBreakerConfig {
        failure_threshold: 2,
        recovery_timeout: Duration::from_secs(10),
    };
    let mut cb = CircuitBreaker::with_config(config);

    // Open circuit
    cb.record_failure();
    cb.record_failure();
    assert_eq!(cb.state(), CircuitState::Open);

    // Should fail open (return false to allow request through)
    assert!(!cb.allow_request());
}

#[test]
fn test_recovery_after_timeout() {
    let mut now = Instant::base();
    let config = CircuitBreakerConfig {
        failure_threshold: 2,
        recovery_timeout: Duration::from_millis(100),
    };
    let mut cb = CircuitBreaker::with_config(config);

    // Open circuit
    cb.record_failure_at(now);
    cb.record_failure_at(now);
    assert_eq!(cb.state(), CircuitState::Open);

    // Wait for recovery timeout
    now = now + Duration::from_millis(150);

    // Should transition to half-open
    assert!(cb.allow_request_at(now));
    assert_eq!(cb.state(), CircuitState::HalfOpen);
}

#[test]
fn test_half_open_success_closes_circuit() {
    let mut now = Instant::base();
    let config = CircuitBreakerConfig {
        failure_threshold: 2,
        recovery_timeout: Duration::from_millis(100),
    };
    let mut cb = CircuitBreaker::with_config(config);

    // Open circuit
    cb.record_failure_at(now);
    cb.record_failure_at(now);
    assert_eq!(cb.state(), CircuitState::Open);

    // Wait for recovery
    now = now + Duration::from_millis(150);
    cb.allow_request_at(now); // Transition to half-open

    // Record success should close circuit
    cb.record_success();
    assert_eq!(cb.state(), CircuitState::Closed);
    assert_eq!(cb.consecutive_failures(), 0);
}

#[test]
fn test_half_open_failure_reopens_circuit() {
    let mut now = Instant::base();
    let config = CircuitBreakerConfig {
        failure_threshold: 2,
        recovery_timeout: Duration::from_millis(100),
    };
    let mut cb = CircuitBreaker::with_config(config);

    // Open circuit
    cb.record_failure_at(now);
    cb.record_failure_at(now);

    // Wait for recovery
    now = now + Duration::from_millis(150);
    cb.allow_request_at(now); // Transition to half-open

    // Record failure should reopen circuit
    cb.record_failure_at(now);
    assert_eq!(cb.state(), CircuitState::Open);
}

#[test]
fn test_success_resets_failure_count() {
    let mut cb = CircuitBreaker::new();

    cb.record_failure();
    cb.record_failure();
    assert_eq!(cb.consecutive_failures(), 2);

    cb.record_success();
    assert_eq!(cb.consecutive_failures(), 0);
    assert_eq!(cb.state(), CircuitState::Closed);
}

#[test]
fn circuit_breaker_test_reset() {
    let config = CircuitBreakerConfig {
        failure_threshold: 2,
        recovery_timeout: Duration::from_secs(10),
    };
    let mut cb = CircuitBreaker::with_config(config);

    // Open circuit
    cb.record_failure();
    cb.record_failure();
    assert_eq!(cb.state(), CircuitState::Open);

    // Reset should close circuit
    cb.reset();
    assert_eq!(cb.state(), CircuitState::Closed);
    assert_eq!(cb.consecutive_failures(), 0);
    assert!(cb.allow_request());
}

#[test]
fn test_clone() {
    let mut cb1 = CircuitBreaker::new();
    cb1.record_failure();

    let mut cb2 = cb1.clone();

    // Clone should have same failure count
    assert_eq!(cb2.consecutive_failures(), 1);

    // But they're independent
    cb2.record_failure();
    assert_eq!(cb1.consecutive_failures(), 1);
    assert_eq!(cb2.consecutive_failures(), 2);
}

#[test]
fn test_time_going_backwards() {
    let mut now = Instant::base();
    // This tests that the circuit breaker handles system clock adjustments gracefully
    let config = CircuitBreakerConfig {
        failure_threshold: 2,
        recovery_timeout: Duration::from_millis(100),
    };
    let mut cb = CircuitBreaker::with_config(config);

    // Open the circuit
    cb.record_failure_at(now);
    cb.record_failure_at(now);
    assert_eq!(cb.state(), CircuitState::Open);

    // In a real scenario, if system time goes backwards (NTP correction),
    // saturating_duration_since will return Duration::zero()
    // The circuit should remain open until real time passes recovery_timeout

    // We can't actually make time go backwards in tests, but we can verify
    // the circuit doesn't panic with edge case durations
    now = now + Duration::from_millis(150);

    // Trigger state check to transition to HalfOpen
    cb.allow_request_at(now);
    assert_eq!(cb.state(), CircuitState::HalfOpen);
}

#[test]
fn test_rapid_state_transitions() {
    let mut now = Instant::base();
    let config = CircuitBreakerConfig {
        failure_threshold: 2,
        recovery_timeout: Duration::from_millis(100),
    };
    let mut cb = CircuitBreaker::with_config(config);

    // Rapidly cycle through states
    for _ in 0..100 {
        cb.record_failure_at(now);
        cb.record_failure_at(now); // Open
        now = now + Duration::from_millis(150);
        cb.allow_request_at(now); // Trigger transition to HalfOpen
        cb.record_success(); // Closed
    }

    // Should end in Closed state with no failures
    assert_eq!(cb.state(), CircuitState::Closed);
    assert_eq!(cb.consecutive_failures(), 0);
}

#[test]
fn test_state_consistency_after_clone() {
    let config = CircuitBreakerConfig {
        failure_threshold: 2,
        recovery_timeout: Duration::from_millis(100),
    };
    let mut cb1 = CircuitBreaker::with_config(config);
    cb1.record_failure();

    let mut cb2 = cb1.clone();

    // Both should be in Closed state (not enough failures to open)
    assert_eq!(cb1.state(), CircuitState::Closed);
    assert_eq!(cb2.state(), CircuitState::Closed);

    // One more failure on cb2 should open it (cb2 has 2 failures total)
    cb2.record_failure();

    // cb2 should be Open (has 2 failures)
    assert_eq!(cb2.consecutive_failures(), 2);
    assert_eq!(cb2.state(), CircuitState::Open);

    // cb1 should still be Closed (only has 1 failure - they have independent state after clone)
    assert_eq!(cb1.state(), CircuitState::Closed);
}

#[test]
fn test_consecutive_failures_overflow_resistance() {
    let mut cb = CircuitBreaker::new();

    // Record massive number of failures
    for _ in 0..10_000 {
        cb.record_failure();
    }

    // Should handle large failure counts without overflow
    assert!(cb.consecutive_failures() >= 10_000);
    assert_eq!(cb.state(), CircuitState::Open);
}

#[test]
fn test_recovery_timeout_boundary() {
    let mut now = Instant::base();
    let mut cb = CircuitBreaker::with_config(CircuitBreakerConfig {
        failure_threshold: 1,
        recovery_timeout: Duration::from_millis(50),
    });

    // Open circuit
    cb.record_failure_at(now);
    assert_eq!(cb.state(), CircuitState::Open);

    // Before timeout - should still be Open
    now = now + Duration::from_millis(30);
    assert_eq!(cb.state(), CircuitState::Open);

    // After timeout - should transition to HalfOpen when checked
    now = now + Duration::from_millis(30); // Total 60ms > 50ms timeout
    cb.allow_request_at(now); // Trigger transition to HalfOpen
    assert_eq!(cb.state(), CircuitState::HalfOpen);
}

#[test]
fn test_allow_request_consistency() {
    let mut now = Instant::base();
    let config = CircuitBreakerConfig {
        failure_threshold: 2,
        recovery_timeout: Duration::from_millis(100),
    };
    let mut cb = CircuitBreaker::with_config(config);

    // Closed: should allow
    assert!(cb.allow_request_at(now));

    // Open: should not allow
    cb.record_failure_at(now);
    cb.record_failure_at(now);
    assert!(!cb.allow_request_at(now));
    assert!(!cb.allow_request_at(now));

    // HalfOpen: should allow (gives it a chance)
    now = now + Duration::from_millis(150);
    assert!(cb.allow_request_at(now));
}

#[test]
fn states_have_numbers() {
    assert_eq!(CircuitState::from(0), CircuitState::Closed);
    assert_eq!(CircuitState::from(1), CircuitState::Open);
    assert_eq!(CircuitState::from(2), CircuitState::HalfOpen);
    assert_eq!(CircuitState::from(3), CircuitState::Closed);
    assert_eq!(CircuitState::from(255), CircuitState::Closed);
}

#[test]
fn success_while_open_changes_nothing() {
    let mut cb = CircuitBreaker::with_config(CircuitBreakerConfig {
        failure_threshold: 1,
        recovery_timeout: Duration::from_secs(1),
    });
    cb.record_failure_at(Instant::base());
    cb.record_success();
    assert_eq!(cb.state(), CircuitState::Open);
    assert_eq!(cb.consecutive_failures(), 1);
    // The timeout counts from the last failure, up to the nanosecond.
    assert!(!cb.allow_request_at(Instant::from_nanos(999_999_999)));
    assert!(cb.allow_request_at(Instant::from_nanos(1_000_000_000)));
    // A half-open circuit goes on admitting operations.
    assert!(cb.allow_request_at(Instant::base()));
}

#[test]
fn default_configuration_of_a_breaker() {
    let config = CircuitBreakerConfig::default();
    assert_eq!(config.failure_threshold, 5);
    assert_eq!(config.recovery_timeout, Duration::from_secs(30));
    let mut cb = CircuitBreaker::default();
    for _ in 0..4 {
        cb.record_failure();
        assert_eq!(cb.state(), CircuitState::Closed);
    }
    cb.record_failure();
    assert_eq!(cb.state(), CircuitState::Open);
}
