//! Eviction policies and strategies.
use std::sync::Arc;
use tracing_throttle::infrastructure::eviction::{
    LruEviction, MemoryEviction, PriorityEviction, PriorityWithMemoryEviction,
};
use tracing_throttle::{
    Duration, EvictionCandidate, EvictionPolicy, EvictionStrategy, Instant, PriorityFn,
};

/// Some point in time, with years before it and after it.
fn now() -> Instant {
    Instant::from_nanos(400_000_000_000_000_000)
}

/// A rule for priorities.
fn rule<K: 'static, V: 'static>(
    f: impl Fn(&K, &V) -> u32 + Send + Sync + 'static,
) -> PriorityFn<K, V> {
    PriorityFn(Arc::new(Box::new(f)))
}

#[test]
fn test_tracks_memory() {
    let lru: EvictionStrategy<String, String> = EvictionStrategy::Lru;
    assert!(!lru.tracks_memory());

    let priority: EvictionStrategy<String, String> =
        EvictionStrategy::Priority(rule(|_, _| 1));
    assert!(!priority.tracks_memory());

    let memory: EvictionStrategy<String, String> = EvictionStrategy::Memory { max_bytes: 1000 };
    assert!(memory.tracks_memory());

    let combined: EvictionStrategy<String, String> = EvictionStrategy::PriorityWithMemory {
        priority_fn: rule(|_, _| 1),
        max_bytes: 1000,
    };
    assert!(combined.tracks_memory());
}

#[test]
fn test_memory_limit() {
    let lru: EvictionStrategy<String, String> = EvictionStrategy::Lru;
    assert_eq!(lru.memory_limit(), None);

    let memory: EvictionStrategy<String, String> = EvictionStrategy::Memory { max_bytes: 5000 };
    assert_eq!(memory.memory_limit(), Some(5000));

    let combined: EvictionStrategy<String, String> = EvictionStrategy::PriorityWithMemory {
        priority_fn: rule(|_, _| 1),
        max_bytes: 10000,
    };
    assert_eq!(combined.memory_limit(), Some(10000));
}

#[test]
fn test_uses_priority() {
    let lru: EvictionStrategy<String, String> = EvictionStrategy::Lru;
    assert!(!lru.uses_priority());

    let priority: EvictionStrategy<String, String> =
        EvictionStrategy::Priority(rule(|_, _| 1));
    assert!(priority.uses_priority());

    let memory: EvictionStrategy<String, String> = EvictionStrategy::Memory { max_bytes: 1000 };
    assert!(!memory.uses_priority());

    let combined: EvictionStrategy<String, String> = EvictionStrategy::PriorityWithMemory {
        priority_fn: rule(|_, _| 1),
        max_bytes: 1000,
    };
    assert!(combined.uses_priority());
}

#[test]
fn test_lru_select_oldest() {
    let policy = LruEviction::new(10);
    let now = now();

    let candidates = vec![
        EvictionCandidate {
            key: "key1".to_string(),
            value: 100,
            last_access: now,
        },
        EvictionCandidate {
            key: "key2".to_string(),
            value: 200,
            last_access: now - Duration::from_secs(10),
        },
        EvictionCandidate {
            key: "key3".to_string(),
            value: 300,
            last_access: now - Duration::from_secs(5),
        },
    ];

    let victim = policy.select_victim(&candidates);
    assert_eq!(victim, Some("key2".to_string()));
}

#[test]
fn test_lru_should_evict() {
    let policy: LruEviction = LruEviction::new(100);

    assert!(!<LruEviction as EvictionPolicy<String, i32>>::should_evict(
        &policy, 99, 0
    ));
    assert!(<LruEviction as EvictionPolicy<String, i32>>::should_evict(
        &policy, 100, 0
    ));
    assert!(<LruEviction as EvictionPolicy<String, i32>>::should_evict(
        &policy, 101, 0
    ));
}

#[test]
fn test_lru_no_memory_tracking() {
    let policy: LruEviction = LruEviction::new(100);
    assert!(!<LruEviction as EvictionPolicy<String, i32>>::tracks_memory(&policy));
}

#[test]
fn test_lru_empty_candidates() {
    let policy = LruEviction::new(10);
    let candidates: Vec<EvictionCandidate<String, i32>> = vec![];

    let victim = policy.select_victim(&candidates);
    assert_eq!(victim, None, "Should return None for empty candidate list");
}

#[test]
fn test_lru_single_candidate() {
    let policy = LruEviction::new(10);
    let now = now();

    let candidates = vec![EvictionCandidate {
        key: "only_key".to_string(),
        value: 42,
        last_access: now,
    }];

    let victim = policy.select_victim(&candidates);
    assert_eq!(
        victim,
        Some("only_key".to_string()),
        "Should select the only candidate"
    );
}

#[test]
fn test_lru_all_same_access_time() {
    let policy = LruEviction::new(10);
    let now = now();

    // All candidates accessed at exactly the same time
    let candidates = vec![
        EvictionCandidate {
            key: "key1".to_string(),
            value: 100,
            last_access: now,
        },
        EvictionCandidate {
            key: "key2".to_string(),
            value: 200,
            last_access: now,
        },
        EvictionCandidate {
            key: "key3".to_string(),
            value: 300,
            last_access: now,
        },
    ];

    let victim = policy.select_victim(&candidates);
    // Should select one of them deterministically (first one by iterator order)
    assert!(
        victim.is_some(),
        "Should select a victim even when all are equal"
    );
}

#[test]
fn test_lru_extreme_time_differences() {
    let policy = LruEviction::new(10);
    let now = now();

    let candidates = vec![
        EvictionCandidate {
            key: "recent".to_string(),
            value: 1,
            last_access: now,
        },
        EvictionCandidate {
            key: "ancient".to_string(),
            value: 2,
            last_access: now - Duration::from_secs(365 * 24 * 3600), // 1 year ago
        },
        EvictionCandidate {
            key: "middle".to_string(),
            value: 3,
            last_access: now - Duration::from_secs(3600), // 1 hour ago
        },
    ];

    let victim = policy.select_victim(&candidates);
    assert_eq!(
        victim,
        Some("ancient".to_string()),
        "Should select the oldest entry even with extreme time differences"
    );
}

#[test]
fn test_lru_many_candidates() {
    let policy = LruEviction::new(1000);
    let now = now();

    // Create 100 candidates with varying access times
    let candidates: Vec<_> = (0..100)
        .map(|i| EvictionCandidate {
            key: format!("key{}", i),
            value: i,
            last_access: now - Duration::from_secs(i as u64),
        })
        .collect();

    let victim = policy.select_victim(&candidates);
    assert_eq!(
        victim,
        Some("key99".to_string()),
        "Should select the oldest (99 seconds ago)"
    );
}

#[test]
fn test_lru_with_future_timestamps() {
    let policy = LruEviction::new(10);
    let now = now();

    // Timestamps in the "future" (clock skew scenario)
    let candidates = vec![
        EvictionCandidate {
            key: "past".to_string(),
            value: 1,
            last_access: now - Duration::from_secs(10),
        },
        EvictionCandidate {
            key: "present".to_string(),
            value: 2,
            last_access: now,
        },
    ];

    let victim = policy.select_victim(&candidates);
    assert_eq!(
        victim,
        Some("past".to_string()),
        "Should handle relative timestamps correctly"
    );
}

#[test]
fn test_lru_zero_max_entries() {
    let policy: LruEviction = LruEviction::new(0);

    // should_evict should return true immediately
    assert!(<LruEviction as EvictionPolicy<String, i32>>::should_evict(
        &policy, 0, 0
    ));
    assert!(<LruEviction as EvictionPolicy<String, i32>>::should_evict(
        &policy, 1, 0
    ));
}

#[test]
fn test_lru_large_max_entries() {
    let policy: LruEviction = LruEviction::new(usize::MAX);

    // Should not evict until reaching usize::MAX
    assert!(!<LruEviction as EvictionPolicy<String, i32>>::should_evict(
        &policy, 0, 0
    ));
    assert!(!<LruEviction as EvictionPolicy<String, i32>>::should_evict(
        &policy, 1_000_000, 0
    ));
    assert!(<LruEviction as EvictionPolicy<String, i32>>::should_evict(
        &policy,
        usize::MAX,
        0
    ));
}

#[test]
fn test_memory_select_lru() {
    let policy = MemoryEviction::new(1000);
    let now = now();

    let candidates = vec![
        EvictionCandidate {
            key: "key1".to_string(),
            value: 100,
            last_access: now,
        },
        EvictionCandidate {
            key: "key2".to_string(),
            value: 200,
            last_access: now
                .checked_sub(Duration::from_secs(10))
                .unwrap_or(now),
        },
        EvictionCandidate {
            key: "key3".to_string(),
            value: 300,
            last_access: now
                .checked_sub(Duration::from_secs(5))
                .unwrap_or(now),
        },
    ];

    let victim = policy.select_victim(&candidates);
    assert_eq!(victim, Some("key2".to_string())); // Oldest access
}

#[test]
fn test_memory_should_evict() {
    let policy = MemoryEviction::new(1000);

    assert!(!<MemoryEviction as EvictionPolicy<String, i32>>::should_evict(&policy, 0, 999));
    assert!(<MemoryEviction as EvictionPolicy<String, i32>>::should_evict(&policy, 0, 1000));
    assert!(<MemoryEviction as EvictionPolicy<String, i32>>::should_evict(&policy, 0, 1001));
}

#[test]
fn test_memory_tracks_memory() {
    let policy = MemoryEviction::new(1000);
    assert!(<MemoryEviction as EvictionPolicy<String, i32>>::tracks_memory(&policy));
}

#[test]
fn test_memory_estimate_entry_size() {
    let policy = MemoryEviction::new(1000);
    let key = "test_key";
    let value = 42;

    let size = <MemoryEviction as EvictionPolicy<&str, i32>>::estimate_entry_size(
        &policy, &key, &value,
    );
    assert!(size > 0);
}

#[test]
fn test_priority_select_lowest() {
    let priority_fn = rule(|_key: &String, value: &i32| *value as u32);
    let policy = PriorityEviction::new(10, priority_fn);
    let now = now();

    let candidates = vec![
        EvictionCandidate {
            key: "key1".to_string(),
            value: 100,
            last_access: now,
        },
        EvictionCandidate {
            key: "key2".to_string(),
            value: 50,
            last_access: now,
        },
        EvictionCandidate {
            key: "key3".to_string(),
            value: 200,
            last_access: now,
        },
    ];

    let victim = policy.select_victim(&candidates);
    assert_eq!(victim, Some("key2".to_string())); // Lowest priority value
}

#[test]
fn test_priority_should_evict() {
    let priority_fn = rule(|_key: &String, value: &i32| *value as u32);
    let policy = PriorityEviction::new(100, priority_fn);

    assert!(!policy.should_evict(99, 0));
    assert!(policy.should_evict(100, 0));
    assert!(policy.should_evict(101, 0));
}

#[test]
fn test_priority_no_memory_tracking() {
    let priority_fn = rule(|_key: &String, value: &i32| *value as u32);
    let policy = PriorityEviction::new(100, priority_fn);
    assert!(!policy.tracks_memory());
}

#[test]
fn test_priority_empty_candidates() {
    let priority_fn = rule(|_key: &String, value: &i32| *value as u32);
    let policy = PriorityEviction::new(10, priority_fn);
    let candidates: Vec<EvictionCandidate<String, i32>> = vec![];

    let victim = policy.select_victim(&candidates);
    assert_eq!(victim, None, "Should return None for empty candidate list");
}

#[test]
fn test_priority_single_candidate() {
    let priority_fn = rule(|_key: &String, value: &i32| *value as u32);
    let policy = PriorityEviction::new(10, priority_fn);
    let now = now();

    let candidates = vec![EvictionCandidate {
        key: "only_key".to_string(),
        value: 42,
        last_access: now,
    }];

    let victim = policy.select_victim(&candidates);
    assert_eq!(
        victim,
        Some("only_key".to_string()),
        "Should select the only candidate"
    );
}

#[test]
fn test_priority_all_same_priority() {
    let priority_fn = rule(|_key: &String, _value: &i32| 100u32); // All have same priority
    let policy = PriorityEviction::new(10, priority_fn);
    let now = now();

    let candidates = vec![
        EvictionCandidate {
            key: "key1".to_string(),
            value: 10,
            last_access: now,
        },
        EvictionCandidate {
            key: "key2".to_string(),
            value: 20,
            last_access: now,
        },
        EvictionCandidate {
            key: "key3".to_string(),
            value: 30,
            last_access: now,
        },
    ];

    let victim = policy.select_victim(&candidates);
    assert!(
        victim.is_some(),
        "Should select a victim even when all have equal priority"
    );
}

#[test]
fn test_priority_u32_max_priority() {
    let priority_fn = rule(
        |_key: &String, value: &i32| {
            if *value == 100 {
                u32::MAX
            } else {
                1
            }
        },
    );
    let policy = PriorityEviction::new(10, priority_fn);
    let now = now();

    let candidates = vec![
        EvictionCandidate {
            key: "max_priority".to_string(),
            value: 100,
            last_access: now,
        },
        EvictionCandidate {
            key: "low_priority".to_string(),
            value: 50,
            last_access: now,
        },
    ];

    let victim = policy.select_victim(&candidates);
    assert_eq!(
        victim,
        Some("low_priority".to_string()),
        "Should evict low priority even when another has u32::MAX"
    );
}

#[test]
fn test_priority_zero_priority() {
    let priority_fn = rule(
        |_key: &String, value: &i32| {
            if *value == 0 {
                0
            } else {
                100
            }
        },
    );
    let policy = PriorityEviction::new(10, priority_fn);
    let now = now();

    let candidates = vec![
        EvictionCandidate {
            key: "zero_priority".to_string(),
            value: 0,
            last_access: now,
        },
        EvictionCandidate {
            key: "high_priority".to_string(),
            value: 100,
            last_access: now,
        },
    ];

    let victim = policy.select_victim(&candidates);
    assert_eq!(
        victim,
        Some("zero_priority".to_string()),
        "Should evict entry with zero priority"
    );
}

#[test]
fn test_priority_many_candidates() {
    let priority_fn = rule(|_key: &String, value: &i32| *value as u32);
    let policy = PriorityEviction::new(1000, priority_fn);
    let now = now();

    // Create 100 candidates with varying priorities
    let candidates: Vec<_> = (0..100)
        .map(|i| EvictionCandidate {
            key: format!("key{}", i),
            value: i,
            last_access: now,
        })
        .collect();

    let victim = policy.select_victim(&candidates);
    assert_eq!(
        victim,
        Some("key0".to_string()),
        "Should select entry with lowest priority (0)"
    );
}

#[test]
fn test_priority_complex_priority_function() {
    // Priority based on multiple factors
    let priority_fn = rule(|key: &String, value: &i32| {
        let key_bonus = if key.starts_with("important") {
            1000
        } else {
            0
        };
        let value_priority = (*value as u32) * 10;
        key_bonus + value_priority
    });
    let policy = PriorityEviction::new(10, priority_fn);
    let now = now();

    let candidates = vec![
        EvictionCandidate {
            key: "important_1".to_string(),
            value: 1,
            last_access: now,
        },
        EvictionCandidate {
            key: "normal_100".to_string(),
            value: 100,
            last_access: now,
        },
        EvictionCandidate {
            key: "normal_5".to_string(),
            value: 5,
            last_access: now,
        },
    ];

    let victim = policy.select_victim(&candidates);
    // normal_5 has priority 50, normal_100 has priority 1000, important_1 has priority 1010
    assert_eq!(
        victim,
        Some("normal_5".to_string()),
        "Should select entry with lowest computed priority"
    );
}

#[test]
fn test_priority_with_negative_values() {
    let priority_fn = rule(|_key: &String, value: &i32| value.unsigned_abs());
    let policy = PriorityEviction::new(10, priority_fn);
    let now = now();

    let candidates = vec![
        EvictionCandidate {
            key: "key_neg100".to_string(),
            value: -100,
            last_access: now,
        },
        EvictionCandidate {
            key: "key_pos10".to_string(),
            value: 10,
            last_access: now,
        },
        EvictionCandidate {
            key: "key_neg5".to_string(),
            value: -5,
            last_access: now,
        },
    ];

    let victim = policy.select_victim(&candidates);
    assert_eq!(
        victim,
        Some("key_neg5".to_string()),
        "Should handle negative values correctly"
    );
}

#[test]
fn test_priority_zero_max_entries() {
    let priority_fn = rule(|_key: &String, value: &i32| *value as u32);
    let policy = PriorityEviction::new(0, priority_fn);

    // should_evict should return true immediately
    assert!(policy.should_evict(0, 0));
    assert!(policy.should_evict(1, 0));
}

#[test]
fn test_priority_large_max_entries() {
    let priority_fn = rule(|_key: &String, value: &i32| *value as u32);
    let policy = PriorityEviction::new(usize::MAX, priority_fn);

    // Should not evict until reaching usize::MAX
    assert!(!policy.should_evict(0, 0));
    assert!(!policy.should_evict(1_000_000, 0));
    assert!(policy.should_evict(usize::MAX, 0));
}

#[test]
fn test_priority_ignores_last_access_time() {
    let priority_fn = rule(|_key: &String, value: &i32| *value as u32);
    let policy = PriorityEviction::new(10, priority_fn);
    let now = now();

    let old_time = now
        .checked_sub(Duration::from_secs(3600))
        .unwrap_or(now);

    let candidates = vec![
        EvictionCandidate {
            key: "old_high_priority".to_string(),
            value: 100,
            last_access: old_time, // 1 hour ago (or earlier)
        },
        EvictionCandidate {
            key: "new_low_priority".to_string(),
            value: 10,
            last_access: now, // Just accessed
        },
    ];

    let victim = policy.select_victim(&candidates);
    assert_eq!(
        victim,
        Some("new_low_priority".to_string()),
        "Priority should be based on priority_fn, not access time"
    );
}

#[test]
fn test_priority_with_memory_select_lowest_priority() {
    let priority_fn = rule(|_key: &String, value: &i32| *value as u32);
    let policy = PriorityWithMemoryEviction::new(10, priority_fn, 1000);
    let now = now();

    let candidates = vec![
        EvictionCandidate {
            key: "key1".to_string(),
            value: 100,
            last_access: now,
        },
        EvictionCandidate {
            key: "key2".to_string(),
            value: 50,
            last_access: now,
        },
        EvictionCandidate {
            key: "key3".to_string(),
            value: 200,
            last_access: now,
        },
    ];

    let victim = policy.select_victim(&candidates);
    assert_eq!(victim, Some("key2".to_string())); // Lowest priority
}

#[test]
fn test_priority_with_memory_should_evict_by_entries() {
    let priority_fn = rule(|_key: &String, value: &i32| *value as u32);
    let policy = PriorityWithMemoryEviction::new(100, priority_fn, 10000);

    assert!(!policy.should_evict(99, 500));
    assert!(policy.should_evict(100, 500));
    assert!(policy.should_evict(101, 500));
}

#[test]
fn test_priority_with_memory_should_evict_by_memory() {
    let priority_fn = rule(|_key: &String, value: &i32| *value as u32);
    let policy = PriorityWithMemoryEviction::new(100, priority_fn, 1000);

    assert!(!policy.should_evict(50, 999));
    assert!(policy.should_evict(50, 1000));
    assert!(policy.should_evict(50, 1001));
}

#[test]
fn test_priority_with_memory_tracks_memory() {
    let priority_fn = rule(|_key: &String, value: &i32| *value as u32);
    let policy = PriorityWithMemoryEviction::new(100, priority_fn, 1000);
    assert!(policy.tracks_memory());
}

#[test]
fn strategies_and_policies_can_be_read() {
    type Strategy = EvictionStrategy<String, i32>;
    let one = || rule(|_k: &String, _v: &i32| 1);
    assert_eq!(Strategy::Lru.debug_text(), "EvictionStrategy::Lru");
    assert_eq!(Strategy::Priority(one()).debug_text(), "EvictionStrategy::Priority(<fn>)");
    assert_eq!(
        Strategy::Memory { max_bytes: 1000 }.debug_text(),
        "EvictionStrategy::Memory { max_bytes: 1000 }"
    );
    assert_eq!(
        Strategy::PriorityWithMemory { priority_fn: one(), max_bytes: 7 }.debug_text(),
        "EvictionStrategy::PriorityWithMemory { max_bytes: 7, priority_fn: \"<fn>\" }"
    );
    assert_eq!(
        PriorityEviction::new(5, one()).debug_text(),
        "PriorityEviction { max_entries: 5, priority_fn: \"<fn>\" }"
    );
    assert_eq!(
        PriorityWithMemoryEviction::new(5, one(), 9).debug_text(),
        "PriorityWithMemoryEviction { max_entries: 5, priority_fn: \"<fn>\", max_bytes: 9 }"
    );
}
