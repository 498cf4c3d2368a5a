//! The storage in memory.
use std::sync::Arc;
use tracing_throttle::infrastructure::eviction::{
    LruEviction, MemoryEviction, PriorityWithMemoryEviction,
};
use tracing_throttle::{
    AnyEviction, Duration, EvictionCandidate, EvictionPolicy, Instant, Metrics, PriorityFn,
    ShardedStorage, Storage, StorageKey,
};

/// A policy in the form in which a storage takes it.
fn custom<K: StorageKey, V>(policy: impl EvictionPolicy<K, V> + 'static) -> AnyEviction<K, V> {
    AnyEviction::Custom(Arc::new(Box::new(policy)))
}

/// A rule for priorities.
fn rule<K: 'static, V: 'static>(
    f: impl Fn(&K, &V) -> u32 + Send + Sync + 'static,
) -> PriorityFn<K, V> {
    PriorityFn(Arc::new(Box::new(f)))
}

#[test]
fn test_basic_operations() {
    let mut storage = ShardedStorage::<String, i32>::new();

    // Use the Storage trait methods
    storage.with_entry_mut("key1".to_string(), || 100, |_v| {});
    storage.with_entry_mut("key2".to_string(), || 200, |_v| {});

    assert_eq!(storage.len(), 2);
    assert!(!storage.is_empty());
}

#[test]
fn test_clear() {
    let mut storage = ShardedStorage::<String, i32>::new();

    storage.with_entry_mut("key1".to_string(), || 100, |_v| {});
    storage.with_entry_mut("key2".to_string(), || 200, |_v| {});
    assert_eq!(storage.len(), 2);

    storage.clear();
    assert_eq!(storage.len(), 0);
    assert!(storage.is_empty());
}

#[test]
fn test_lru_eviction() {
    let mut storage = ShardedStorage::<String, i32>::new()
        .with_eviction_policy(custom(LruEviction::new(5)));

    // Insert 5 entries - should all fit
    for i in 0..5 {
        storage.with_entry_mut(format!("key{}", i), || i, |_v| {});
    }
    assert_eq!(storage.len(), 5);

    // Insert one more - should evict one
    storage.with_entry_mut("key5".to_string(), || 5, |_v| {});
    assert_eq!(storage.len(), 5);

    // Continue inserting - size should stay at 5
    for i in 6..10 {
        storage.with_entry_mut(format!("key{}", i), || i, |_v| {});
    }
    assert_eq!(storage.len(), 5);
}

#[test]
fn test_for_each() {
    let mut storage = ShardedStorage::<String, i32>::new();

    storage.with_entry_mut("a".to_string(), || 1, |_v| {});
    storage.with_entry_mut("b".to_string(), || 2, |_v| {});
    storage.with_entry_mut("c".to_string(), || 3, |_v| {});

    let mut sum = 0;
    storage.for_each(|_k, v| {
        sum += v;
    });

    assert_eq!(sum, 6);
}

#[test]
fn test_retain() {
    let mut storage = ShardedStorage::<String, i32>::new();

    storage.with_entry_mut("a".to_string(), || 1, |_v| {});
    storage.with_entry_mut("b".to_string(), || 2, |_v| {});
    storage.with_entry_mut("c".to_string(), || 3, |_v| {});

    // Retain only values > 1
    storage.retain(|_k, v| *v > 1);

    assert_eq!(storage.len(), 2);
}

#[test]
fn test_memory_tracking_basic_insertion() {
    let mut storage = ShardedStorage::<String, i32>::new()
        .with_eviction_policy(custom(MemoryEviction::new(1024)));

    // Initial memory should be 0
    assert_eq!(storage.memory_bytes(), 0);

    // Insert first entry
    storage.with_entry_mut("key1".to_string(), || 100, |_v| {});

    // Memory should be tracked (approximate size)
    let memory_after_first = storage.memory_bytes();
    assert!(
        memory_after_first > 0,
        "Memory should be tracked after insertion"
    );

    // Insert second entry
    storage.with_entry_mut("key2".to_string(), || 200, |_v| {});

    let memory_after_second = storage.memory_bytes();
    assert!(
        memory_after_second > memory_after_first,
        "Memory should increase after second insertion"
    );
}

#[test]
fn test_memory_tracking_with_eviction() {
    // Set very low limit to force evictions
    let mut storage = ShardedStorage::<String, i32>::new()
        .with_eviction_policy(custom(MemoryEviction::new(100)));

    // Insert entries until eviction occurs
    for i in 0..10 {
        storage.with_entry_mut(format!("key{}", i), || i, |_v| {});
    }

    // Memory should not exceed limit significantly (may overshoot due to sampling and overhead)
    let final_memory = storage.memory_bytes();
    assert!(
        final_memory <= 500,
        "Memory should stay reasonable after evictions, got {}",
        final_memory
    );
}

#[test]
fn test_memory_tracking_decreases_on_eviction() {
    let mut storage = ShardedStorage::<String, String>::new()
        .with_eviction_policy(custom(MemoryEviction::new(200)));

    // Insert some entries
    storage.with_entry_mut("key1".to_string(), || "value1".to_string(), |_v| {});
    storage.with_entry_mut("key2".to_string(), || "value2".to_string(), |_v| {});
    storage.with_entry_mut("key3".to_string(), || "value3".to_string(), |_v| {});

    let memory_before_eviction = storage.memory_bytes();

    // Insert more entries to trigger eviction
    for i in 4..10 {
        storage.with_entry_mut(format!("key{}", i), || format!("value{}", i), |_v| {});
    }

    let memory_after_eviction = storage.memory_bytes();

    // Memory should have decreased due to evictions
    assert!(
        memory_after_eviction <= memory_before_eviction * 2,
        "Memory should not grow unbounded with evictions"
    );
}

#[test]
fn test_memory_tracking_without_policy() {
    // Storage without eviction policy should not track memory
    let mut storage = ShardedStorage::<String, i32>::new();

    storage.with_entry_mut("key1".to_string(), || 100, |_v| {});
    storage.with_entry_mut("key2".to_string(), || 200, |_v| {});

    // Memory should remain 0 without eviction policy
    assert_eq!(storage.memory_bytes(), 0);
}

#[test]
fn test_memory_tracking_with_lru_policy() {
    // LRU policy does not track memory
    let mut storage = ShardedStorage::<String, i32>::new()
        .with_eviction_policy(custom(LruEviction::new(5)));

    storage.with_entry_mut("key1".to_string(), || 100, |_v| {});
    storage.with_entry_mut("key2".to_string(), || 200, |_v| {});

    // Memory should remain 0 with LRU policy (doesn't track memory)
    assert_eq!(storage.memory_bytes(), 0);
}

#[test]
fn test_memory_tracking_consistency_with_repeated_access() {
    let mut storage = ShardedStorage::<String, i32>::new()
        .with_eviction_policy(custom(MemoryEviction::new(10000)));

    // Insert entry
    storage.with_entry_mut("key1".to_string(), || 100, |_v| {});

    let memory_after_insert = storage.memory_bytes();

    // Access the same entry multiple times (should not change memory)
    for _ in 0..10 {
        storage.with_entry_mut("key1".to_string(), || 100, |_v| {});
    }

    let memory_after_accesses = storage.memory_bytes();

    assert_eq!(
        memory_after_insert, memory_after_accesses,
        "Memory should not change when accessing existing entries"
    );
}

#[test]
fn test_memory_tracking_with_priority_memory_policy() {
    let mut storage = ShardedStorage::<String, i32>::new().with_eviction_policy(custom(
        PriorityWithMemoryEviction::new(100, rule(|_k: &String, _v: &i32| 1), 200),
    ));

    // Initial memory should be 0
    assert_eq!(storage.memory_bytes(), 0);

    // Insert entries
    storage.with_entry_mut("key1".to_string(), || 100, |_v| {});
    storage.with_entry_mut("key2".to_string(), || 200, |_v| {});

    // Memory should be tracked
    let memory = storage.memory_bytes();
    assert!(
        memory > 0,
        "Memory should be tracked with priority+memory policy"
    );
}

#[test]
fn test_memory_tracking_large_values() {
    let mut storage = ShardedStorage::<String, Vec<u8>>::new()
        .with_eviction_policy(custom(MemoryEviction::new(50000)));

    // Insert large values
    let large_value = vec![0u8; 1000]; // 1KB
    storage.with_entry_mut("key1".to_string(), || large_value.clone(), |_v| {});

    let memory_after_one = storage.memory_bytes();
    assert!(memory_after_one > 100, "Should track large value size");

    // Insert second large value
    storage.with_entry_mut("key2".to_string(), || large_value.clone(), |_v| {});

    let memory_after_two = storage.memory_bytes();
    assert!(
        memory_after_two > memory_after_one,
        "Memory should increase with second large value"
    );

    // Rough size check - estimates are conservative (include overhead)
    assert!(
        (100..5000).contains(&memory_after_two),
        "Memory estimate should be reasonable for 2x1KB values, got {}",
        memory_after_two
    );
}

#[test]
fn test_memory_tracking_after_clear() {
    let mut storage = ShardedStorage::<String, i32>::new()
        .with_eviction_policy(custom(MemoryEviction::new(10000)));

    // Insert entries
    for i in 0..10 {
        storage.with_entry_mut(format!("key{}", i), || i, |_v| {});
    }

    let memory_before_clear = storage.memory_bytes();
    assert!(memory_before_clear > 0);

    // Clear storage
    storage.clear();

    // Note: clear() doesn't update memory tracking (known limitation)
    // This test documents current behavior
    let memory_after_clear = storage.memory_bytes();

    // Currently, memory counter is not reset by clear()
    // This is acceptable since clear() is typically not used in production
    assert_eq!(memory_before_clear, memory_after_clear);
}

#[test]
fn test_memory_overflow_resistance() {
    let mut storage = ShardedStorage::<String, i32>::new()
        .with_eviction_policy(custom(MemoryEviction::new(usize::MAX)));

    // Insert many entries
    for i in 0..1000 {
        storage.with_entry_mut(format!("key{}", i), || i, |_v| {});
    }

    // Should not panic even with many insertions
    let memory = storage.memory_bytes();
    assert!(memory < usize::MAX, "Memory tracking should not overflow");
}

#[test]
fn test_lru_access_order() {
    let mut storage =
        ShardedStorage::<String, i32>::new().with_eviction_policy(custom(LruEviction::new(3)));

    // Insert 3 entries
    let start = Instant::base();
    storage.with_entry_mut_at(start, "key0".to_string(), || 0, |_v| {});
    storage.with_entry_mut_at(start, "key1".to_string(), || 1, |_v| {});
    storage.with_entry_mut_at(start, "key2".to_string(), || 2, |_v| {});

    // Access key0 to update its access time
    let later = start + Duration::from_millis(10);
    storage.with_entry_mut_at(later, "key0".to_string(), || 0, |_v| {});

    // Insert a new entry - should evict one of the older unaccessed entries
    let latest = later + Duration::from_millis(10);
    storage.with_entry_mut_at(latest, "key3".to_string(), || 3, |_v| {});

    // key0 should still exist since we accessed it recently
    let mut key0_exists = false;
    storage.with_entry_mut_at(
        latest,
        "key0".to_string(),
        || 999,
        |v| {
            if *v == 0 {
                key0_exists = true;
            }
        },
    );

    assert!(key0_exists, "key0 should not have been evicted");
    assert_eq!(storage.len(), 3);
}

#[test]
fn copies_of_a_storage_go_separate_ways() {
    let mut storage = ShardedStorage::<String, i32>::new();
    storage.with_entry_mut("a".to_string(), || 1, |_v| {});
    let mut copy = storage.clone();
    copy.with_entry_mut("a".to_string(), || 0, |v| *v += 10);
    copy.with_entry_mut("b".to_string(), || 2, |_v| {});
    assert_eq!(storage.len(), 1);
    assert_eq!(copy.len(), 2);
    assert_eq!(storage.with_entry_mut("a".to_string(), || 0, |v| *v), 1);
    assert_eq!(copy.with_entry_mut("a".to_string(), || 0, |v| *v), 11);
}

#[test]
fn entries_stay_reachable_after_removals() {
    let mut storage = ShardedStorage::<String, i32>::new();
    for i in 0..50 {
        storage.with_entry_mut(format!("key{}", i), || i, |_v| {});
    }
    storage.retain(|_k, v| {
        *v += 1000;
        *v % 3 == 0
    });
    assert_eq!(storage.len(), (1000..1050).filter(|n| n % 3 == 0).count());
    for i in 0..50 {
        let expected = if (i + 1000) % 3 == 0 { i + 1000 } else { -1 };
        assert_eq!(storage.with_entry_mut(format!("key{}", i), || -1, |v| *v), expected);
    }
    assert_eq!(storage.len(), 50);
}

#[test]
fn the_oldest_of_a_small_storage_goes() {
    let mut storage = ShardedStorage::<String, i32>::new()
        .with_metrics(Metrics::new())
        .with_eviction_policy(AnyEviction::Lru(LruEviction::new(3)));
    let at = |n: u64| Instant::base() + Duration::from_secs(n);
    storage.with_entry_mut_at(at(3), "c".to_string(), || 3, |_v| {});
    storage.with_entry_mut_at(at(1), "a".to_string(), || 1, |_v| {});
    storage.with_entry_mut_at(at(2), "b".to_string(), || 2, |_v| {});
    storage.with_entry_mut_at(at(4), "d".to_string(), || 4, |_v| {});
    let mut keys = storage.for_each(|k, _v| k.clone());
    keys.sort();
    assert_eq!(keys, vec!["b".to_string(), "c".to_string(), "d".to_string()]);
    assert_eq!(storage.evictions(), 1);
    assert_eq!(storage.metrics().unwrap().signatures_evicted(), 1);
}

#[test]
fn memory_is_counted_per_entry() {
    let mut storage = ShardedStorage::<String, i32>::new()
        .with_eviction_policy(AnyEviction::Memory(MemoryEviction::new(1000)));
    let size = std::mem::size_of::<String>() + std::mem::size_of::<i32>() + 264;
    for i in 0..3 {
        storage.with_entry_mut(format!("key{}", i), || i, |_v| {});
    }
    assert_eq!(storage.memory_bytes(), 3 * size);
    for i in 3..20 {
        storage.with_entry_mut(format!("key{}", i), || i, |_v| {});
    }
    assert_eq!(storage.memory_bytes(), storage.len() * size);
    assert!(storage.memory_bytes() < 1000 + size);
}

#[test]
fn a_policy_of_the_users_own_may_choose_nothing() {
    struct Never;
    impl EvictionPolicy<String, i32> for Never {
        fn select_victim(&self, _candidates: &[EvictionCandidate<String, i32>]) -> Option<String> {
            None
        }
        fn should_evict(&self, _entries: usize, _bytes: usize) -> bool {
            true
        }
        fn tracks_memory(&self) -> bool {
            false
        }
        fn estimate_entry_size(&self, _key: &String, _value: &i32) -> usize {
            0
        }
    }
    let mut storage = ShardedStorage::<String, i32>::new().with_eviction_policy(custom(Never));
    for i in 0..30 {
        storage.with_entry_mut(format!("key{}", i), || i, |_v| {});
    }
    assert_eq!(storage.len(), 30);
}

#[test]
fn a_storage_can_be_read() {
    let mut storage = ShardedStorage::<String, i32>::new();
    storage.with_entry_mut("a".to_string(), || 1, |_v| {});
    assert_eq!(
        storage.debug_text(),
        "ShardedStorage { map: \"1 entries\", eviction_policy: None, current_memory_bytes: 0 }"
    );
    let limited = ShardedStorage::<String, i32>::new()
        .with_eviction_policy(AnyEviction::Lru(LruEviction::new(3)));
    assert_eq!(
        limited.debug_text(),
        "ShardedStorage { map: \"0 entries\", eviction_policy: Some(\"<policy>\"), \
         current_memory_bytes: 0 }"
    );
}

#[test]
fn a_copy_counts_where_the_original_does() {
    let metrics = Metrics::new();
    let mut storage = ShardedStorage::<String, i32>::new()
        .with_metrics(metrics.clone())
        .with_eviction_policy(AnyEviction::Lru(LruEviction::new(1)));
    for i in 0..3 {
        storage.with_entry_mut(format!("key{}", i), || i, |_v| {});
    }
    let mut copy = storage.clone();
    assert_eq!(copy.metrics().unwrap().signatures_evicted(), 2);
    copy.with_entry_mut("other".to_string(), || 9, |_v| {});
    assert_eq!(copy.metrics().unwrap().signatures_evicted(), 3);
    assert_eq!(storage.metrics().unwrap().signatures_evicted(), 3);
    assert_eq!(metrics.signatures_evicted(), 3);
    // Each goes on with a number of its own.
    assert_eq!(storage.evictions(), 2);
    assert_eq!(copy.evictions(), 3);
    assert_eq!(storage.len(), 1);
    assert!(!copy.is_empty());
}

#[test]
fn memory_passes_the_limit_by_less_than_one_entry() {
    let size = std::mem::size_of::<String>() + std::mem::size_of::<i32>() + 264;
    let limit = 2 * size + 1;
    let mut storage = ShardedStorage::<String, i32>::new()
        .with_eviction_policy(AnyEviction::Memory(MemoryEviction::new(limit)));
    for i in 0..20 {
        storage.with_entry_mut(format!("key{}", i), || i, |_v| {});
        assert!(storage.memory_bytes() < limit + size);
        assert_eq!(storage.memory_bytes(), storage.len() * size);
    }
    assert_eq!(storage.len(), 3);

    // A limit of zero leaves room for one entry.
    let mut storage = ShardedStorage::<String, i32>::new()
        .with_eviction_policy(AnyEviction::Memory(MemoryEviction::new(0)));
    for i in 0..5 {
        storage.with_entry_mut(format!("key{}", i), || i, |_v| {});
        assert_eq!(storage.memory_bytes(), size);
    }
}
