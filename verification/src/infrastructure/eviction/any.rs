//! Any of the eviction policies, or one of the user's own.
use crate::application::ports::{EvictionCandidate, EvictionPolicy, StorageKey};
use crate::infrastructure::eviction::lru::LruEviction;
use crate::infrastructure::eviction::memory::MemoryEviction;
use crate::infrastructure::eviction::priority::PriorityEviction;
use crate::infrastructure::eviction::priority_with_memory::PriorityWithMemoryEviction;
use std::sync::Arc;
use vstd::prelude::*;

verus! {

/// An eviction policy that is chosen at run time.
#[verifier::reject_recursive_types(K)]
#[verifier::reject_recursive_types(V)]
pub enum AnyEviction<K: StorageKey, V> {
    /// By last use.
    Lru(LruEviction),
    /// By memory use.
    Memory(MemoryEviction),
    /// By priority.
    Priority(PriorityEviction<K, V>),
    /// By priority, with a limit on memory use.
    PriorityWithMemory(PriorityWithMemoryEviction<K, V>),
    /// By a policy of the user's own.
    Custom(Arc<Box<dyn EvictionPolicy<K, V>>>),
}

impl<K: StorageKey, V> Clone for AnyEviction<K, V> {
    fn clone(&self) -> (r: Self)
        ensures
            r == *self,
    {
        match self {
            AnyEviction::Lru(p) => AnyEviction::Lru(*p),
            AnyEviction::Memory(p) => AnyEviction::Memory(*p),
            AnyEviction::Priority(p) => AnyEviction::Priority(p.clone()),
            AnyEviction::PriorityWithMemory(p) => AnyEviction::PriorityWithMemory(p.clone()),
            AnyEviction::Custom(p) => AnyEviction::Custom(p.clone()),
        }
    }
}

impl<K: StorageKey, V> EvictionPolicy<K, V> for AnyEviction<K, V> {
    open spec fn ready(&self) -> bool {
        match self {
            AnyEviction::Lru(p) => true,
            AnyEviction::Memory(p) => true,
            AnyEviction::Priority(p) => p.ready(),
            AnyEviction::PriorityWithMemory(p) => p.ready(),
            AnyEviction::Custom(p) => p.ready(),
        }
    }

    open spec fn selects(
        &self,
        candidates: Seq<EvictionCandidate<K, V>>,
        victim: Option<Seq<char>>,
    ) -> bool {
        match self {
            AnyEviction::Lru(p) => p.selects(candidates, victim),
            AnyEviction::Memory(p) => p.selects(candidates, victim),
            AnyEviction::Priority(p) => p.selects(candidates, victim),
            AnyEviction::PriorityWithMemory(p) => p.selects(candidates, victim),
            AnyEviction::Custom(p) => p.selects(candidates, victim),
        }
    }

    open spec fn evicts(&self, entries: usize, bytes: usize) -> bool {
        match self {
            AnyEviction::Lru(p) => <LruEviction as EvictionPolicy<K, V>>::evicts(
                p,
                entries,
                bytes,
            ),
            AnyEviction::Memory(p) => <MemoryEviction as EvictionPolicy<K, V>>::evicts(
                p,
                entries,
                bytes,
            ),
            AnyEviction::Priority(p) => p.evicts(entries, bytes),
            AnyEviction::PriorityWithMemory(p) => p.evicts(entries, bytes),
            AnyEviction::Custom(p) => p.evicts(entries, bytes),
        }
    }

    open spec fn tracks(&self) -> bool {
        match self {
            AnyEviction::Lru(p) => false,
            AnyEviction::Memory(p) => true,
            AnyEviction::Priority(p) => p.tracks(),
            AnyEviction::PriorityWithMemory(p) => p.tracks(),
            AnyEviction::Custom(p) => p.tracks(),
        }
    }

    open spec fn entry_size(&self, key: Seq<char>, value: V) -> usize {
        match self {
            AnyEviction::Lru(p) => <LruEviction as EvictionPolicy<K, V>>::entry_size(
                p,
                key,
                value,
            ),
            AnyEviction::Memory(p) => <MemoryEviction as EvictionPolicy<K, V>>::entry_size(
                p,
                key,
                value,
            ),
            AnyEviction::Priority(p) => p.entry_size(key, value),
            AnyEviction::PriorityWithMemory(p) => p.entry_size(key, value),
            AnyEviction::Custom(p) => p.entry_size(key, value),
        }
    }

    fn select_victim(&self, candidates: &[EvictionCandidate<K, V>]) -> (victim: Option<K>) {
        match self {
            AnyEviction::Lru(p) => p.select_victim(candidates),
            AnyEviction::Memory(p) => p.select_victim(candidates),
            AnyEviction::Priority(p) => p.select_victim(candidates),
            AnyEviction::PriorityWithMemory(p) => p.select_victim(candidates),
            AnyEviction::Custom(p) => p.select_victim(candidates),
        }
    }

    fn should_evict(&self, current_entries: usize, current_memory_bytes: usize) -> (r: bool) {
        match self {
            AnyEviction::Lru(p) => <LruEviction as EvictionPolicy<K, V>>::should_evict(
                p,
                current_entries,
                current_memory_bytes,
            ),
            AnyEviction::Memory(p) => <MemoryEviction as EvictionPolicy<K, V>>::should_evict(
                p,
                current_entries,
                current_memory_bytes,
            ),
            AnyEviction::Priority(p) => p.should_evict(current_entries, current_memory_bytes),
            AnyEviction::PriorityWithMemory(p) => p.should_evict(
                current_entries,
                current_memory_bytes,
            ),
            AnyEviction::Custom(p) => p.should_evict(current_entries, current_memory_bytes),
        }
    }

    fn tracks_memory(&self) -> (r: bool) {
        match self {
            AnyEviction::Lru(p) => <LruEviction as EvictionPolicy<K, V>>::tracks_memory(p),
            AnyEviction::Memory(p) => <MemoryEviction as EvictionPolicy<K, V>>::tracks_memory(p),
            AnyEviction::Priority(p) => p.tracks_memory(),
            AnyEviction::PriorityWithMemory(p) => p.tracks_memory(),
            AnyEviction::Custom(p) => p.tracks_memory(),
        }
    }

    fn estimate_entry_size(&self, key: &K, value: &V) -> (bytes: usize) {
        match self {
            AnyEviction::Lru(p) => p.estimate_entry_size(key, value),
            AnyEviction::Memory(p) => p.estimate_entry_size(key, value),
            AnyEviction::Priority(p) => p.estimate_entry_size(key, value),
            AnyEviction::PriorityWithMemory(p) => p.estimate_entry_size(key, value),
            AnyEviction::Custom(p) => p.estimate_entry_size(key, value),
        }
    }
}

} // verus!
