//! Eviction by memory use.
use crate::application::ports::{EvictionCandidate, EvictionPolicy, StorageKey};
use crate::infrastructure::eviction::lru::{oldest, selects_oldest};
use vstd::layout::size_of;
use vstd::prelude::*;

verus! {

/// What an entry takes besides its key and its value: 64 bytes in the storage, and 200 bytes for
/// strings and the like.
pub const ENTRY_OVERHEAD: usize = 264;

/// The memory that an entry is taken to use, cut off at the largest `usize`.
pub open spec fn estimated_size<K, V>() -> usize {
    let sum = size_of::<K>() + size_of::<V>() + ENTRY_OVERHEAD;
    if sum <= usize::MAX {
        sum as usize
    } else {
        usize::MAX
    }
}

/// Estimates the memory that an entry uses.
pub fn estimate_size<K, V>() -> (bytes: usize)
    ensures
        bytes == estimated_size::<K, V>(),
{
    let key_size: usize = std::mem::size_of::<K>();
    let value_size: usize = std::mem::size_of::<V>();
    key_size.saturating_add(value_size).saturating_add(ENTRY_OVERHEAD)
}

/// Keeps a limit on memory use. The entry that has not been used for longest goes first.
#[derive(Debug, Clone, Copy, PartialEq, Eq, Structural)]
pub struct MemoryEviction {
    max_bytes: usize,
}

impl MemoryEviction {
    /// The limit.
    pub closed spec fn limit(&self) -> usize {
        self.max_bytes
    }

    /// At most `max_bytes` bytes.
    pub fn new(max_bytes: usize) -> (r: Self)
        ensures
            r.limit() == max_bytes,
    {
        MemoryEviction { max_bytes }
    }

    /// The limit.
    pub fn max_bytes(&self) -> (n: usize)
        ensures
            n == self.limit(),
    {
        self.max_bytes
    }
}

impl<K: StorageKey, V> EvictionPolicy<K, V> for MemoryEviction {
    open spec fn ready(&self) -> bool {
        true
    }

    open spec fn selects(
        &self,
        candidates: Seq<EvictionCandidate<K, V>>,
        victim: Option<Seq<char>>,
    ) -> bool {
        selects_oldest(candidates, victim)
    }

    open spec fn evicts(&self, entries: usize, bytes: usize) -> bool {
        bytes >= self.limit()
    }

    open spec fn tracks(&self) -> bool {
        true
    }

    open spec fn entry_size(&self, key: Seq<char>, value: V) -> usize {
        estimated_size::<K, V>()
    }

    fn select_victim(&self, candidates: &[EvictionCandidate<K, V>]) -> (victim: Option<K>) {
        oldest(candidates)
    }

    fn should_evict(&self, current_entries: usize, current_memory_bytes: usize) -> (r: bool) {
        current_memory_bytes >= self.max_bytes
    }

    fn tracks_memory(&self) -> (r: bool) {
        true
    }

    fn estimate_entry_size(&self, key: &K, value: &V) -> (bytes: usize) {
        estimate_size::<K, V>()
    }
}

} // verus!
