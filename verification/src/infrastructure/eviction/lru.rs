//! Eviction of the entry that has not been used for longest.
use crate::application::ports::{opt_id, EvictionCandidate, EvictionPolicy, StorageKey};
use vstd::prelude::*;

verus! {

/// Whether the candidate at `i` is the one that has not been used for longest, the first of
/// them where there are several.
pub open spec fn is_oldest<K, V>(candidates: Seq<EvictionCandidate<K, V>>, i: int) -> bool {
    &&& 0 <= i < candidates.len()
    &&& forall|j: int|
        0 <= j < candidates.len() ==> candidates[i].last_access@
            <= #[trigger] candidates[j].last_access@
    &&& forall|j: int|
        0 <= j < i ==> candidates[i].last_access@ < #[trigger] candidates[j].last_access@
}

/// Whether `victim` is the key of the oldest candidate: none where there are no candidates.
pub open spec fn selects_oldest<K: StorageKey, V>(
    candidates: Seq<EvictionCandidate<K, V>>,
    victim: Option<Seq<char>>,
) -> bool {
    match victim {
        Some(id) => exists|i: int|
            #[trigger] is_oldest(candidates, i) && candidates[i].key.id() == id,
        None => candidates.len() == 0,
    }
}

/// The key of the candidate that has not been used for longest.
pub fn oldest<K: StorageKey, V>(candidates: &[EvictionCandidate<K, V>]) -> (victim: Option<K>)
    ensures
        selects_oldest(candidates@, opt_id(victim)),
{
    if candidates.len() == 0 {
        return None;
    }
    let mut best: usize = 0;
    let mut i: usize = 1;
    while i < candidates.len()
        invariant
            best < i <= candidates@.len(),
            forall|j: int|
                0 <= j < i ==> candidates@[best as int].last_access@
                    <= #[trigger] candidates@[j].last_access@,
            forall|j: int|
                0 <= j < best ==> candidates@[best as int].last_access@
                    < #[trigger] candidates@[j].last_access@,
        decreases candidates@.len() - i,
    {
        if candidates[i].last_access.as_nanos() < candidates[best].last_access.as_nanos() {
            best = i;
        }
        i = i + 1;
    }
    assert(is_oldest(candidates@, best as int));
    Some(candidates[best].key.duplicate())
}

/// Keeps a limit on the number of entries.
#[derive(Debug, Clone, Copy, PartialEq, Eq, Structural)]
pub struct LruEviction {
    max_entries: usize,
}

impl LruEviction {
    /// The limit.
    pub closed spec fn limit(&self) -> usize {
        self.max_entries
    }

    /// At most `max_entries` entries.
    pub fn new(max_entries: usize) -> (r: Self)
        ensures
            r.limit() == max_entries,
    {
        LruEviction { max_entries }
    }
}

impl<K: StorageKey, V> EvictionPolicy<K, V> for LruEviction {
    open spec fn ready(&self) -> bool {
        true
    }

    open spec fn selects(
        &self,
        candidates: Seq<EvictionCandidate<K, V>>,
        victim: Option<Seq<char>>,
    ) -> bool {
        selects_oldest(candidates, victim)
    }

    open spec fn evicts(&self, entries: usize, bytes: usize) -> bool {
        entries >= self.limit()
    }

    open spec fn tracks(&self) -> bool {
        false
    }

    open spec fn entry_size(&self, key: Seq<char>, value: V) -> usize {
        0
    }

    fn select_victim(&self, candidates: &[EvictionCandidate<K, V>]) -> (victim: Option<K>) {
        oldest(candidates)
    }

    fn should_evict(&self, current_entries: usize, current_memory_bytes: usize) -> (r: bool) {
        current_entries >= self.max_entries
    }

    fn tracks_memory(&self) -> (r: bool) {
        false
    }

    fn estimate_entry_size(&self, key: &K, value: &V) -> (bytes: usize) {
        0
    }
}

} // verus!
