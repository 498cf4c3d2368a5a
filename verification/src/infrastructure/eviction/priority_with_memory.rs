//! Eviction by priority, with a limit on memory use as well.
use crate::application::ports::{EvictionCandidate, EvictionPolicy, StorageKey};
use crate::infrastructure::eviction::memory::{estimate_size, estimated_size};
use crate::infrastructure::eviction::priority::{lowest, selects_lowest, PriorityFn};
use crate::text::{decimal, decimal_text};
use vstd::prelude::*;

verus! {

/// Keeps a limit on the number of entries and one on memory use. The entry with the lowest
/// priority goes first when either is reached.
#[verifier::reject_recursive_types(K)]
#[verifier::reject_recursive_types(V)]
pub struct PriorityWithMemoryEviction<K, V> {
    max_entries: usize,
    priority_fn: PriorityFn<K, V>,
    max_bytes: usize,
}

impl<K, V> PriorityWithMemoryEviction<K, V> {
    /// The limit on the number of entries.
    pub closed spec fn entry_limit(&self) -> usize {
        self.max_entries
    }

    /// The limit on memory use.
    pub closed spec fn byte_limit(&self) -> usize {
        self.max_bytes
    }

    /// The rule.
    pub closed spec fn rule(&self) -> PriorityFn<K, V> {
        self.priority_fn
    }

    /// At most `max_entries` entries and `max_bytes` bytes, with priorities by `priority_fn`.
    pub fn new(max_entries: usize, priority_fn: PriorityFn<K, V>, max_bytes: usize) -> (r: Self)
        ensures
            r.entry_limit() == max_entries,
            r.rule() == priority_fn,
            r.byte_limit() == max_bytes,
    {
        PriorityWithMemoryEviction { max_entries, priority_fn, max_bytes }
    }

    /// The policy as text, for diagnosis.
    pub fn debug_text(&self) -> (text: String)
        ensures
            text@ == "PriorityWithMemoryEviction { max_entries: "@ + decimal(
                self.entry_limit() as nat,
            ) + ", priority_fn: \"<fn>\", max_bytes: "@ + decimal(self.byte_limit() as nat)
                + " }"@,
    {
        let mut text: String = "PriorityWithMemoryEviction { max_entries: ".to_owned();
        text.append(decimal_text(self.max_entries as u64).as_str());
        text.append(", priority_fn: \"<fn>\", max_bytes: ");
        text.append(decimal_text(self.max_bytes as u64).as_str());
        text.append(" }");
        text
    }

    /// The limit on memory use.
    pub fn max_bytes(&self) -> (n: usize)
        ensures
            n == self.byte_limit(),
    {
        self.max_bytes
    }
}

impl<K, V> Clone for PriorityWithMemoryEviction<K, V> {
    fn clone(&self) -> (r: Self)
        ensures
            r == *self,
    {
        PriorityWithMemoryEviction {
            max_entries: self.max_entries,
            priority_fn: self.priority_fn.clone(),
            max_bytes: self.max_bytes,
        }
    }
}

impl<K: StorageKey, V> EvictionPolicy<K, V> for PriorityWithMemoryEviction<K, V> {
    open spec fn ready(&self) -> bool {
        self.rule().total()
    }

    open spec fn selects(
        &self,
        candidates: Seq<EvictionCandidate<K, V>>,
        victim: Option<Seq<char>>,
    ) -> bool {
        selects_lowest(self.rule(), candidates, victim)
    }

    open spec fn evicts(&self, entries: usize, bytes: usize) -> bool {
        entries >= self.entry_limit() || bytes >= self.byte_limit()
    }

    open spec fn tracks(&self) -> bool {
        true
    }

    open spec fn entry_size(&self, key: Seq<char>, value: V) -> usize {
        estimated_size::<K, V>()
    }

    fn select_victim(&self, candidates: &[EvictionCandidate<K, V>]) -> (victim: Option<K>) {
        lowest(&self.priority_fn, candidates)
    }

    fn should_evict(&self, current_entries: usize, current_memory_bytes: usize) -> (r: bool) {
        current_entries >= self.max_entries || current_memory_bytes >= self.max_bytes
    }

    fn tracks_memory(&self) -> (r: bool) {
        true
    }

    fn estimate_entry_size(&self, key: &K, value: &V) -> (bytes: usize) {
        estimate_size::<K, V>()
    }
}

} // verus!
