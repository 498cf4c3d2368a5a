//! Eviction by priority.
use crate::application::ports::{opt_id, EvictionCandidate, EvictionPolicy, StorageKey};
use crate::text::{decimal, decimal_text};
use std::sync::Arc;
use vstd::prelude::*;

verus! {

/// A rule that gives each entry a priority. Entries with a low priority go first.
pub trait Priority<K, V>: Send + Sync {
    /// Whether the rule can be asked about this entry.
    open spec fn accepts(&self, key: &K, value: &V) -> bool {
        true
    }

    /// Whether the rule may give this entry this priority.
    open spec fn rates(&self, key: &K, value: &V, priority: u32) -> bool {
        true
    }

    /// The priority of an entry.
    fn priority(&self, key: &K, value: &V) -> (priority: u32)
        requires
            self.accepts(key, value),
        ensures
            self.rates(key, value, priority),
    ;
}

impl<K, V, F: Fn(&K, &V) -> u32 + Send + Sync> Priority<K, V> for F {
    open spec fn accepts(&self, key: &K, value: &V) -> bool {
        call_requires(*self, (key, value))
    }

    open spec fn rates(&self, key: &K, value: &V, priority: u32) -> bool {
        call_ensures(*self, (key, value), priority)
    }

    fn priority(&self, key: &K, value: &V) -> (priority: u32) {
        self(key, value)
    }
}

/// A rule that gives each entry a priority, in a form that can be shared.
#[verifier::reject_recursive_types(K)]
#[verifier::reject_recursive_types(V)]
pub struct PriorityFn<K, V>(pub Arc<Box<dyn Priority<K, V>>>);

impl<K, V> Clone for PriorityFn<K, V> {
    fn clone(&self) -> (r: Self)
        ensures
            r == *self,
    {
        PriorityFn(self.0.clone())
    }
}

impl<K, V> PriorityFn<K, V> {
    /// Whether the rule can be asked about any entry.
    pub open spec fn total(&self) -> bool {
        forall|k: &K, v: &V| #[trigger] self.0.accepts(k, v)
    }
}

/// Whether the candidate at `i` has the lowest of these priorities, the first of them where
/// there are several.
pub open spec fn is_lowest(priorities: Seq<u32>, i: int) -> bool {
    &&& 0 <= i < priorities.len()
    &&& forall|j: int| 0 <= j < priorities.len() ==> priorities[i] <= #[trigger] priorities[j]
    &&& forall|j: int| 0 <= j < i ==> priorities[i] < #[trigger] priorities[j]
}

/// Whether these are priorities that the rule may give the candidates.
pub open spec fn rated<K, V>(
    rule: PriorityFn<K, V>,
    candidates: Seq<EvictionCandidate<K, V>>,
    priorities: Seq<u32>,
) -> bool {
    &&& priorities.len() == candidates.len()
    &&& forall|i: int|
        0 <= i < candidates.len() ==> rule.0.rates(
            &candidates[i].key,
            &candidates[i].value,
            #[trigger] priorities[i],
        )
}

/// Whether `victim` is the key of the candidate with the lowest priority: none where there are
/// no candidates.
pub open spec fn selects_lowest<K: StorageKey, V>(
    rule: PriorityFn<K, V>,
    candidates: Seq<EvictionCandidate<K, V>>,
    victim: Option<Seq<char>>,
) -> bool {
    match victim {
        Some(id) => exists|priorities: Seq<u32>, i: int|
            #[trigger] rated(rule, candidates, priorities) && #[trigger] is_lowest(priorities, i)
                && candidates[i].key.id() == id,
        None => candidates.len() == 0,
    }
}

/// The key of the candidate with the lowest priority.
pub fn lowest<K: StorageKey, V>(
    rule: &PriorityFn<K, V>,
    candidates: &[EvictionCandidate<K, V>],
) -> (victim: Option<K>)
    requires
        rule.total(),
    ensures
        selects_lowest(*rule, candidates@, opt_id(victim)),
{
    if candidates.len() == 0 {
        return None;
    }
    let mut best: usize = 0;
    let mut lowest: u32 = rule.0.priority(&candidates[0].key, &candidates[0].value);
    let ghost mut priorities: Seq<u32> = seq![lowest];
    let mut i: usize = 1;
    while i < candidates.len()
        invariant
            rule.total(),
            best < i <= candidates@.len(),
            priorities.len() == i,
            forall|j: int|
                0 <= j < i ==> rule.0.rates(
                    &candidates@[j].key,
                    &candidates@[j].value,
                    #[trigger] priorities[j],
                ),
            lowest == priorities[best as int],
            is_lowest(priorities, best as int),
        decreases candidates@.len() - i,
    {
        let priority: u32 = rule.0.priority(&candidates[i].key, &candidates[i].value);
        proof {
            priorities = priorities.push(priority);
        }
        if priority < lowest {
            best = i;
            lowest = priority;
        }
        i = i + 1;
    }
    assert(rated(*rule, candidates@, priorities));
    Some(candidates[best].key.duplicate())
}

/// Keeps a limit on the number of entries. The entry with the lowest priority goes first.
#[verifier::reject_recursive_types(K)]
#[verifier::reject_recursive_types(V)]
pub struct PriorityEviction<K, V> {
    max_entries: usize,
    priority_fn: PriorityFn<K, V>,
}

impl<K, V> PriorityEviction<K, V> {
    /// The limit.
    pub closed spec fn limit(&self) -> usize {
        self.max_entries
    }

    /// The rule.
    pub closed spec fn rule(&self) -> PriorityFn<K, V> {
        self.priority_fn
    }

    /// The policy as text, for diagnosis.
    pub fn debug_text(&self) -> (text: String)
        ensures
            text@ == "PriorityEviction { max_entries: "@ + decimal(self.limit() as nat)
                + ", priority_fn: \"<fn>\" }"@,
    {
        let mut text: String = "PriorityEviction { max_entries: ".to_owned();
        text.append(decimal_text(self.max_entries as u64).as_str());
        text.append(", priority_fn: \"<fn>\" }");
        text
    }

    /// At most `max_entries` entries, with priorities by `priority_fn`.
    pub fn new(max_entries: usize, priority_fn: PriorityFn<K, V>) -> (r: Self)
        ensures
            r.limit() == max_entries,
            r.rule() == priority_fn,
    {
        PriorityEviction { max_entries, priority_fn }
    }
}

impl<K, V> Clone for PriorityEviction<K, V> {
    fn clone(&self) -> (r: Self)
        ensures
            r == *self,
    {
        PriorityEviction { max_entries: self.max_entries, priority_fn: self.priority_fn.clone() }
    }
}

impl<K: StorageKey, V> EvictionPolicy<K, V> for PriorityEviction<K, V> {
    open spec fn ready(&self) -> bool {
        self.rule().total()
    }

    open spec fn selects(
        &self,
        candidates: Seq<EvictionCandidate<K, V>>,
        victim: Option<Seq<char>>,
    ) -> bool {
        selects_lowest(self.rule(), candidates, victim)
    }

    open spec fn evicts(&self, entries: usize, bytes: usize) -> bool {
        entries >= self.limit()
    }

    open spec fn tracks(&self) -> bool {
        false
    }

    open spec fn entry_size(&self, key: Seq<char>, value: V) -> usize {
        0
    }

    fn select_victim(&self, candidates: &[EvictionCandidate<K, V>]) -> (victim: Option<K>) {
        lowest(&self.priority_fn, candidates)
    }

    fn should_evict(&self, current_entries: usize, current_memory_bytes: usize) -> (r: bool) {
        current_entries >= self.max_entries
    }

    fn tracks_memory(&self) -> (r: bool) {
        false
    }

    fn estimate_entry_size(&self, key: &K, value: &V) -> (bytes: usize) {
        0
    }
}

} // verus!
