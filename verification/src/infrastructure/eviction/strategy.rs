//! How to choose the signatures that go when there are too many.
use crate::application::ports::StorageKey;
use crate::infrastructure::eviction::any::AnyEviction;
use crate::infrastructure::eviction::lru::LruEviction;
use crate::infrastructure::eviction::memory::MemoryEviction;
use crate::infrastructure::eviction::priority::{PriorityEviction, PriorityFn};
use crate::infrastructure::eviction::priority_with_memory::PriorityWithMemoryEviction;
use crate::text::{decimal, decimal_text};
use vstd::prelude::*;

verus! {

/// An eviction strategy. The limit on the number of entries comes from elsewhere.
#[verifier::reject_recursive_types(K)]
#[verifier::reject_recursive_types(V)]
pub enum EvictionStrategy<K, V> {
    /// The entry that has not been used for longest goes first.
    Lru,
    /// The entry with the lowest priority goes first.
    Priority(PriorityFn<K, V>),
    /// Entries go when they use too much memory, the one that has not been used for longest
    /// first.
    Memory {
        /// Limit on memory use in bytes.
        max_bytes: usize,
    },
    /// The entry with the lowest priority goes first, when there are too many or they use too
    /// much memory.
    PriorityWithMemory {
        /// Gives each entry a priority.
        priority_fn: PriorityFn<K, V>,
        /// Limit on memory use in bytes.
        max_bytes: usize,
    },
}

impl<K, V> Clone for EvictionStrategy<K, V> {
    fn clone(&self) -> (r: Self)
        ensures
            r == *self,
    {
        match self {
            EvictionStrategy::Lru => EvictionStrategy::Lru,
            EvictionStrategy::Priority(f) => EvictionStrategy::Priority(f.clone()),
            EvictionStrategy::Memory { max_bytes } => EvictionStrategy::Memory {
                max_bytes: *max_bytes,
            },
            EvictionStrategy::PriorityWithMemory { priority_fn, max_bytes } => {
                EvictionStrategy::PriorityWithMemory {
                    priority_fn: priority_fn.clone(),
                    max_bytes: *max_bytes,
                }
            },
        }
    }
}

impl<K, V> EvictionStrategy<K, V> {
    /// Whether memory use has to be tracked.
    pub fn tracks_memory(&self) -> (r: bool)
        ensures
            r == (self is Memory || self is PriorityWithMemory),
    {
        matches!(
            self,
            EvictionStrategy::Memory { .. } | EvictionStrategy::PriorityWithMemory { .. }
        )
    }

    /// The limit on memory use, if there is one.
    pub fn memory_limit(&self) -> (r: Option<usize>)
        ensures
            r == (match *self {
                EvictionStrategy::Memory { max_bytes } => Some(max_bytes),
                EvictionStrategy::PriorityWithMemory { priority_fn, max_bytes } => Some(max_bytes),
                _ => None,
            }),
    {
        match self {
            EvictionStrategy::Memory { max_bytes } => Some(*max_bytes),
            EvictionStrategy::PriorityWithMemory { max_bytes, .. } => Some(*max_bytes),
            _ => None,
        }
    }

    /// Whether entries go by priority.
    pub fn uses_priority(&self) -> (r: bool)
        ensures
            r == (self is Priority || self is PriorityWithMemory),
    {
        matches!(
            self,
            EvictionStrategy::Priority(_) | EvictionStrategy::PriorityWithMemory { .. }
        )
    }

    /// The strategy as text, for diagnosis. A function is shown as `<fn>`.
    pub fn debug_text(&self) -> (text: String)
        ensures
            text@ == strategy_text(*self),
    {
        let mut text: String = String::new();
        match self {
            EvictionStrategy::Lru => {
                text.append("EvictionStrategy::Lru");
            },
            EvictionStrategy::Priority(_) => {
                text.append("EvictionStrategy::Priority(<fn>)");
            },
            EvictionStrategy::Memory { max_bytes } => {
                text.append("EvictionStrategy::Memory { max_bytes: ");
                text.append(decimal_text(*max_bytes as u64).as_str());
                text.append(" }");
            },
            EvictionStrategy::PriorityWithMemory { max_bytes, .. } => {
                text.append("EvictionStrategy::PriorityWithMemory { max_bytes: ");
                text.append(decimal_text(*max_bytes as u64).as_str());
                text.append(", priority_fn: \"<fn>\" }");
            },
        }
        assert(text@ =~= strategy_text(*self));
        text
    }

    /// Whether the rule for priorities, if there is one, can be asked about any entry.
    pub open spec fn total(&self) -> bool {
        match *self {
            EvictionStrategy::Priority(f) => f.total(),
            EvictionStrategy::PriorityWithMemory { priority_fn, max_bytes } => priority_fn.total(),
            _ => true,
        }
    }
}

/// A strategy as text.
pub open spec fn strategy_text<K, V>(strategy: EvictionStrategy<K, V>) -> Seq<char> {
    match strategy {
        EvictionStrategy::Lru => "EvictionStrategy::Lru"@,
        EvictionStrategy::Priority(_) => "EvictionStrategy::Priority(<fn>)"@,
        EvictionStrategy::Memory { max_bytes } => {
            "EvictionStrategy::Memory { max_bytes: "@ + decimal(max_bytes as nat) + " }"@
        },
        EvictionStrategy::PriorityWithMemory { priority_fn, max_bytes } => {
            "EvictionStrategy::PriorityWithMemory { max_bytes: "@ + decimal(max_bytes as nat)
                + ", priority_fn: \"<fn>\" }"@
        },
    }
}

/// The limit on the number of entries, or the largest number where there is none.
pub open spec fn limit_or_max(max_entries: Option<usize>) -> usize {
    match max_entries {
        Some(max) => max,
        None => usize::MAX,
    }
}

/// Whether `policy` carries out a strategy with this limit on the number of entries. By last use
/// alone nothing goes where there is no limit.
pub open spec fn carries_out<K: StorageKey, V>(
    policy: Option<AnyEviction<K, V>>,
    strategy: EvictionStrategy<K, V>,
    max_entries: Option<usize>,
) -> bool {
    match strategy {
        EvictionStrategy::Lru => match max_entries {
            Some(max) => policy matches Some(AnyEviction::Lru(p)) && p.limit() == max,
            None => policy is None,
        },
        EvictionStrategy::Priority(f) => {
            policy matches Some(AnyEviction::Priority(p)) && p.limit() == limit_or_max(max_entries)
                && p.rule() == f
        },
        EvictionStrategy::Memory { max_bytes } => {
            policy matches Some(AnyEviction::Memory(p)) && p.limit() == max_bytes
        },
        EvictionStrategy::PriorityWithMemory { priority_fn, max_bytes } => {
            policy matches Some(AnyEviction::PriorityWithMemory(p)) && p.entry_limit()
                == limit_or_max(max_entries) && p.byte_limit() == max_bytes && p.rule()
                == priority_fn
        },
    }
}

impl<K: StorageKey, V> EvictionStrategy<K, V> {
    /// The policy that carries this strategy out, with a limit on the number of entries.
    pub fn into_policy(self, max_entries: Option<usize>) -> (policy: Option<AnyEviction<K, V>>)
        ensures
            carries_out(policy, self, max_entries),
    {
        let limit: usize = match max_entries {
            Some(max) => max,
            None => usize::MAX,
        };
        match self {
            EvictionStrategy::Lru => match max_entries {
                Some(max) => Some(AnyEviction::Lru(LruEviction::new(max))),
                None => None,
            },
            EvictionStrategy::Priority(f) => Some(
                AnyEviction::Priority(PriorityEviction::new(limit, f)),
            ),
            EvictionStrategy::Memory { max_bytes } => Some(
                AnyEviction::Memory(MemoryEviction::new(max_bytes)),
            ),
            EvictionStrategy::PriorityWithMemory { priority_fn, max_bytes } => Some(
                AnyEviction::PriorityWithMemory(
                    PriorityWithMemoryEviction::new(limit, priority_fn, max_bytes),
                ),
            ),
        }
    }
}

} // verus!
