//! What the application needs from its surroundings: keys, eviction policies, a clock, a storage.
use crate::domain::signature::EventSignature;
use crate::text::hex16;
use crate::time::Instant;
use vstd::prelude::*;

verus! {

/// A key under which a value can be stored. Keys are told apart by their text.
///
/// Here and in the traits below, an implementation that is not to be reasoned about can leave
/// out what is specification only.
pub trait StorageKey: Sized {
    /// The text of the key.
    open spec fn id(&self) -> Seq<char> {
        arbitrary()
    }

    /// The text of the key.
    fn storage_key(&self) -> (text: String)
        ensures
            text@ == self.id(),
    ;

    /// The same key again.
    fn duplicate(&self) -> (key: Self)
        ensures
            key.id() == self.id(),
    ;
}

impl StorageKey for String {
    open spec fn id(&self) -> Seq<char> {
        self@
    }

    fn storage_key(&self) -> (text: String) {
        self.clone()
    }

    fn duplicate(&self) -> (key: Self) {
        self.clone()
    }
}

impl StorageKey for &'static str {
    open spec fn id(&self) -> Seq<char> {
        self@
    }

    fn storage_key(&self) -> (text: String) {
        (*self).to_owned()
    }

    fn duplicate(&self) -> (key: Self) {
        *self
    }
}

impl StorageKey for EventSignature {
    open spec fn id(&self) -> Seq<char> {
        hex16(self@)
    }

    fn storage_key(&self) -> (text: String) {
        self.to_string()
    }

    fn duplicate(&self) -> (key: Self) {
        *self
    }
}

/// An entry that may have to go.
pub struct EvictionCandidate<K, V> {
    /// Key of the entry.
    pub key: K,
    /// Value of the entry.
    pub value: V,
    /// When the entry was last used.
    pub last_access: Instant,
}

/// The text of a key that may be missing.
pub open spec fn opt_id<K: StorageKey>(key: Option<K>) -> Option<Seq<char>> {
    match key {
        Some(k) => Some(k.id()),
        None => None,
    }
}

/// Decides when an entry has to go, and which.
pub trait EvictionPolicy<K: StorageKey, V>: Send + Sync {
    /// Whether the policy can be asked about any candidates. One that relies on a function of
    /// the user is ready if that function is.
    open spec fn ready(&self) -> bool {
        true
    }

    /// Whether the policy may choose `victim` among these candidates.
    open spec fn selects(
        &self,
        candidates: Seq<EvictionCandidate<K, V>>,
        victim: Option<Seq<char>>,
    ) -> bool {
        true
    }

    /// Whether an entry has to go before another can come in.
    open spec fn evicts(&self, entries: usize, bytes: usize) -> bool {
        arbitrary()
    }

    /// Whether the policy wants memory use to be tracked.
    open spec fn tracks(&self) -> bool {
        arbitrary()
    }

    /// The memory that an entry is taken to use.
    open spec fn entry_size(&self, key: Seq<char>, value: V) -> usize {
        arbitrary()
    }

    /// Chooses the entry that has to go. There may be none.
    fn select_victim(&self, candidates: &[EvictionCandidate<K, V>]) -> (victim: Option<K>)
        requires
            self.ready(),
        ensures
            self.selects(candidates@, opt_id(victim)),
    ;

    /// Whether an entry has to go before another can come in.
    fn should_evict(&self, current_entries: usize, current_memory_bytes: usize) -> (r: bool)
        ensures
            r == self.evicts(current_entries, current_memory_bytes),
    ;

    /// Whether memory use is to be tracked.
    fn tracks_memory(&self) -> (r: bool)
        ensures
            r == self.tracks(),
    ;

    /// The memory that an entry is taken to use. It matters only where memory is tracked.
    fn estimate_entry_size(&self, key: &K, value: &V) -> (bytes: usize)
        ensures
            bytes == self.entry_size(key.id(), *value),
    ;
}

/// Tells the time.
pub trait Clock: Send + Sync {
    /// Whether the clock may tell this time. A clock of which nothing is known may tell any.
    open spec fn tells(&self, now: nat) -> bool {
        true
    }

    /// The present.
    fn now(&self) -> (now: Instant)
        ensures
            self.tells(now@),
    ;
}

/// Whether an access to a key starts from `value`: what is stored, or what the factory makes.
pub open spec fn starts_from<V, G: FnOnce() -> V>(
    contents: Map<Seq<char>, V>,
    id: Seq<char>,
    factory: G,
    value: V,
) -> bool {
    if contents.contains_key(id) {
        value == contents[id]
    } else {
        factory.ensures((), value)
    }
}

/// Whether no entry but that of `id` has a new value, and no entry but that of `id` is new.
pub open spec fn others_unchanged<V>(
    before: Map<Seq<char>, V>,
    after: Map<Seq<char>, V>,
    id: Seq<char>,
) -> bool {
    forall|other: Seq<char>|
        other != id && #[trigger] after.contains_key(other) ==> before.contains_key(other)
            && after[other] == before[other]
}

/// Whether every entry is still there.
pub open spec fn none_dropped<V>(before: Map<Seq<char>, V>, after: Map<Seq<char>, V>) -> bool {
    forall|id: Seq<char>| #[trigger] before.contains_key(id) ==> after.contains_key(id)
}

/// Whether a sequence of keys names each entry once.
pub open spec fn enumerates<K: StorageKey, V>(keys: Seq<K>, contents: Map<Seq<char>, V>) -> bool {
    &&& forall|i: int| 0 <= i < keys.len() ==> contents.contains_key(#[trigger] keys[i].id())
    &&& forall|i: int, j: int|
        0 <= i < j < keys.len() ==> #[trigger] keys[i].id() != #[trigger] keys[j].id()
    &&& forall|id: Seq<char>| #[trigger]
        contents.contains_key(id) ==> exists|i: int|
            0 <= i < keys.len() && #[trigger] keys[i].id() == id
}

/// Whether there is a value for each key.
pub open spec fn lists<K, V>(keys: Seq<K>, values: Seq<V>) -> bool {
    keys.len() == values.len()
}

/// Whether these keys and values are all entries, each once.
pub open spec fn is_listed<K: StorageKey, V>(
    keys: Seq<K>,
    values: Seq<V>,
    contents: Map<Seq<char>, V>,
) -> bool {
    &&& enumerates(keys, contents)
    &&& forall|i: int| 0 <= i < keys.len() ==> #[trigger] values[i] == contents[keys[i].id()]
}

/// Keeps values by key.
///
/// Not every storage can be relied on: one that several processes write to, or that may be out of
/// reach, may give access to any value, and need not know what it holds. Such a storage declines
/// [`Storage::is_exact`], and little is promised of it.
pub trait Storage<K: StorageKey, V>: Sized {
    /// Whether the storage is in order. Every constructor and every method sees to that.
    open spec fn wf(&self) -> bool {
        true
    }

    /// Whether the storage holds what was put into it and nothing else, and knows what it holds.
    open spec fn is_exact(&self) -> bool {
        false
    }

    /// What is stored, by the text of its key, in a storage that is exact.
    open spec fn contents(&self) -> Map<Seq<char>, V> {
        arbitrary()
    }

    /// Whether the storage never drops an entry to make room for another.
    open spec fn keeps_all(&self) -> bool {
        false
    }

    /// Whether `after` can be this storage once the value of `id` has been used, and has changed
    /// from `first` to `last`: what is dropped to make room, and how the bookkeeping changes.
    open spec fn becomes(&self, id: Seq<char>, first: V, last: V, after: &Self) -> bool {
        true
    }

    /// How many entries the storage itself has dropped to make room for others.
    open spec fn evicted(&self) -> u64 {
        0
    }

    /// How many entries the storage itself has dropped to make room for others.
    fn evictions(&self) -> (n: u64)
        ensures
            n == self.evicted(),
    ;

    /// Gives access to the value of a key, which is made first where there is none. Other
    /// entries keep their values; some may be dropped to make room for a new one.
    fn with_entry_mut<R, G: FnOnce() -> V, F: FnOnce(&mut V) -> R>(
        &mut self,
        key: K,
        factory: G,
        accessor: F,
    ) -> (r: R)
        requires
            old(self).wf(),
            !(old(self).is_exact() && old(self).contents().contains_key(key.id()))
                ==> factory.requires(()),
            forall|v: &mut V|
                (old(self).is_exact() ==> starts_from(
                    old(self).contents(),
                    key.id(),
                    factory,
                    *v,
                )) ==> #[trigger] accessor.requires((v,)),
        ensures
            final(self).wf(),
            final(self).is_exact() == old(self).is_exact(),
            final(self).keeps_all() == old(self).keeps_all(),
            exists|v: &mut V|
                {
                    &&& #[trigger] accessor.ensures((v,), r)
                    &&& old(self).is_exact() ==> {
                        &&& starts_from(old(self).contents(), key.id(), factory, *v)
                        &&& final(self).contents().contains_key(key.id())
                        &&& final(self).contents()[key.id()] == *final(v)
                        &&& old(self).becomes(key.id(), *v, *final(v), final(self))
                    }
                },
            old(self).is_exact() ==> others_unchanged(
                old(self).contents(),
                final(self).contents(),
                key.id(),
            ),
            old(self).is_exact() && (old(self).contents().contains_key(key.id()) || old(
                self
            ).keeps_all()) ==> none_dropped(old(self).contents(), final(self).contents()),
    ;

    /// How many entries there are.
    fn len(&self) -> (n: usize)
        requires
            self.wf(),
        ensures
            self.is_exact() ==> self.contents().dom().finite() && n
                == self.contents().dom().len(),
    ;

    /// Whether there are no entries.
    fn is_empty(&self) -> (r: bool)
        requires
            self.wf(),
        ensures
            self.is_exact() ==> r == (self.contents() == Map::<Seq<char>, V>::empty()),
    ;

    /// Drops all entries.
    fn clear(&mut self)
        requires
            old(self).wf(),
        ensures
            final(self).wf(),
            final(self).is_exact() == old(self).is_exact(),
            final(self).keeps_all() == old(self).keeps_all(),
            old(self).is_exact() ==> final(self).contents() == Map::<Seq<char>, V>::empty(),
    ;

    /// Calls a function on each entry, in no particular order, and returns what it gave.
    fn for_each<R, F: FnMut(&K, &V) -> R>(&self, f: F) -> (results: Vec<R>)
        requires
            self.wf(),
            forall|k: &K, v: &V|
                (self.is_exact() ==> self.contents().contains_key(k.id()) && *v
                    == self.contents()[k.id()]) ==> #[trigger] f.requires((k, v)),
        ensures
            exists|keys: Seq<K>, values: Seq<V>|
                {
                    &&& #[trigger] lists(keys, values)
                    &&& self.is_exact() ==> is_listed(keys, values, self.contents())
                    &&& results@.len() == keys.len()
                    &&& forall|i: int|
                        0 <= i < keys.len() ==> f.ensures(
                            (&keys[i], &values[i]),
                            #[trigger] results@[i],
                        )
                },
    ;

    /// Drops the entries for which the predicate gives `false`. The predicate may change the
    /// values of those that stay.
    fn retain<F: FnMut(&K, &mut V) -> bool>(&mut self, f: F)
        requires
            old(self).wf(),
            forall|k: &K, v: &mut V|
                (old(self).is_exact() ==> old(self).contents().contains_key(k.id()) && *v == old(
                    self
                ).contents()[k.id()]) ==> #[trigger] f.requires((k, v)),
        ensures
            final(self).wf(),
            final(self).is_exact() == old(self).is_exact(),
            final(self).keeps_all() == old(self).keeps_all(),
            old(self).is_exact() ==> forall|id: Seq<char>| #[trigger]
                final(self).contents().contains_key(id) ==> old(self).contents().contains_key(id),
            old(self).is_exact() ==> forall|id: Seq<char>| #[trigger]
                old(self).contents().contains_key(id) ==> exists|k: &K, v: &mut V, keep: bool|
                    {
                        &&& k.id() == id
                        &&& *v == old(self).contents()[id]
                        &&& #[trigger] f.ensures((k, v), keep)
                        &&& final(self).contents().contains_key(id) == keep
                        &&& keep ==> final(self).contents()[id] == *final(v)
                    },
    ;
}

} // verus!
