//! A storage in memory, with an eviction policy of one's choice.
use crate::application::metrics::{next_count, Metrics};
use crate::application::ports::{
    enumerates, is_listed, lists, opt_id, starts_from, EvictionCandidate, EvictionPolicy, Storage,
    StorageKey,
};
use crate::infrastructure::eviction::AnyEviction;
use crate::infrastructure::index::{
    clear, first_keys, get, insert, is_empty, len, new_index, no_slots, remove, slots,
};
use crate::text::{decimal, decimal_text};
use crate::time::{clamp_u64, saturate_u64, Epoch, Instant};
use dashmap::DashMap;
use vstd::prelude::*;

verus! {

/// How many entries are looked at when one has to go.
pub const SAMPLE_SIZE: usize = 20;

/// A stored value, with its key and the time of its last use.
struct StorageEntry<K, V> {
    key: K,
    value: V,
    last_access_nanos: u64,
}

/// Model of [`ShardedStorage`].
#[verifier::reject_recursive_types(V)]
#[verifier::ext_equal]
pub struct StorageModel<V> {
    /// What is stored, by the text of its key.
    pub contents: Map<Seq<char>, V>,
    /// When each entry was last used.
    pub accesses: Map<Seq<char>, u64>,
    /// Memory that the entries are taken to use.
    pub bytes: usize,
    /// How many entries have been dropped to make room for others.
    pub evictions: u64,
    /// Where evictions are counted for monitoring, if they are.
    pub metrics: Option<Metrics>,
    /// The base point of the times.
    pub epoch: Epoch,
}

/// The texts of the keys, in the order of the positions.
closed spec fn ids<K: StorageKey, V>(entries: Seq<StorageEntry<K, V>>) -> Seq<Seq<char>> {
    entries.map_values(|e: StorageEntry<K, V>| e.key.id())
}

/// Whether an index leads from each key to its position, and nowhere else.
spec fn linked(keys: Seq<Seq<char>>, index: Map<Seq<char>, usize>) -> bool {
    &&& forall|i: int|
        0 <= i < keys.len() ==> index.contains_key(#[trigger] keys[i]) && index[keys[i]] == i
    &&& forall|k: Seq<char>| #[trigger]
        index.contains_key(k) ==> index[k] < keys.len() && keys[index[k] as int] == k
}

/// As many keys as positions.
proof fn lemma_linked_size(keys: Seq<Seq<char>>, index: Map<Seq<char>, usize>)
    requires
        linked(keys, index),
    ensures
        index.dom().finite(),
        index.dom().len() == keys.len(),
{
    assert(keys.no_duplicates()) by {
        assert forall|i: int, j: int|
            0 <= i < keys.len() && 0 <= j < keys.len() && i != j implies keys[i] != keys[j] by {
            assert(index[keys[i]] == i);
            assert(index[keys[j]] == j);
        }
    }
    keys.unique_seq_to_set();
    vstd::seq_lib::seq_to_set_is_finite(keys);
    assert(keys.to_set() =~= index.dom()) by {
        assert forall|k: Seq<char>| keys.to_set().contains(k) == index.dom().contains(k) by {
            if index.contains_key(k) {
                assert(keys[index[k] as int] == k);
            }
        }
    }
}

/// A new key at the end.
proof fn lemma_linked_push(keys: Seq<Seq<char>>, index: Map<Seq<char>, usize>, id: Seq<char>)
    requires
        linked(keys, index),
        !index.contains_key(id),
        keys.len() <= usize::MAX,
    ensures
        linked(keys.push(id), index.insert(id, keys.len() as usize)),
{
}

/// The last key takes the place of one that goes.
proof fn lemma_linked_remove(keys: Seq<Seq<char>>, index: Map<Seq<char>, usize>, p: int)
    requires
        linked(keys, index),
        0 <= p < keys.len(),
        keys.len() <= usize::MAX,
    ensures
        p == keys.len() - 1 ==> linked(keys.drop_last(), index.remove(keys[p])),
        p < keys.len() - 1 ==> linked(
            keys.update(p, keys.last()).drop_last(),
            index.remove(keys[p]).insert(keys.last(), p as usize),
        ),
{
    let last = keys.len() - 1;
    assert(index[keys[p]] == p);
    assert(index[keys[last]] == last);
}

/// A map from keys to values that can be given a limit.
///
/// The hash map says which keys there are, how many, and in what order they come, and leads from a
/// key to the position of its entry in a list. So what the hash map holds does not depend on the
/// type of the values.
///
/// Where an eviction policy is set, it is asked before a new key comes in whether an entry has
/// to go first, and chooses one among a sample.
#[verifier::reject_recursive_types(K)]
#[verifier::reject_recursive_types(V)]
pub struct ShardedStorage<K: StorageKey, V> {
    index: DashMap<String, usize>,
    entries: Vec<StorageEntry<K, V>>,
    epoch: Epoch,
    evictions: u64,
    metrics: Option<Metrics>,
    eviction_policy: Option<AnyEviction<K, V>>,
    current_memory_bytes: usize,
}

/// Whether `sample` is a choice of entries: as many as fit, each with its value (a clone of it)
/// and the time of its last use, and none twice.
pub open spec fn is_sample<K: StorageKey, V: Clone>(
    m: StorageModel<V>,
    sample: Seq<EvictionCandidate<K, V>>,
) -> bool {
    &&& sample.len() == if m.contents.dom().len() <= SAMPLE_SIZE {
        m.contents.dom().len()
    } else {
        SAMPLE_SIZE as nat
    }
    &&& forall|i: int|
        0 <= i < sample.len() ==> {
            let id = (#[trigger] sample[i]).key.id();
            &&& m.contents.contains_key(id)
            &&& cloned(m.contents[id], sample[i].value)
            &&& sample[i].last_access@ == m.accesses[id]
        }
    &&& forall|i: int, j: int|
        0 <= i < j < sample.len() ==> (#[trigger] sample[i]).key.id() != (
        #[trigger] sample[j]).key.id()
}

/// `a - b`, starting over at the top below zero.
pub open spec fn wrapping_diff(a: usize, b: usize) -> usize {
    if a >= b {
        (a - b) as usize
    } else {
        (a - b + usize::MAX + 1) as usize
    }
}

/// `a + b`, starting over at zero above the top.
pub open spec fn wrapping_sum(a: usize, b: usize) -> usize {
    if a + b <= usize::MAX {
        (a + b) as usize
    } else {
        (a + b - usize::MAX - 1) as usize
    }
}

/// The storage once the victim has gone: none, or one that is not there, changes nothing.
pub open spec fn without_victim<K: StorageKey, V>(
    policy: Option<AnyEviction<K, V>>,
    m: StorageModel<V>,
    victim: Option<Seq<char>>,
) -> StorageModel<V> {
    match victim {
        Some(id) => if m.contents.contains_key(id) {
            StorageModel {
                contents: m.contents.remove(id),
                accesses: m.accesses.remove(id),
                bytes: match policy {
                    Some(p) => if p.tracks() {
                        wrapping_diff(m.bytes, p.entry_size(id, m.contents[id]))
                    } else {
                        m.bytes
                    },
                    None => m.bytes,
                },
                evictions: next_count(m.evictions),
                ..m
            }
        } else {
            m
        },
        None => m,
    }
}

/// Whether an eviction, if there was one, was counted for monitoring, if that is wanted.
pub open spec fn is_eviction_noted<V>(before: StorageModel<V>, after: StorageModel<V>) -> bool {
    after.evictions != before.evictions ==> (before.metrics matches Some(metrics)
        ==> metrics.eviction_noted())
}

/// Whether `after` can be the storage once the policy has chosen a victim.
pub open spec fn evicted<K: StorageKey, V: Clone>(
    policy: Option<AnyEviction<K, V>>,
    before: StorageModel<V>,
    after: StorageModel<V>,
) -> bool {
    match policy {
        Some(p) => exists|sample: Seq<EvictionCandidate<K, V>>, victim: Option<Seq<char>>|
            is_sample(before, sample) && #[trigger] p.selects(sample, victim) && after
                == without_victim(policy, before, victim),
        None => after == before,
    }
}

/// Whether an entry has to go before a new one can come in.
pub open spec fn is_full<K: StorageKey, V>(
    policy: Option<AnyEviction<K, V>>,
    m: StorageModel<V>,
) -> bool {
    match policy {
        Some(p) => p.evicts(m.contents.dom().len() as usize, m.bytes),
        None => false,
    }
}

/// Whether `after` can be the storage once there is room for `id`.
pub open spec fn made_room<K: StorageKey, V: Clone>(
    policy: Option<AnyEviction<K, V>>,
    before: StorageModel<V>,
    id: Seq<char>,
    after: StorageModel<V>,
) -> bool {
    if !before.contents.contains_key(id) && is_full(policy, before) {
        evicted(policy, before, after)
    } else {
        after == before
    }
}

/// The storage once the value of `id` has been used, and changed from `first` to `last`.
pub open spec fn used<K: StorageKey, V>(
    policy: Option<AnyEviction<K, V>>,
    m: StorageModel<V>,
    id: Seq<char>,
    first: V,
    last: V,
    now: nat,
) -> StorageModel<V> {
    StorageModel {
        contents: m.contents.insert(id, last),
        accesses: m.accesses.insert(id, clamp_u64(now)),
        bytes: match policy {
            Some(p) => if !m.contents.contains_key(id) && p.tracks() {
                wrapping_sum(m.bytes, p.entry_size(id, first))
            } else {
                m.bytes
            },
            None => m.bytes,
        },
        ..m
    }
}

/// A storage as text.
pub open spec fn storage_text<V>(m: StorageModel<V>, has_policy: bool) -> Seq<char> {
    "ShardedStorage { map: \""@ + decimal(m.contents.dom().len()) + " entries\", eviction_policy: "@
        + (if has_policy {
        "Some(\"<policy>\")"@
    } else {
        "None"@
    }) + ", current_memory_bytes: "@ + decimal(m.bytes as nat) + " }"@
}

impl<K: StorageKey, V> ShardedStorage<K, V> {
    /// Whether the index and the entries agree, and the policy can be asked.
    pub closed spec fn inv(&self) -> bool {
        &&& linked(ids(self.entries@), slots(self.index))
        &&& self.eviction_policy matches Some(p) ==> p.ready()
    }

    /// What the storage holds.
    pub closed spec fn model(&self) -> StorageModel<V> {
        StorageModel {
            contents: Map::new(
                |k: Seq<char>| slots(self.index).contains_key(k),
                |k: Seq<char>| self.entries@[slots(self.index)[k] as int].value,
            ),
            accesses: Map::new(
                |k: Seq<char>| slots(self.index).contains_key(k),
                |k: Seq<char>| self.entries@[slots(self.index)[k] as int].last_access_nanos,
            ),
            bytes: self.current_memory_bytes,
            evictions: self.evictions,
            metrics: self.metrics,
            epoch: self.epoch,
        }
    }

    /// The eviction policy.
    pub closed spec fn policy(&self) -> Option<AnyEviction<K, V>> {
        self.eviction_policy
    }

    /// An empty storage without a limit.
    pub fn new() -> (r: Self)
        ensures
            r.inv(),
            r.policy() is None,
            r.model() == (StorageModel {
                contents: Map::<Seq<char>, V>::empty(),
                accesses: Map::<Seq<char>, u64>::empty(),
                bytes: 0,
                evictions: 0,
                metrics: None,
                epoch: r.model().epoch,
            }),
    {
        let r = ShardedStorage {
            index: new_index(),
            entries: Vec::new(),
            epoch: Epoch::start(),
            evictions: 0,
            metrics: None,
            eviction_policy: None,
            current_memory_bytes: 0,
        };
        assert(r.model().contents =~= Map::empty());
        assert(r.model().accesses =~= Map::empty());
        r
    }

    /// The same storage, which from now on also counts its evictions where `metrics` does.
    pub fn with_metrics(self, metrics: Metrics) -> (r: Self)
        ensures
            r.inv() == self.inv(),
            r.policy() == self.policy(),
            r.model() == (StorageModel { metrics: Some(metrics), ..self.model() }),
    {
        let mut r = self;
        r.metrics = Some(metrics);
        r
    }

    /// The same storage with an eviction policy.
    pub fn with_eviction_policy(self, policy: AnyEviction<K, V>) -> (r: Self)
        requires
            policy.ready(),
        ensures
            self.inv() ==> r.inv(),
            r.policy() == Some(policy),
            r.model() == self.model(),
    {
        let mut r = self;
        r.eviction_policy = Some(policy);
        r
    }

    /// Where evictions are counted for monitoring, if they are.
    pub fn metrics(&self) -> (r: Option<&Metrics>)
        ensures
            (match r {
                Some(m) => Some(*m),
                None => None,
            }) == self.model().metrics,
    {
        match &self.metrics {
            Some(m) => Some(m),
            None => None,
        }
    }

    /// Memory that the entries are taken to use: zero unless the policy wants it tracked.
    pub fn memory_bytes(&self) -> (n: usize)
        ensures
            n == self.model().bytes,
    {
        self.current_memory_bytes
    }

    /// The storage as text, for diagnosis: how many entries, whether there is a policy, and what
    /// memory is counted.
    pub fn debug_text(&self) -> (text: String)
        requires
            self.inv(),
        ensures
            text@ == storage_text(self.model(), self.policy() is Some),
    {
        proof {
            lemma_linked_size(ids(self.entries@), slots(self.index));
            assert(self.model().contents.dom() =~= slots(self.index).dom());
        }
        let mut text: String = "ShardedStorage { map: \"".to_owned();
        text.append(decimal_text(len(&self.index) as u64).as_str());
        text.append(" entries\", eviction_policy: ");
        match &self.eviction_policy {
            Some(_) => {
                text.append("Some(\"<policy>\")");
            },
            None => {
                text.append("None");
            },
        }
        text.append(", current_memory_bytes: ");
        text.append(decimal_text(self.current_memory_bytes as u64).as_str());
        text.append(" }");
        text
    }

    /// Whether the policy wants an entry to go before a new one comes in.
    fn should_evict(&self) -> (r: bool)
        requires
            self.inv(),
        ensures
            r == is_full(self.policy(), self.model()),
    {
        proof {
            lemma_linked_size(ids(self.entries@), slots(self.index));
            assert(self.model().contents.dom() =~= slots(self.index).dom());
        }
        match &self.eviction_policy {
            Some(policy) => policy.should_evict(len(&self.index), self.current_memory_bytes),
            None => false,
        }
    }

    /// Takes the entry at a position out. The last entry takes its place.
    fn remove_at(&mut self, position: usize) -> (entry: StorageEntry<K, V>)
        requires
            old(self).inv(),
            position < old(self).entries@.len(),
        ensures
            final(self).inv(),
            final(self).policy() == old(self).policy(),
            entry == old(self).entries@[position as int],
            final(self).entries@.len() == old(self).entries@.len() - 1,
            forall|j: int|
                0 <= j < position ==> #[trigger] final(self).entries@[j] == old(self).entries@[j],
            final(self).model() == (StorageModel {
                contents: old(self).model().contents.remove(entry.key.id()),
                accesses: old(self).model().accesses.remove(entry.key.id()),
                ..old(self).model()
            }),
    {
        let ghost keys = ids(self.entries@);
        let ghost before = self.model();
        let ghost index0 = slots(self.index);
        let last: usize = self.entries.len() - 1;
        proof {
            lemma_linked_remove(keys, index0, position as int);
            assert(index0[keys[position as int]] == position);
            assert(index0[keys[last as int]] == last);
        }
        let id: String = self.entries[position].key.storage_key();
        remove(&mut self.index, id.as_str());
        if position < last {
            let last_id: String = self.entries[last].key.storage_key();
            insert(&mut self.index, last_id, position);
        }
        let entry = self.entries.swap_remove(position);
        proof {
            let after = self.model();
            assert(ids(self.entries@) =~= keys.update(position as int, keys.last()).drop_last());
            if position == last {
                assert(keys.update(position as int, keys.last()) =~= keys);
            }
            assert(after.contents =~= before.contents.remove(id@));
            assert(after.accesses =~= before.accesses.remove(id@));
        }
        entry
    }
}

impl<K: StorageKey, V> ShardedStorage<K, V> {
    /// All keys, in the order in which the index goes over them.
    fn all_keys(&self) -> (keys: Vec<String>)
        requires
            self.inv(),
        ensures
            forall|i: int|
                0 <= i < keys@.len() ==> slots(self.index).contains_key(#[trigger] keys@[i]@),
            forall|i: int, j: int|
                0 <= i < j < keys@.len() ==> #[trigger] keys@[i]@ != #[trigger] keys@[j]@,
            forall|id: Seq<char>| #[trigger]
                slots(self.index).contains_key(id) ==> exists|i: int|
                    0 <= i < keys@.len() && #[trigger] keys@[i]@ == id,
    {
        let keys: Vec<String> = first_keys(&self.index, len(&self.index));
        proof {
            let dom = slots(self.index).dom();
            lemma_linked_size(ids(self.entries@), slots(self.index));
            let names = keys@.map_values(|k: String| k@);
            assert(names.no_duplicates()) by {
                assert forall|i: int, j: int|
                    0 <= i < names.len() && 0 <= j < names.len() && i != j implies names[i]
                    != names[j] by {
                    if i < j {
                        assert(keys@[i]@ != keys@[j]@);
                    } else {
                        assert(keys@[j]@ != keys@[i]@);
                    }
                }
            }
            names.unique_seq_to_set();
            assert(names.to_set().subset_of(dom)) by {
                assert forall|k: Seq<char>| names.to_set().contains(k) implies dom.contains(k) by {
                    let i = names.index_of(k);
                    assert(slots(self.index).contains_key(keys@[i]@));
                }
            }
            vstd::set_lib::lemma_subset_equality(names.to_set(), dom);
            assert forall|id: Seq<char>| #[trigger] slots(self.index).contains_key(id) implies (
            exists|i: int| 0 <= i < keys@.len() && #[trigger] keys@[i]@ == id) by {
                assert(names.to_set().contains(id));
                let i = names.index_of(id);
                assert(names[i] == id);
                assert(keys@[i]@ == id);
            }
        }
        keys
    }
}

impl<K: StorageKey, V: Clone> ShardedStorage<K, V> {
    /// Takes a sample of entries for the policy to choose from.
    fn sample(&self) -> (candidates: Vec<EvictionCandidate<K, V>>)
        requires
            self.inv(),
        ensures
            is_sample(self.model(), candidates@),
    {
        proof {
            lemma_linked_size(ids(self.entries@), slots(self.index));
            assert(self.model().contents.dom() =~= slots(self.index).dom());
        }
        let keys: Vec<String> = first_keys(&self.index, SAMPLE_SIZE);
        let mut candidates: Vec<EvictionCandidate<K, V>> = Vec::new();
        let mut i: usize = 0;
        while i < keys.len()
            invariant
                self.inv(),
                i <= keys@.len(),
                candidates@.len() == i,
                forall|j: int|
                    0 <= j < keys@.len() ==> slots(self.index).contains_key(#[trigger] keys@[j]@),
                forall|j: int|
                    0 <= j < i ==> {
                        let id = (#[trigger] candidates@[j]).key.id();
                        &&& id == keys@[j]@
                        &&& cloned(self.model().contents[id], candidates@[j].value)
                        &&& candidates@[j].last_access@ == self.model().accesses[id]
                    },
            decreases keys@.len() - i,
        {
            assert(slots(self.index).contains_key(keys@[i as int]@));
            match get(&self.index, keys[i].as_str()) {
                Some(position) => {
                    assert(ids(self.entries@)[position as int] == keys@[i as int]@);
                    let entry = &self.entries[position];
                    candidates.push(
                        EvictionCandidate {
                            key: entry.key.duplicate(),
                            value: entry.value.clone(),
                            last_access: Instant::from_nanos(entry.last_access_nanos as u128),
                        },
                    );
                },
                None => {},
            }
            i = i + 1;
        }
        candidates
    }

    /// Lets the policy choose an entry, and takes it out.
    fn evict_one(&mut self)
        requires
            old(self).inv(),
        ensures
            final(self).inv(),
            final(self).policy() == old(self).policy(),
            evicted(old(self).policy(), old(self).model(), final(self).model()),
            is_eviction_noted(old(self).model(), final(self).model()),
    {
        let policy: AnyEviction<K, V> = match &self.eviction_policy {
            Some(p) => p.clone(),
            None => {
                return ;
            },
        };
        let candidates: Vec<EvictionCandidate<K, V>> = self.sample();
        let victim: Option<K> = policy.select_victim(candidates.as_slice());
        let ghost before = self.model();
        let ghost victim_id = opt_id(victim);
        match victim {
            Some(key) => {
                let id: String = key.storage_key();
                match get(&self.index, id.as_str()) {
                    Some(position) => {
                        assert(ids(self.entries@)[position as int] == id@);
                        let entry = self.remove_at(position);
                        if policy.tracks_memory() {
                            let size: usize = policy.estimate_entry_size(&key, &entry.value);
                            self.current_memory_bytes = self.current_memory_bytes.wrapping_sub(
                                size,
                            );
                        }
                        self.evictions = self.evictions.wrapping_add(1);
                        match &self.metrics {
                            Some(metrics) => {
                                metrics.record_eviction();
                            },
                            None => {},
                        }
                        assert(self.model().contents =~= before.contents.remove(id@));
                        assert(self.model().accesses =~= before.accesses.remove(id@));
                    },
                    None => {},
                }
            },
            None => {},
        }
        assert(policy.selects(candidates@, victim_id));
        assert(self.model() == without_victim(old(self).policy(), before, victim_id));
    }

    /// Gives access at `now` to the value of a key, which is made first where there is none.
    pub fn with_entry_mut_at<R, G: FnOnce() -> V, F: FnOnce(&mut V) -> R>(
        &mut self,
        now: Instant,
        key: K,
        factory: G,
        accessor: F,
    ) -> (r: R)
        requires
            old(self).inv(),
            !old(self).model().contents.contains_key(key.id()) ==> factory.requires(()),
            forall|v: &mut V|
                starts_from(old(self).model().contents, key.id(), factory, *v)
                    ==> accessor.requires((v,)),
        ensures
            final(self).inv(),
            final(self).policy() == old(self).policy(),
            is_eviction_noted(old(self).model(), final(self).model()),
            exists|v: &mut V, mid: StorageModel<V>|
                {
                    &&& made_room(old(self).policy(), old(self).model(), key.id(), mid)
                    &&& starts_from(old(self).model().contents, key.id(), factory, *v)
                    &&& #[trigger] accessor.ensures((v,), r)
                    &&& final(self).model() == #[trigger] used(
                        old(self).policy(),
                        mid,
                        key.id(),
                        *v,
                        *final(v),
                        now@,
                    )
                },
    {
        let id: String = key.storage_key();
        let ghost before = self.model();
        let is_new: bool = get(&self.index, id.as_str()).is_none();
        if is_new && self.should_evict() {
            self.evict_one();
        }
        let ghost mid = self.model();
        let ghost name = id@;
        assert(made_room(old(self).policy(), before, name, mid));
        assert(mid.contents.contains_key(name) == before.contents.contains_key(name));
        let nanos: u64 = saturate_u64(now.as_nanos());
        let position: usize = match get(&self.index, id.as_str()) {
            Some(position) => {
                assert(ids(self.entries@)[position as int] == name);
                assert(mid.contents.contains_key(name));
                position
            },
            None => {
                assert(!mid.contents.contains_key(name));
                let value: V = factory();
                match &self.eviction_policy {
                    Some(policy) => {
                        if policy.tracks_memory() {
                            let size: usize = policy.estimate_entry_size(&key, &value);
                            self.current_memory_bytes = self.current_memory_bytes.wrapping_add(
                                size,
                            );
                        }
                    },
                    None => {},
                }
                let position: usize = self.entries.len();
                proof {
                    lemma_linked_push(ids(self.entries@), slots(self.index), name);
                }
                let ghost entries0 = self.entries@;
                insert(&mut self.index, id, position);
                self.entries.push(StorageEntry { key, value, last_access_nanos: nanos });
                assert(ids(self.entries@) =~= ids(entries0).push(name));
                position
            },
        };
        let ghost keys = ids(self.entries@);
        let ghost first = self.entries@[position as int].value;
        assert(linked(keys, slots(self.index)));
        assert(slots(self.index).contains_key(name) && slots(self.index)[name] == position);
        assert(starts_from(before.contents, name, factory, first));
        self.entries[position].last_access_nanos = nanos;
        assert(self.entries@[position as int].value == first);
        let r = accessor(&mut self.entries[position].value);
        proof {
            let last = self.entries@[position as int].value;
            assert(ids(self.entries@) =~= keys);
            let after = used(old(self).policy(), mid, name, first, last, now@);
            assert(self.model().contents =~= after.contents);
            assert(self.model().accesses =~= after.accesses);
            assert(self.model() =~= after);
        }
        r
    }
}

impl<K: StorageKey, V> Default for ShardedStorage<K, V> {
    fn default() -> (r: Self)
        ensures
            r.inv(),
            r.policy() is None,
            r.model() == (StorageModel {
                contents: Map::<Seq<char>, V>::empty(),
                accesses: Map::<Seq<char>, u64>::empty(),
                bytes: 0,
                evictions: 0,
                metrics: None,
                epoch: r.model().epoch,
            }),
    {
        ShardedStorage::new()
    }
}

/// Whether `b` holds what `a` holds, with clones of the values, and counts on where `a` does.
pub open spec fn is_clone<K: StorageKey, V: Clone>(
    a: ShardedStorage<K, V>,
    b: ShardedStorage<K, V>,
) -> bool {
    &&& b.inv()
    &&& b.policy() == a.policy()
    &&& b.model().accesses == a.model().accesses
    &&& b.model().bytes == a.model().bytes
    &&& b.model().evictions == a.model().evictions
    &&& b.model().metrics == a.model().metrics
    &&& b.model().epoch == a.model().epoch
    &&& b.model().contents.dom() == a.model().contents.dom()
    &&& forall|id: Seq<char>| #[trigger]
        a.model().contents.contains_key(id) ==> cloned(
            a.model().contents[id],
            b.model().contents[id],
        )
}

impl<K: StorageKey, V: Clone> Clone for ShardedStorage<K, V> {
    /// A second storage with the same entries. The two go separate ways.
    fn clone(&self) -> (r: Self)
        ensures
            self.inv() ==> is_clone(*self, r),
    {
        let mut index: DashMap<String, usize> = new_index();
        let mut entries: Vec<StorageEntry<K, V>> = Vec::new();
        let mut i: usize = 0;
        let ghost keys = ids(self.entries@);
        while i < self.entries.len()
            invariant
                keys == ids(self.entries@),
                i <= self.entries@.len(),
                entries@.len() == i,
                ids(entries@) == keys.take(i as int),
                self.inv() ==> linked(keys.take(i as int), slots(index)),
                forall|j: int|
                    0 <= j < i ==> cloned(
                        self.entries@[j].value,
                        (#[trigger] entries@[j]).value,
                    ) && entries@[j].last_access_nanos == self.entries@[j].last_access_nanos,
            decreases self.entries@.len() - i,
        {
            let entry = &self.entries[i];
            let ghost before = entries@;
            proof {
                if self.inv() {
                    assert(!slots(index).contains_key(keys[i as int])) by {
                        if slots(index).contains_key(keys[i as int]) {
                            let p = slots(index)[keys[i as int]] as int;
                            assert(keys.take(i as int)[p] == keys[i as int]);
                            assert(slots(self.index)[keys[p]] == p);
                            assert(slots(self.index)[keys[i as int]] == i);
                        }
                    }
                    lemma_linked_push(keys.take(i as int), slots(index), keys[i as int]);
                }
            }
            insert(&mut index, entry.key.storage_key(), i);
            entries.push(
                StorageEntry {
                    key: entry.key.duplicate(),
                    value: entry.value.clone(),
                    last_access_nanos: entry.last_access_nanos,
                },
            );
            proof {
                assert(keys.take(i + 1) =~= keys.take(i as int).push(keys[i as int]));
                assert(ids(entries@) =~= ids(before).push(keys[i as int]));
            }
            i = i + 1;
        }
        proof {
            assert(keys.take(i as int) =~= keys);
            assert forall|k: Seq<char>|
                self.inv() implies slots(index).contains_key(k) == slots(self.index).contains_key(k)
                && (slots(index).contains_key(k) ==> slots(index)[k] == slots(self.index)[k]) by {
                if slots(index).contains_key(k) {
                    assert(keys[slots(index)[k] as int] == k);
                }
                if slots(self.index).contains_key(k) {
                    assert(keys[slots(self.index)[k] as int] == k);
                }
            }
        }
        let r = ShardedStorage {
            index,
            entries,
            epoch: self.epoch,
            evictions: self.evictions,
            metrics: match &self.metrics {
                Some(m) => Some(m.clone()),
                None => None,
            },
            eviction_policy: match &self.eviction_policy {
                Some(p) => Some(p.clone()),
                None => None,
            },
            current_memory_bytes: self.current_memory_bytes,
        };
        proof {
            if self.inv() {
                assert(r.model().contents.dom() =~= self.model().contents.dom());
                assert(r.model().accesses =~= self.model().accesses);
            }
        }
        r
    }
}

impl<K: StorageKey, V: Clone> Storage<K, V> for ShardedStorage<K, V> {
    open spec fn wf(&self) -> bool {
        self.inv()
    }

    open spec fn is_exact(&self) -> bool {
        true
    }

    open spec fn contents(&self) -> Map<Seq<char>, V> {
        self.model().contents
    }

    open spec fn keeps_all(&self) -> bool {
        self.policy() is None
    }

    /// Where there is a limit, an entry is dropped that the policy chooses from a sample.
    open spec fn becomes(&self, id: Seq<char>, first: V, last: V, after: &Self) -> bool {
        &&& after.policy() == self.policy()
        &&& is_eviction_noted(self.model(), after.model())
        &&& exists|mid: StorageModel<V>, now: nat|
            made_room(self.policy(), self.model(), id, mid) && after.model() == #[trigger] used(
                self.policy(),
                mid,
                id,
                first,
                last,
                now,
            ) && self.model().epoch.shows(now)
    }

    open spec fn evicted(&self) -> u64 {
        self.model().evictions
    }

    fn evictions(&self) -> (n: u64) {
        self.evictions
    }

    fn with_entry_mut<R, G: FnOnce() -> V, F: FnOnce(&mut V) -> R>(
        &mut self,
        key: K,
        factory: G,
        accessor: F,
    ) -> (r: R) {
        let now: Instant = self.epoch.now();
        self.with_entry_mut_at(now, key, factory, accessor)
    }

    fn len(&self) -> (n: usize) {
        proof {
            lemma_linked_size(ids(self.entries@), slots(self.index));
            assert(self.contents().dom() =~= slots(self.index).dom());
        }
        len(&self.index)
    }

    fn is_empty(&self) -> (r: bool) {
        proof {
            if slots(self.index) == no_slots() {
                assert(self.contents() =~= Map::empty());
            }
            if self.contents() == Map::<Seq<char>, V>::empty() {
                assert(slots(self.index).dom() =~= self.contents().dom());
                assert(slots(self.index) =~= no_slots());
            }
        }
        is_empty(&self.index)
    }

    /// Memory use is not counted down.
    fn clear(&mut self)
        ensures
            final(self).policy() == old(self).policy(),
            final(self).model() == (StorageModel {
                contents: Map::<Seq<char>, V>::empty(),
                accesses: Map::<Seq<char>, u64>::empty(),
                ..old(self).model()
            }),
    {
        clear(&mut self.index);
        self.entries.clear();
        assert(self.contents() =~= Map::empty());
        assert(self.model().accesses =~= Map::empty());
    }

    fn for_each<R, F: FnMut(&K, &V) -> R>(&self, f: F) -> (results: Vec<R>) {
        let mut f = f;
        let mut results: Vec<R> = Vec::new();
        let names: Vec<String> = self.all_keys();
        let mut i: usize = 0;
        let ghost f0 = f;
        let ghost at = |j: int| slots(self.index)[names@[j]@] as int;
        let ghost keys: Seq<K> = Seq::new(names@.len(), |j: int| self.entries@[at(j)].key);
        proof {
            assert forall|j: int| 0 <= j < keys.len() implies {
                &&& (#[trigger] keys[j]).id() == names@[j]@
                &&& self.contents().contains_key(keys[j].id())
                &&& self.contents()[keys[j].id()] == self.entries@[at(j)].value
            } by {
                assert(slots(self.index).contains_key(names@[j]@));
                assert(ids(self.entries@)[at(j)] == names@[j]@);
            }
            assert forall|id: Seq<char>| #[trigger] self.contents().contains_key(id) implies exists|
                j: int,
            |
                0 <= j < keys.len() && #[trigger] keys[j].id() == id by {
                assert(slots(self.index).contains_key(id));
                let j = choose|j: int| 0 <= j < names@.len() && #[trigger] names@[j]@ == id;
                assert(keys[j].id() == id);
            }
            assert forall|a: int, b: int| 0 <= a < b < keys.len() implies #[trigger] keys[a].id()
                != #[trigger] keys[b].id() by {
                assert(names@[a]@ != names@[b]@);
            }
        }
        while i < names.len()
            invariant
                self.inv(),
                i <= names@.len(),
                keys.len() == names@.len(),
                results@.len() == i,
                f == f0,
                forall|j: int|
                    0 <= j < names@.len() ==> slots(self.index).contains_key(#[trigger] names@[j]@),
                forall|j: int|
                    0 <= j < keys.len() ==> {
                        let p = slots(self.index)[names@[j]@] as int;
                        &&& #[trigger] keys[j] == self.entries@[p].key
                        &&& self.contents().contains_key(keys[j].id())
                        &&& self.contents()[keys[j].id()] == self.entries@[p].value
                    },
                forall|k: &K, v: &V|
                    self.contents().contains_key(k.id()) && *v == self.contents()[k.id()]
                        ==> #[trigger] f0.requires((k, v)),
                forall|j: int|
                    0 <= j < i ==> f0.ensures(
                        (&keys[j], &self.contents()[keys[j].id()]),
                        #[trigger] results@[j],
                    ),
            decreases names@.len() - i,
        {
            assert(slots(self.index).contains_key(names@[i as int]@));
            match get(&self.index, names[i].as_str()) {
                Some(position) => {
                    let entry = &self.entries[position];
                    assert(keys[i as int] == entry.key);
                    let r = f(&entry.key, &entry.value);
                    results.push(r);
                },
                None => {},
            }
            i = i + 1;
        }
        proof {
            let values: Seq<V> = Seq::new(keys.len(), |j: int| self.contents()[keys[j].id()]);
            assert(enumerates(keys, self.contents()));
            assert(is_listed(keys, values, self.contents()));
            assert(lists(keys, values));
        }
        results
    }

    /// Memory use is not counted down.
    fn retain<F: FnMut(&K, &mut V) -> bool>(&mut self, f: F)
        ensures
            final(self).policy() == old(self).policy(),
            final(self).model().bytes == old(self).model().bytes,
            final(self).model().evictions == old(self).model().evictions,
            final(self).model().metrics == old(self).model().metrics,
            final(self).model().epoch == old(self).model().epoch,
            final(self).model().accesses == old(self).model().accesses.restrict(
                final(self).model().contents.dom(),
            ),
    {
        let mut f = f;
        let ghost f0 = f;
        let ghost before = self.contents();
        let ghost accesses0 = self.model().accesses;
        let names: Vec<String> = self.all_keys();
        let mut i: usize = 0;
        proof {
            assert(accesses0 =~= accesses0.restrict(self.contents().dom()));
            assert forall|id: Seq<char>| #[trigger] before.contains_key(id) implies exists|j: int|
                0 <= j < names@.len() && #[trigger] names@[j]@ == id by {
                assert(slots(self.index).contains_key(id));
            }
            assert forall|j: int| 0 <= j < names@.len() implies before.contains_key(
                #[trigger] names@[j]@,
            ) by {
                assert(slots(self.index).contains_key(names@[j]@));
            }
        }
        while i < names.len()
            invariant
                self.inv(),
                self.policy() == old(self).policy(),
                self.model().bytes == old(self).model().bytes,
                self.model().evictions == old(self).model().evictions,
                self.model().metrics == old(self).model().metrics,
                self.model().epoch == old(self).model().epoch,
                self.model().accesses =~= accesses0.restrict(self.contents().dom()),
                f == f0,
                i <= names@.len(),
                forall|a: int, b: int|
                    0 <= a < b < names@.len() ==> #[trigger] names@[a]@ != #[trigger] names@[b]@,
                forall|j: int| 0 <= j < names@.len() ==> before.contains_key(#[trigger] names@[j]@),
                forall|k: &K, v: &mut V|
                    before.contains_key(k.id()) && *v == before[k.id()] ==> #[trigger] f0.requires(
                        (k, v),
                    ),
                forall|id: Seq<char>| #[trigger]
                    self.contents().contains_key(id) ==> before.contains_key(id),
                forall|j: int|
                    i <= j < names@.len() ==> {
                        &&& self.contents().contains_key(#[trigger] names@[j]@)
                        &&& self.contents()[names@[j]@] == before[names@[j]@]
                    },
                forall|j: int|
                    0 <= j < i ==> (exists|k: &K, v: &mut V, keep: bool|
                        {
                            &&& k.id() == (#[trigger] names@[j])@
                            &&& *v == before[names@[j]@]
                            &&& #[trigger] f0.ensures((k, v), keep)
                            &&& self.contents().contains_key(names@[j]@) == keep
                            &&& keep ==> self.contents()[names@[j]@] == *final(v)
                        }),
            decreases names@.len() - i,
        {
            let ghost cur = self.contents();
            let ghost keys = ids(self.entries@);
            let ghost name = names@[i as int]@;
            assert(cur.contains_key(name) && cur[name] == before[name]);
            match get(&self.index, names[i].as_str()) {
                Some(position) => {
                    assert(keys[position as int] == name);
                    let entry = &mut self.entries[position];
                    let keep: bool = f(&entry.key, &mut entry.value);
                    proof {
                        assert(ids(self.entries@) =~= keys);
                        let last = self.entries@[position as int].value;
                        assert(self.contents() =~= cur.insert(name, last));
                        assert(self.model().accesses =~= accesses0.restrict(
                            self.contents().dom(),
                        ));
                    }
                    if !keep {
                        self.remove_at(position);
                        assert(self.contents() =~= cur.remove(name));
                        assert(self.model().accesses =~= accesses0.restrict(
                            self.contents().dom(),
                        ));
                    }
                    assert(exists|k: &K, v: &mut V, keep: bool|
                        {
                            &&& k.id() == name
                            &&& *v == before[name]
                            &&& #[trigger] f0.ensures((k, v), keep)
                            &&& self.contents().contains_key(name) == keep
                            &&& keep ==> self.contents()[name] == *final(v)
                        });
                },
                None => {},
            }
            proof {
                assert forall|j: int| 0 <= j < i implies (exists|k: &K, v: &mut V, keep: bool|
                    {
                        &&& k.id() == (#[trigger] names@[j])@
                        &&& *v == before[names@[j]@]
                        &&& #[trigger] f0.ensures((k, v), keep)
                        &&& self.contents().contains_key(names@[j]@) == keep
                        &&& keep ==> self.contents()[names@[j]@] == *final(v)
                    }) by {
                    assert(names@[j]@ != name);
                    assert((exists|k: &K, v: &mut V, keep: bool|
                        {
                            &&& k.id() == names@[j]@
                            &&& *v == before[names@[j]@]
                            &&& #[trigger] f0.ensures((k, v), keep)
                            &&& cur.contains_key(names@[j]@) == keep
                            &&& keep ==> cur[names@[j]@] == *final(v)
                        }));
                    assert(self.contents().contains_key(names@[j]@) == cur.contains_key(
                        names@[j]@,
                    ));
                }
                assert forall|j: int| i < j < names@.len() implies {
                    &&& self.contents().contains_key(#[trigger] names@[j]@)
                    &&& self.contents()[names@[j]@] == before[names@[j]@]
                } by {
                    assert(names@[j]@ != name);
                }
            }
            i = i + 1;
        }
        proof {
            assert forall|id: Seq<char>| #[trigger] before.contains_key(id) implies (exists|
                k: &K,
                v: &mut V,
                keep: bool,
            |
                {
                    &&& k.id() == id
                    &&& *v == before[id]
                    &&& #[trigger] f0.ensures((k, v), keep)
                    &&& self.contents().contains_key(id) == keep
                    &&& keep ==> self.contents()[id] == *final(v)
                }) by {
                let j = choose|j: int| 0 <= j < names@.len() && #[trigger] names@[j]@ == id;
                assert(names@[j]@ == id);
            }
        }
    }
}

} // verus!
