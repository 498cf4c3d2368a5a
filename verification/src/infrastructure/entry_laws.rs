//! What one use of an entry does to a storage in memory, number by number.
use crate::application::ports::{
    is_listed, lists, none_dropped, others_unchanged, starts_from, EvictionCandidate,
    EvictionPolicy, Storage, StorageKey,
};
use crate::infrastructure::eviction::lru::{is_oldest, selects_oldest};
use crate::infrastructure::eviction::memory::estimated_size;
use crate::infrastructure::eviction::priority::{is_lowest, rated, selects_lowest, PriorityFn};
use crate::infrastructure::eviction::{
    AnyEviction, LruEviction, MemoryEviction, PriorityEviction, PriorityWithMemoryEviction,
};
use crate::infrastructure::storage::{
    evicted, is_clone, is_full, is_sample, made_room, used, without_victim, wrapping_diff,
    wrapping_sum, ShardedStorage, StorageModel,
};
use crate::infrastructure::storage_laws::{
    byte_limit, entry_limit, is_built_in, law_built_in_policies_take_a_candidate,
};
use vstd::prelude::*;

verus! {

/// A use stores the value that it leaves under its own key, together with the time of the use, and
/// touches no other entry: neither its value nor the time of its last use.
pub proof fn law_use_stores_value_and_time<K: StorageKey, V>(
    policy: Option<AnyEviction<K, V>>,
    m: StorageModel<V>,
    id: Seq<char>,
    first: V,
    last: V,
    now: nat,
    other: Seq<char>,
)
    ensures
        ({
            let after = used(policy, m, id, first, last, now);
            &&& after.contents.contains_key(id) && after.contents[id] == last
            &&& now <= u64::MAX ==> after.accesses.contains_key(id) && after.accesses[id] == now
            &&& other != id ==> (after.contents.contains_key(other) <==> m.contents.contains_key(
                other,
            ))
            &&& other != id && m.contents.contains_key(other) ==> after.contents[other]
                == m.contents[other]
            &&& other != id && m.accesses.contains_key(other) ==> after.accesses[other]
                == m.accesses[other]
            &&& after.evictions == m.evictions
            &&& after.metrics == m.metrics
            &&& after.epoch == m.epoch
        }),
{
}

/// The memory that is counted goes up by the size of a new entry where the policy wants memory
/// tracked, and stays as it is otherwise.
pub proof fn law_new_entry_adds_its_size<K: StorageKey, V>(
    policy: Option<AnyEviction<K, V>>,
    m: StorageModel<V>,
    id: Seq<char>,
    first: V,
    last: V,
    now: nat,
)
    ensures
        ({
            let after = used(policy, m, id, first, last, now);
            &&& m.contents.contains_key(id) ==> after.bytes == m.bytes
            &&& policy is None ==> after.bytes == m.bytes
            &&& policy is Some && (policy->0 is Lru || policy->0 is Priority) ==> after.bytes
                == m.bytes
            &&& policy is Some && (policy->0 is Memory || policy->0 is PriorityWithMemory)
                && !m.contents.contains_key(id) && m.bytes + estimated_size::<K, V>()
                <= usize::MAX ==> after.bytes == m.bytes + estimated_size::<K, V>()
        }),
{
}

/// An entry is taken to use the memory of its key and its value, and 264 bytes besides.
pub proof fn law_entry_size_is_key_value_and_overhead<K, V>()
    requires
        vstd::layout::size_of::<K>() + vstd::layout::size_of::<V>() + 264 <= usize::MAX,
    ensures
        estimated_size::<K, V>() == vstd::layout::size_of::<K>() + vstd::layout::size_of::<V>()
            + 264,
{
}

/// Nothing goes as long as there is room: not for an entry that is there already, not without a
/// policy, not below the limit on the number of entries, and not below that on memory.
pub proof fn law_nothing_goes_while_there_is_room<K: StorageKey, V: Clone>(
    policy: Option<AnyEviction<K, V>>,
    before: StorageModel<V>,
    id: Seq<char>,
    mid: StorageModel<V>,
)
    requires
        made_room(policy, before, id, mid),
        before.contents.dom().finite(),
        before.contents.dom().len() <= usize::MAX,
        before.contents.contains_key(id) || policy is None || (policy matches Some(p)
            && is_built_in(p) && (entry_limit(p) matches Some(max) ==> before.contents.dom().len()
            < max) && (byte_limit(p) matches Some(max) ==> before.bytes < max)),
    ensures
        mid == before,
{
}

/// When there is no room for a new entry, exactly one other goes: with its value and the time of
/// its last use, and, where memory is tracked, with its size. It is counted, and nothing else
/// changes.
pub proof fn law_one_entry_goes_when_there_is_no_room<K: StorageKey, V: Clone>(
    policy: AnyEviction<K, V>,
    before: StorageModel<V>,
    id: Seq<char>,
    mid: StorageModel<V>,
)
    requires
        made_room(Some(policy), before, id, mid),
        is_built_in(policy),
        before.contents.dom().finite(),
        0 < before.contents.dom().len() <= usize::MAX,
        !before.contents.contains_key(id),
        (entry_limit(policy) matches Some(max) && before.contents.dom().len() >= max) || (
        byte_limit(policy) matches Some(max) && before.bytes >= max),
    ensures
        exists|gone: Seq<char>|
            {
                &&& before.contents.contains_key(gone)
                &&& mid.contents == #[trigger] before.contents.remove(gone)
                &&& mid.accesses == before.accesses.remove(gone)
            },
        mid.contents.dom().len() == before.contents.dom().len() - 1,
        before.evictions < u64::MAX ==> mid.evictions == before.evictions + 1,
        byte_limit(policy) is None ==> mid.bytes == before.bytes,
        byte_limit(policy) is Some && before.bytes >= estimated_size::<K, V>() ==> mid.bytes
            == before.bytes - estimated_size::<K, V>(),
        mid.metrics == before.metrics,
        mid.epoch == before.epoch,
{
    assert(is_full(Some(policy), before));
    let (sample, victim) = choose|
        sample: Seq<EvictionCandidate<K, V>>,
        victim: Option<Seq<char>>,
    |
        is_sample(before, sample) && #[trigger] policy.selects(sample, victim) && mid
            == without_victim(Some(policy), before, victim);
    law_built_in_policies_take_a_candidate(policy);
    assert(policy.selects(sample, victim));
    let i = choose|i: int| 0 <= i < sample.len() && (#[trigger] sample[i]).key.id() == victim->0;
    assert(before.contents.contains_key(sample[i].key.id()));
    assert(mid.contents == before.contents.remove(victim->0));
    assert(mid.contents.dom() =~= before.contents.dom().remove(victim->0));
}

/// The number of entries that have been dropped and the number of those that are there account for
/// all that came in: one use of a new entry adds one to their sum, and any other leaves it.
pub proof fn law_entries_and_evictions_account_for_all<K: StorageKey, V: Clone>(
    policy: Option<AnyEviction<K, V>>,
    before: StorageModel<V>,
    mid: StorageModel<V>,
    id: Seq<char>,
    first: V,
    last: V,
    now: nat,
)
    requires
        made_room(policy, before, id, mid),
        before.contents.dom().finite(),
        before.evictions < u64::MAX,
    ensures
        ({
            let after = used(policy, mid, id, first, last, now);
            after.contents.dom().len() + after.evictions == before.contents.dom().len()
                + before.evictions + if before.contents.contains_key(id) {
                0int
            } else {
                1int
            }
        }),
{
    let after = used(policy, mid, id, first, last, now);
    assert(after.contents.dom() =~= mid.contents.dom().insert(id));
    if !before.contents.contains_key(id) && is_full(policy, before) {
        let (sample, victim) = choose|
            sample: Seq<EvictionCandidate<K, V>>,
            victim: Option<Seq<char>>,
        |
            is_sample(before, sample) && #[trigger] policy->0.selects(sample, victim) && mid
                == without_victim(policy, before, victim);
        if victim is Some && before.contents.contains_key(victim->0) {
            assert(mid.contents.dom() =~= before.contents.dom().remove(victim->0));
        }
    }
    if mid.contents.contains_key(id) {
        assert(mid.contents.dom().insert(id) =~= mid.contents.dom());
    }
}

/// Whether these are different entries of a storage, and as many as are looked at when one has to
/// go: all of them, but no more than twenty.
pub open spec fn looked_at<V>(m: StorageModel<V>, ids: Seq<Seq<char>>) -> bool {
    &&& ids.len() == if m.contents.dom().len() <= 20 {
        m.contents.dom().len()
    } else {
        20
    }
    &&& forall|i: int| 0 <= i < ids.len() ==> m.contents.contains_key(#[trigger] ids[i])
    &&& forall|i: int, j: int| 0 <= i < j < ids.len() ==> #[trigger] ids[i] != #[trigger] ids[j]
}

/// Of the entries that are looked at, all of them or twenty, one goes that has not been used for
/// longest.
pub proof fn law_oldest_of_those_looked_at_goes<K: StorageKey, V: Clone>(
    policy: AnyEviction<K, V>,
    before: StorageModel<V>,
    after: StorageModel<V>,
)
    requires
        policy is Lru || policy is Memory,
        before.contents.dom().finite(),
        before.contents.dom().len() > 0,
        evicted(Some(policy), before, after),
    ensures
        exists|ids: Seq<Seq<char>>, i: int|
            {
                &&& #[trigger] looked_at(before, ids)
                &&& 0 <= i < ids.len()
                &&& after.contents == before.contents.remove(#[trigger] ids[i])
                &&& forall|j: int|
                    0 <= j < ids.len() ==> before.accesses[ids[i]]
                        <= #[trigger] before.accesses[ids[j]]
            },
{
    let (sample, victim) = choose|
        sample: Seq<EvictionCandidate<K, V>>,
        victim: Option<Seq<char>>,
    |
        is_sample(before, sample) && #[trigger] policy.selects(sample, victim) && after
            == without_victim(Some(policy), before, victim);
    let i = choose|i: int|
        #[trigger] is_oldest(sample, i) && sample[i].key.id() == victim->0;
    let ids = sample.map_values(|c: EvictionCandidate<K, V>| c.key.id());
    assert forall|j: int| 0 <= j < ids.len() implies before.contents.contains_key(
        #[trigger] ids[j],
    ) by {
        assert(before.contents.contains_key(sample[j].key.id()));
    }
    assert forall|a: int, b: int| 0 <= a < b < ids.len() implies #[trigger] ids[a]
        != #[trigger] ids[b] by {
        assert(sample[a].key.id() != sample[b].key.id());
    }
    assert(looked_at(before, ids));
    assert(ids[i] == victim->0);
    assert forall|j: int| 0 <= j < ids.len() implies before.accesses[ids[i]]
        <= #[trigger] before.accesses[ids[j]] by {
        assert(sample[i].last_access@ <= sample[j].last_access@);
        assert(sample[i].last_access@ == before.accesses[sample[i].key.id()]);
        assert(sample[j].last_access@ == before.accesses[sample[j].key.id()]);
    }
}

/// The rule by which a policy rates entries, if it goes by a rule.
pub open spec fn rule_of<K: StorageKey, V>(policy: AnyEviction<K, V>) -> Option<PriorityFn<K, V>> {
    match policy {
        AnyEviction::Priority(p) => Some(p.rule()),
        AnyEviction::PriorityWithMemory(p) => Some(p.rule()),
        _ => None,
    }
}

/// Of the entries that are looked at, all of them or twenty, one goes that the rule gives the
/// lowest priority.
pub proof fn law_lowest_priority_of_those_looked_at_goes<K: StorageKey, V: Clone>(
    policy: AnyEviction<K, V>,
    before: StorageModel<V>,
    after: StorageModel<V>,
)
    requires
        rule_of(policy) is Some,
        before.contents.dom().finite(),
        before.contents.dom().len() > 0,
        evicted(Some(policy), before, after),
    ensures
        exists|keys: Seq<K>, values: Seq<V>, priorities: Seq<u32>, i: int|
            {
                &&& #[trigger] lists(keys, values)
                &&& priorities.len() == keys.len()
                &&& looked_at(before, keys.map_values(|k: K| k.id()))
                &&& 0 <= i < keys.len()
                &&& after.contents == before.contents.remove(keys[i].id())
                &&& forall|j: int|
                    0 <= j < keys.len() ==> {
                        &&& cloned(before.contents[keys[j].id()], #[trigger] values[j])
                        &&& (rule_of(policy)->0).0.rates(&keys[j], &values[j], priorities[j])
                        &&& #[trigger] priorities[i] <= priorities[j]
                    }
            },
{
    let (sample, victim) = choose|
        sample: Seq<EvictionCandidate<K, V>>,
        victim: Option<Seq<char>>,
    |
        is_sample(before, sample) && #[trigger] policy.selects(sample, victim) && after
            == without_victim(Some(policy), before, victim);
    let rule = rule_of(policy)->0;
    assert(selects_lowest(rule, sample, victim));
    let (priorities, i) = choose|priorities: Seq<u32>, i: int|
        #[trigger] rated(rule, sample, priorities) && #[trigger] is_lowest(priorities, i)
            && sample[i].key.id() == victim->0;
    let keys = sample.map_values(|c: EvictionCandidate<K, V>| c.key);
    let values = sample.map_values(|c: EvictionCandidate<K, V>| c.value);
    let ids = keys.map_values(|k: K| k.id());
    assert forall|j: int| 0 <= j < ids.len() implies before.contents.contains_key(
        #[trigger] ids[j],
    ) by {
        assert(before.contents.contains_key(sample[j].key.id()));
    }
    assert forall|a: int, b: int| 0 <= a < b < ids.len() implies #[trigger] ids[a]
        != #[trigger] ids[b] by {
        assert(sample[a].key.id() != sample[b].key.id());
    }
    assert(looked_at(before, ids));
    assert forall|j: int| 0 <= j < keys.len() implies {
        &&& cloned(before.contents[keys[j].id()], #[trigger] values[j])
        &&& rule.0.rates(&keys[j], &values[j], priorities[j])
        &&& #[trigger] priorities[i] <= priorities[j]
    } by {
        assert(cloned(before.contents[sample[j].key.id()], sample[j].value));
        assert(rule.0.rates(&sample[j].key, &sample[j].value, priorities[j]));
    }
    assert(lists(keys, values));
}

/// By last use, the candidate goes that was used before all others; among several, the first.
pub proof fn law_first_of_the_oldest_is_chosen<K: StorageKey, V>(
    candidates: Seq<EvictionCandidate<K, V>>,
    victim: Option<Seq<char>>,
    i: int,
)
    requires
        selects_oldest(candidates, victim),
        0 <= i < candidates.len(),
        forall|j: int|
            0 <= j < candidates.len() ==> candidates[i].last_access@
                <= (#[trigger] candidates[j]).last_access@,
        forall|j: int|
            0 <= j < i ==> candidates[i].last_access@ < (#[trigger] candidates[j]).last_access@,
    ensures
        victim == Some(candidates[i].key.id()),
{
    let k = choose|k: int|
        #[trigger] is_oldest(candidates, k) && candidates[k].key.id() == victim->0;
    if k < i {
        assert(candidates[i].last_access@ < candidates[k].last_access@);
    } else if i < k {
        assert(candidates[k].last_access@ < candidates[i].last_access@);
    }
}

/// By priority, the candidate goes that is rated lowest; among several, the first.
pub proof fn law_first_of_the_lowest_is_chosen<K: StorageKey, V>(
    rule: PriorityFn<K, V>,
    candidates: Seq<EvictionCandidate<K, V>>,
    victim: Option<Seq<char>>,
    priorities: Seq<u32>,
    i: int,
)
    requires
        selects_lowest(rule, candidates, victim),
        priorities.len() == candidates.len(),
        forall|j: int, p: u32|
            0 <= j < candidates.len() ==> (#[trigger] rule.0.rates(
                &candidates[j].key,
                &candidates[j].value,
                p,
            ) ==> p == priorities[j]),
        0 <= i < candidates.len(),
        forall|j: int| 0 <= j < candidates.len() ==> priorities[i] <= #[trigger] priorities[j],
        forall|j: int| 0 <= j < i ==> priorities[i] < #[trigger] priorities[j],
    ensures
        victim == Some(candidates[i].key.id()),
{
    let (rates, k) = choose|rates: Seq<u32>, k: int|
        #[trigger] rated(rule, candidates, rates) && #[trigger] is_lowest(rates, k)
            && candidates[k].key.id() == victim->0;
    assert forall|j: int| 0 <= j < candidates.len() implies rates[j] == priorities[j] by {
        assert(rule.0.rates(&candidates[j].key, &candidates[j].value, rates[j]));
    }
    if k < i {
        assert(priorities[i] < priorities[k]);
        assert(rates[k] <= rates[i]);
    } else if i < k {
        assert(rates[k] < rates[i]);
        assert(priorities[i] <= priorities[k]);
    }
}

/// When a policy lets an entry go: by number, when there are as many as it may keep; by memory,
/// when as much is used as it may be.
pub proof fn law_policies_evict_at_their_limits<K: StorageKey, V>(
    policy: AnyEviction<K, V>,
    entries: usize,
    bytes: usize,
)
    requires
        is_built_in(policy),
    ensures
        policy.evicts(entries, bytes) <==> (entry_limit(policy) matches Some(max) && entries >= max)
            || (byte_limit(policy) matches Some(max) && bytes >= max),
        policy.tracks() <==> byte_limit(policy) is Some,
        policy is Lru || policy is Priority ==> entry_limit(policy) is Some && byte_limit(
            policy,
        ) is None,
        policy is Memory ==> entry_limit(policy) is None && byte_limit(policy) is Some,
        policy is PriorityWithMemory ==> entry_limit(policy) is Some && byte_limit(
            policy,
        ) is Some,
{
}

/// A clone holds the same keys, with clones of the values and the same times, counts the same
/// memory, and goes by the same policy and the same base point of time.
pub proof fn law_clone_holds_the_same<K: StorageKey, V: Clone>(
    a: ShardedStorage<K, V>,
    b: ShardedStorage<K, V>,
    id: Seq<char>,
)
    requires
        is_clone(a, b),
    ensures
        b.model().contents.contains_key(id) <==> a.model().contents.contains_key(id),
        a.model().contents.contains_key(id) ==> cloned(
            a.model().contents[id],
            b.model().contents[id],
        ),
        b.model().accesses == a.model().accesses,
        b.model().bytes == a.model().bytes,
        b.model().evictions == a.model().evictions,
        b.model().metrics == a.model().metrics,
        b.model().epoch == a.model().epoch,
        b.policy() == a.policy(),
        b.inv(),
{
    assert(b.model().contents.dom().contains(id) == a.model().contents.dom().contains(id));
}

/// An access starts from what is stored, and from nothing else where something is.
pub proof fn law_access_starts_from_what_is_stored<V, G: FnOnce() -> V>(
    contents: Map<Seq<char>, V>,
    id: Seq<char>,
    factory: G,
    value: V,
)
    requires
        starts_from(contents, id, factory, value),
    ensures
        contents.contains_key(id) ==> value == contents[id],
        !contents.contains_key(id) ==> factory.ensures((), value),
{
}

/// What is said of the other entries when one is used: none of them is new, none has another value,
/// and where none may be dropped, all are there.
pub proof fn law_other_entries_stay<V>(
    before: Map<Seq<char>, V>,
    after: Map<Seq<char>, V>,
    id: Seq<char>,
    other: Seq<char>,
)
    requires
        others_unchanged(before, after, id),
        other != id,
    ensures
        after.contains_key(other) ==> before.contains_key(other) && after[other] == before[other],
        none_dropped(before, after) && before.contains_key(other) ==> after.contains_key(other)
            && after[other] == before[other],
{
}

/// A list of all entries has each of them once: as many keys as there are entries, all different,
/// each with its value.
pub proof fn law_list_has_every_entry_once<K: StorageKey, V>(
    keys: Seq<K>,
    values: Seq<V>,
    contents: Map<Seq<char>, V>,
    id: Seq<char>,
)
    requires
        lists(keys, values),
        is_listed(keys, values, contents),
    ensures
        values.len() == keys.len(),
        contents.contains_key(id) <==> exists|i: int|
            0 <= i < keys.len() && (#[trigger] keys[i]).id() == id,
        forall|i: int, j: int|
            0 <= i < j < keys.len() ==> (#[trigger] keys[i]).id() != (#[trigger] keys[j]).id(),
        forall|i: int| 0 <= i < keys.len() ==> contents[keys[i].id()] == #[trigger] values[i],
{
    if contents.contains_key(id) {
        let i = choose|i: int| 0 <= i < keys.len() && #[trigger] keys[i].id() == id;
        assert(keys[i].id() == id);
    }
    if exists|i: int| 0 <= i < keys.len() && (#[trigger] keys[i]).id() == id {
        let i = choose|i: int| 0 <= i < keys.len() && (#[trigger] keys[i]).id() == id;
        assert(contents.contains_key(keys[i].id()));
    }
}

/// Memory that is counted starts over at zero above the largest number, and at the top below zero:
/// what is added and taken off again cancels out.
pub proof fn law_counted_memory_goes_up_and_down(a: usize, b: usize)
    ensures
        a + b <= usize::MAX ==> wrapping_sum(a, b) == a + b,
        a >= b ==> wrapping_diff(a, b) == a - b,
        wrapping_diff(wrapping_sum(a, b), b) == a,
        wrapping_sum(wrapping_diff(a, b), b) == a,
{
}

/// What becomes of a storage when an entry is used at a time that its clock shows: room is made,
/// the entry is stored, the policy stays, and what had to go is counted where that is wanted.
pub proof fn law_use_makes_room_and_stores<K: StorageKey, V: Clone>(
    before: ShardedStorage<K, V>,
    id: Seq<char>,
    first: V,
    last: V,
    after: ShardedStorage<K, V>,
)
    requires
        before.becomes(id, first, last, &after),
    ensures
        after.policy() == before.policy(),
        after.model().metrics == before.model().metrics,
        after.model().epoch == before.model().epoch,
        after.contents().contains_key(id) && after.contents()[id] == last,
        after.model().accesses.contains_key(id) && exists|now: nat| #[trigger]
            before.model().epoch.shows(now) && (now <= u64::MAX ==> after.model().accesses[id]
                == now),
        after.model().evictions != before.model().evictions && before.model().metrics is Some
            ==> (before.model().metrics->0).eviction_noted(),
{
    let (mid, now) = choose|mid: StorageModel<V>, now: nat|
        made_room(before.policy(), before.model(), id, mid) && after.model() == #[trigger] used(
            before.policy(),
            mid,
            id,
            first,
            last,
            now,
        ) && before.model().epoch.shows(now);
    assert(before.model().epoch.shows(now));
}

/// With any policy, also one of the user's own: a victim that is there goes with all that is kept
/// of it, and with its size where memory is tracked; one that is not there, or none, changes
/// nothing.
pub proof fn law_victim_goes_with_all_that_is_kept<K: StorageKey, V>(
    policy: Option<AnyEviction<K, V>>,
    m: StorageModel<V>,
    victim: Option<Seq<char>>,
    other: Seq<char>,
)
    ensures
        ({
            let after = without_victim(policy, m, victim);
            &&& victim is None ==> after == m
            &&& victim is Some && !m.contents.contains_key(victim->0) ==> after == m
            &&& victim is Some && m.contents.contains_key(victim->0) ==> {
                &&& !after.contents.contains_key(victim->0)
                &&& !after.accesses.contains_key(victim->0)
                &&& m.evictions < u64::MAX ==> after.evictions == m.evictions + 1
                &&& policy is Some && (policy->0).tracks() && m.bytes >= (policy->0).entry_size(
                    victim->0,
                    m.contents[victim->0],
                ) ==> after.bytes == m.bytes - (policy->0).entry_size(
                    victim->0,
                    m.contents[victim->0],
                )
                &&& policy is None || !(policy->0).tracks() ==> after.bytes == m.bytes
            }
            &&& victim != Some(other) && m.contents.contains_key(other)
                ==> after.contents.contains_key(other) && after.contents[other]
                == m.contents[other]
            &&& victim != Some(other) && m.accesses.contains_key(other)
                ==> after.accesses.contains_key(other) && after.accesses[other]
                == m.accesses[other]
            &&& after.contents.contains_key(other) ==> m.contents.contains_key(other)
            &&& after.metrics == m.metrics
            &&& after.epoch == m.epoch
        }),
{
}

/// With any policy that wants memory tracked, also one of the user's own, a new entry adds the size
/// that the policy gives for it as it was made.
pub proof fn law_tracked_entry_adds_the_size_that_is_given<K: StorageKey, V>(
    policy: AnyEviction<K, V>,
    m: StorageModel<V>,
    id: Seq<char>,
    first: V,
    last: V,
    now: nat,
)
    requires
        !m.contents.contains_key(id),
        m.bytes + policy.entry_size(id, first) <= usize::MAX,
    ensures
        policy.tracks() ==> used(Some(policy), m, id, first, last, now).bytes == m.bytes
            + policy.entry_size(id, first),
        !policy.tracks() ==> used(Some(policy), m, id, first, last, now).bytes == m.bytes,
{
}

/// The policies of the library one by one: those by number alone have memory neither tracked nor
/// estimated, and those by memory have it estimated for every entry alike. By last use they can
/// always be asked.
pub proof fn law_policies_track_memory_where_they_limit_it<K: StorageKey, V>(
    lru: LruEviction,
    memory: MemoryEviction,
    priority: PriorityEviction<K, V>,
    combined: PriorityWithMemoryEviction<K, V>,
    id: Seq<char>,
    value: V,
    entries: usize,
    bytes: usize,
)
    ensures
        <LruEviction as EvictionPolicy<K, V>>::ready(&lru),
        !<LruEviction as EvictionPolicy<K, V>>::tracks(&lru),
        <LruEviction as EvictionPolicy<K, V>>::entry_size(&lru, id, value) == 0,
        <LruEviction as EvictionPolicy<K, V>>::evicts(&lru, entries, bytes) <==> entries
            >= lru.limit(),
        <MemoryEviction as EvictionPolicy<K, V>>::ready(&memory),
        <MemoryEviction as EvictionPolicy<K, V>>::tracks(&memory),
        <MemoryEviction as EvictionPolicy<K, V>>::entry_size(&memory, id, value)
            == estimated_size::<K, V>(),
        <MemoryEviction as EvictionPolicy<K, V>>::evicts(&memory, entries, bytes) <==> bytes
            >= memory.limit(),
        !priority.tracks(),
        priority.entry_size(id, value) == 0,
        priority.evicts(entries, bytes) <==> entries >= priority.limit(),
        combined.tracks(),
        combined.entry_size(id, value) == estimated_size::<K, V>(),
        combined.evicts(entries, bytes) <==> entries >= combined.entry_limit() || bytes
            >= combined.byte_limit(),
        (AnyEviction::<K, V>::Lru(lru)).entry_size(id, value) == 0,
        (AnyEviction::<K, V>::Memory(memory)).entry_size(id, value) == estimated_size::<K, V>(),
        (AnyEviction::Priority(priority)).entry_size(id, value) == 0,
        (AnyEviction::PriorityWithMemory(combined)).entry_size(id, value) == estimated_size::<
            K,
            V,
        >(),
{
}

} // verus!
