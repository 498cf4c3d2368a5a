//! What a storage in memory promises about its limits.
use crate::application::circuit_breaker::admits;
use crate::application::limiter::{LimitDecision, RateLimiter};
use crate::application::limiter_laws::{
    alike, is_run, law_metadata_does_not_decide, lemma_asked, CheckedEvent,
};
use crate::application::metrics::next_count;
use crate::application::ports::{EvictionCandidate, EvictionPolicy, Storage, StorageKey};
use crate::application::registry::EventState;
use crate::domain::metadata::MetadataModel;
use crate::domain::signature::EventSignature;
use crate::infrastructure::eviction::lru::is_oldest;
use crate::infrastructure::eviction::memory::estimated_size;
use crate::infrastructure::eviction::priority::{is_lowest, rated};
use crate::infrastructure::eviction::AnyEviction;
use crate::infrastructure::storage::{
    evicted, is_full, is_sample, made_room, used, without_victim, ShardedStorage, StorageModel,
    SAMPLE_SIZE,
};
use vstd::prelude::*;

verus! {

/// The limit on the number of entries that a policy keeps, if it keeps one.
pub open spec fn entry_limit<K: StorageKey, V>(policy: AnyEviction<K, V>) -> Option<usize> {
    match policy {
        AnyEviction::Lru(p) => Some(p.limit()),
        AnyEviction::Priority(p) => Some(p.limit()),
        AnyEviction::PriorityWithMemory(p) => Some(p.entry_limit()),
        _ => None,
    }
}

/// Whether a policy is one of those that come with the library.
pub open spec fn is_built_in<K: StorageKey, V>(policy: AnyEviction<K, V>) -> bool {
    !(policy is Custom)
}

/// A policy of the library chooses one of the candidates, unless there are none.
proof fn lemma_victim_is_candidate<K: StorageKey, V>(
    policy: AnyEviction<K, V>,
    candidates: Seq<EvictionCandidate<K, V>>,
    victim: Option<Seq<char>>,
)
    requires
        is_built_in(policy),
        policy.selects(candidates, victim),
        candidates.len() > 0,
    ensures
        victim is Some,
        exists|i: int|
            0 <= i < candidates.len() && (#[trigger] candidates[i]).key.id() == victim->0,
{
    match policy {
        AnyEviction::Lru(_) | AnyEviction::Memory(_) => {
            let i = choose|i: int|
                #[trigger] is_oldest(candidates, i) && candidates[i].key.id() == victim->0;
            assert(candidates[i].key.id() == victim->0);
        },
        AnyEviction::Priority(p) => {
            let (priorities, i) = choose|priorities: Seq<u32>, i: int|
                #[trigger] rated(p.rule(), candidates, priorities) && #[trigger] is_lowest(
                    priorities,
                    i,
                ) && candidates[i].key.id() == victim->0;
            assert(candidates[i].key.id() == victim->0);
        },
        AnyEviction::PriorityWithMemory(p) => {
            let (priorities, i) = choose|priorities: Seq<u32>, i: int|
                #[trigger] rated(p.rule(), candidates, priorities) && #[trigger] is_lowest(
                    priorities,
                    i,
                ) && candidates[i].key.id() == victim->0;
            assert(candidates[i].key.id() == victim->0);
        },
        AnyEviction::Custom(_) => {},
    }
}

/// Whether a policy always chooses one of the candidates, unless there are none.
pub open spec fn takes_a_candidate<K: StorageKey, V>(policy: AnyEviction<K, V>) -> bool {
    forall|candidates: Seq<EvictionCandidate<K, V>>, victim: Option<Seq<char>>|
        candidates.len() > 0 && #[trigger] policy.selects(candidates, victim) ==> victim is Some
            && exists|i: int|
            0 <= i < candidates.len() && (#[trigger] candidates[i]).key.id() == victim->0
}

/// Every policy of the library chooses one of the candidates, unless there are none.
pub proof fn law_built_in_policies_take_a_candidate<K: StorageKey, V>(policy: AnyEviction<K, V>)
    requires
        is_built_in(policy),
    ensures
        takes_a_candidate(policy),
{
    assert forall|candidates: Seq<EvictionCandidate<K, V>>, victim: Option<Seq<char>>|
        candidates.len() > 0 && #[trigger] policy.selects(
            candidates,
            victim,
        ) implies victim is Some && exists|i: int|
        0 <= i < candidates.len() && (#[trigger] candidates[i]).key.id() == victim->0 by {
        lemma_victim_is_candidate(policy, candidates, victim);
    }
}

/// Whether the choice of a policy is a function of the candidates.
pub open spec fn is_function_of_candidates<K: StorageKey, V>(policy: AnyEviction<K, V>) -> bool {
    forall|
        candidates: Seq<EvictionCandidate<K, V>>,
        one: Option<Seq<char>>,
        other: Option<Seq<char>>,
    |
        #[trigger] policy.selects(candidates, one) && #[trigger] policy.selects(candidates, other)
            ==> one == other
}

/// An eviction by a policy of the library takes exactly one entry out of a storage that is not
/// empty, and leaves the others alone.
pub proof fn law_eviction_takes_one_entry<K: StorageKey, V: Clone>(
    policy: AnyEviction<K, V>,
    before: StorageModel<V>,
    after: StorageModel<V>,
)
    requires
        is_built_in(policy),
        before.contents.dom().finite(),
        before.contents.dom().len() > 0,
        evicted(Some(policy), before, after),
    ensures
        exists|id: Seq<char>|
            before.contents.contains_key(id) && after.contents == #[trigger] before.contents.remove(
                id,
            ),
        after.contents.dom().finite(),
        after.contents.dom().len() == before.contents.dom().len() - 1,
{
    let (sample, victim) = choose|
        sample: Seq<EvictionCandidate<K, V>>,
        victim: Option<Seq<char>>,
    |
        is_sample(before, sample) && #[trigger] policy.selects(sample, victim) && after
            == without_victim(Some(policy), before, victim);
    lemma_victim_is_candidate(policy, sample, victim);
    let i = choose|i: int|
        0 <= i < sample.len() && (#[trigger] sample[i]).key.id() == victim->0;
    assert(before.contents.contains_key(sample[i].key.id()));
    assert(after.contents == before.contents.remove(victim->0));
    assert(after.contents.dom() =~= before.contents.dom().remove(victim->0));
}

/// In a storage that is no larger than a sample, the entry that goes by last use is one that has
/// not been used for longest.
pub proof fn law_lru_evicts_least_recently_used<K: StorageKey, V: Clone>(
    policy: AnyEviction<K, V>,
    before: StorageModel<V>,
    after: StorageModel<V>,
)
    requires
        policy is Lru || policy is Memory,
        before.contents.dom().finite(),
        0 < before.contents.dom().len() <= SAMPLE_SIZE,
        evicted(Some(policy), before, after),
    ensures
        exists|id: Seq<char>|
            {
                &&& before.contents.contains_key(id)
                &&& after.contents == #[trigger] before.contents.remove(id)
                &&& forall|other: Seq<char>| #[trigger]
                    before.contents.contains_key(other) ==> before.accesses[id]
                        <= before.accesses[other]
            },
{
    let (sample, victim) = choose|
        sample: Seq<EvictionCandidate<K, V>>,
        victim: Option<Seq<char>>,
    |
        is_sample(before, sample) && #[trigger] policy.selects(sample, victim) && after
            == without_victim(Some(policy), before, victim);
    let i = choose|i: int|
        #[trigger] is_oldest(sample, i) && sample[i].key.id() == victim->0;
    let id = victim->0;
    assert(before.contents.contains_key(sample[i].key.id()));
    let ids = sample.map_values(|c: EvictionCandidate<K, V>| c.key.id());
    assert(ids.no_duplicates());
    ids.unique_seq_to_set();
    assert(ids.to_set().subset_of(before.contents.dom()));
    vstd::set_lib::lemma_subset_equality(ids.to_set(), before.contents.dom());
    assert forall|other: Seq<char>| #[trigger]
        before.contents.contains_key(other) implies before.accesses[id]
        <= before.accesses[other] by {
        assert(ids.to_set().contains(other));
        let j = choose|j: int| 0 <= j < ids.len() && ids[j] == other;
        assert(sample[j].key.id() == other);
        assert(sample[i].last_access@ <= sample[j].last_access@);
    }
    assert(after.contents == before.contents.remove(id));
}

/// A storage with a limit on the number of entries stays within it: a new entry comes in only
/// after another has gone.
pub proof fn law_entry_limit_holds<K: StorageKey, V: Clone>(
    policy: AnyEviction<K, V>,
    before: StorageModel<V>,
    mid: StorageModel<V>,
    id: Seq<char>,
    first: V,
    last: V,
    now: nat,
)
    requires
        entry_limit(policy) is Some,
        entry_limit(policy)->0 >= 1,
        before.contents.dom().finite(),
        before.contents.dom().len() <= entry_limit(policy)->0,
        made_room(Some(policy), before, id, mid),
    ensures
        used(Some(policy), mid, id, first, last, now).contents.dom().len() <= entry_limit(
            policy,
        )->0,
        used(Some(policy), mid, id, first, last, now).contents.dom().finite(),
{
    let after = used(Some(policy), mid, id, first, last, now);
    assert(after.contents.dom() =~= mid.contents.dom().insert(id));
    if before.contents.contains_key(id) {
        assert(mid.contents.dom().insert(id) =~= mid.contents.dom());
    } else if is_full(Some(policy), before) {
        if before.contents.dom().len() > 0 {
            law_eviction_takes_one_entry(policy, before, mid);
        } else {
            let (sample, victim) = choose|
                sample: Seq<EvictionCandidate<K, V>>,
                victim: Option<Seq<char>>,
            |
                is_sample(before, sample) && #[trigger] policy.selects(sample, victim) && mid
                    == without_victim(Some(policy), before, victim);
            assert(before.contents.dom() =~= Set::empty());
            assert(mid == before);
        }
    }
}

/// Using an entry that is there drops nothing, and does not change the memory that is counted.
pub proof fn law_known_entries_evict_nothing<K: StorageKey, V: Clone>(
    policy: Option<AnyEviction<K, V>>,
    before: StorageModel<V>,
    mid: StorageModel<V>,
    id: Seq<char>,
    first: V,
    last: V,
    now: nat,
)
    requires
        before.contents.contains_key(id),
        made_room(policy, before, id, mid),
    ensures
        ({
            let after = used(policy, mid, id, first, last, now);
            &&& after.contents == before.contents.insert(id, last)
            &&& after.contents.dom() == before.contents.dom()
            &&& after.bytes == before.bytes
            &&& after.evictions == before.evictions
            &&& after.metrics == before.metrics
        }),
{
    let after = used(policy, mid, id, first, last, now);
    assert(after.contents.dom() =~= before.contents.dom());
}

/// Where memory is tracked, what is counted is the estimated size of the entries that are
/// there: insertions count up and evictions count down.
pub proof fn law_memory_count_matches_entries<K: StorageKey, V: Clone>(
    policy: AnyEviction<K, V>,
    before: StorageModel<V>,
    mid: StorageModel<V>,
    id: Seq<char>,
    first: V,
    last: V,
    now: nat,
)
    requires
        policy is Memory || policy is PriorityWithMemory,
        before.contents.dom().finite(),
        before.bytes == before.contents.dom().len() * estimated_size::<K, V>(),
        (before.contents.dom().len() + 1) * estimated_size::<K, V>() <= usize::MAX,
        made_room(Some(policy), before, id, mid),
    ensures
        ({
            let after = used(Some(policy), mid, id, first, last, now);
            after.bytes == after.contents.dom().len() * estimated_size::<K, V>()
        }),
{
    let after = used(Some(policy), mid, id, first, last, now);
    let size = estimated_size::<K, V>() as int;
    let n = before.contents.dom().len() as int;
    assert(after.contents.dom() =~= mid.contents.dom().insert(id));
    assert((n + 1) * size == n * size + size) by (nonlinear_arith);
    if before.contents.contains_key(id) {
        assert(after.contents.dom() =~= before.contents.dom());
    } else if is_full(Some(policy), before) {
        let (sample, victim) = choose|
            sample: Seq<EvictionCandidate<K, V>>,
            victim: Option<Seq<char>>,
        |
            is_sample(before, sample) && #[trigger] policy.selects(sample, victim) && mid
                == without_victim(Some(policy), before, victim);
        if victim is Some && before.contents.contains_key(victim->0) {
            assert(mid.contents.dom() =~= before.contents.dom().remove(victim->0));
            assert(before.contents.dom().contains(victim->0));
            assert(n >= 1);
            assert((n - 1) * size == n * size - size) by (nonlinear_arith);
            assert(n * size >= size) by (nonlinear_arith)
                requires
                    n >= 1,
                    size >= 0,
            ;
        } else {
            assert(mid == before);
        }
    }
}

/// The limit on memory use that a policy keeps, if it keeps one.
pub open spec fn byte_limit<K: StorageKey, V>(policy: AnyEviction<K, V>) -> Option<usize> {
    match policy {
        AnyEviction::Memory(p) => Some(p.limit()),
        AnyEviction::PriorityWithMemory(p) => Some(p.byte_limit()),
        _ => None,
    }
}

/// A storage with a limit on memory use passes it by less than one entry. An entry comes in as long
/// as the memory that is counted is below the limit; above it, another entry goes first. A limit of
/// zero still leaves room for one entry.
pub proof fn law_byte_limit_holds<K: StorageKey, V: Clone>(
    policy: AnyEviction<K, V>,
    before: StorageModel<V>,
    mid: StorageModel<V>,
    id: Seq<char>,
    first: V,
    last: V,
    now: nat,
)
    requires
        byte_limit(policy) is Some,
        before.contents.dom().finite(),
        before.bytes == before.contents.dom().len() * estimated_size::<K, V>(),
        (before.contents.dom().len() + 1) * estimated_size::<K, V>() <= usize::MAX,
        before.bytes <= byte_limit(policy)->0 + estimated_size::<K, V>(),
        made_room(Some(policy), before, id, mid),
    ensures
        ({
            let after = used(Some(policy), mid, id, first, last, now);
            let limit = byte_limit(policy)->0;
            let size = estimated_size::<K, V>();
            &&& after.bytes <= limit + size
            &&& limit > 0 && before.bytes < limit + size ==> after.bytes < limit + size
            &&& before.bytes >= limit && before.contents.dom().len() > 0 ==> after.bytes
                <= before.bytes
            &&& after.bytes == after.contents.dom().len() * size
            &&& after.contents.dom().finite()
        }),
{
    law_memory_count_matches_entries(policy, before, mid, id, first, last, now);
    let after = used(Some(policy), mid, id, first, last, now);
    let size = estimated_size::<K, V>() as int;
    let n = before.contents.dom().len() as int;
    assert(after.contents.dom() =~= mid.contents.dom().insert(id));
    if before.contents.contains_key(id) {
        assert(after.contents.dom() =~= before.contents.dom());
    } else if is_full(Some(policy), before) {
        if n > 0 {
            law_eviction_takes_one_entry(policy, before, mid);
            let gone = choose|gone: Seq<char>|
                before.contents.contains_key(gone) && mid.contents == #[trigger]
                    before.contents.remove(gone);
            assert(!mid.contents.contains_key(id));
            assert(after.contents.dom().len() == n);
        } else {
            assert(before.contents.dom() =~= Set::empty());
            let (sample, victim) = choose|
                sample: Seq<EvictionCandidate<K, V>>,
                victim: Option<Seq<char>>,
            |
                is_sample(before, sample) && #[trigger] policy.selects(sample, victim) && mid
                    == without_victim(Some(policy), before, victim);
            assert(mid == before);
            assert(n * size == 0) by (nonlinear_arith)
                requires
                    n == 0,
            ;
            assert((n + 1) * size == size) by (nonlinear_arith)
                requires
                    n == 0,
            ;
        }
    } else {
        assert((n + 1) * size == n * size + size) by (nonlinear_arith);
    }
}

/// A limiter tracks no more signatures than it may, whatever events come.
pub proof fn law_signature_limit_holds(
    limiters: Seq<RateLimiter<ShardedStorage<EventSignature, EventState>>>,
    events: Seq<CheckedEvent>,
    n: int,
)
    requires
        is_run(limiters, events),
        0 <= n <= events.len(),
        limiters[0].register().kept_in().policy() is Some,
        entry_limit(limiters[0].register().kept_in().policy()->0) is Some,
        entry_limit(limiters[0].register().kept_in().policy()->0)->0 >= 1,
        limiters[0].register().states() == Map::<Seq<char>, EventState>::empty(),
    ensures
        limiters[n].register().kept_in().policy() == limiters[0].register().kept_in().policy(),
        limiters[n].register().states().dom().finite(),
        limiters[n].register().states().dom().len() <= entry_limit(
            limiters[0].register().kept_in().policy()->0,
        )->0,
    decreases n,
{
    if n == 0 {
        assert(limiters[0].register().states().dom() =~= Set::empty());
    } else {
        law_signature_limit_holds(limiters, events, n - 1);
        let before = limiters[n - 1];
        let next = limiters[n];
        let event = events[n - 1];
        assert(before.checks(
            event.signature,
            event.metadata,
            event.asked_at,
            event.now,
            event.failed_at,
            event.decision,
            &limiters[n - 1 + 1],
        ));
        if admits(before.breaker(), event.asked_at) {
            let id = event.signature.id();
            let (answer, first, last) = lemma_asked(before, event, next);
            let storage = before.register().kept_in();
            let policy = storage.policy();
            let (mid, now) = choose|mid: StorageModel<EventState>, now: nat|
                made_room(policy, storage.model(), id, mid)
                    && next.register().kept_in().model() == #[trigger] used(
                    policy,
                    mid,
                    id,
                    first,
                    last,
                    now,
                );
            law_entry_limit_holds(policy->0, storage.model(), mid, id, first, last, now);
        }
    }
}

/// What a check does to the evictions that a storage counts: with a policy that chooses a
/// candidate, or none, there is one more exactly if a signature is new and the storage is full.
proof fn lemma_evictions_of_check(
    before: RateLimiter<ShardedStorage<EventSignature, EventState>>,
    event: CheckedEvent,
    next: RateLimiter<ShardedStorage<EventSignature, EventState>>,
)
    requires
        before.checks(
            event.signature,
            event.metadata,
            event.asked_at,
            event.now,
            event.failed_at,
            event.decision,
            &next,
        ),
        before.register().states().dom().finite(),
        before.register().kept_in().policy() matches Some(p) ==> takes_a_candidate(p),
    ensures
        ({
            let storage = before.register().kept_in();
            let m = storage.model();
            let after = next.register().kept_in().model();
            &&& after.metrics == m.metrics
            &&& after.evictions == if admits(before.breaker(), event.asked_at)
                && !m.contents.contains_key(event.signature.id()) && is_full(storage.policy(), m)
                && m.contents.dom().len() > 0 {
                next_count(m.evictions)
            } else {
                m.evictions
            }
        }),
{
    let id = event.signature.id();
    let storage = before.register().kept_in();
    let policy = storage.policy();
    let m = storage.model();
    if admits(before.breaker(), event.asked_at) {
        let (answer, first, last) = lemma_asked(before, event, next);
        let (mid, now) = choose|mid: StorageModel<EventState>, now: nat|
            made_room(policy, m, id, mid) && next.register().kept_in().model() == #[trigger] used(
                policy,
                mid,
                id,
                first,
                last,
                now,
            );
        if !m.contents.contains_key(id) && is_full(policy, m) {
            let (sample, victim) = choose|
                sample: Seq<EvictionCandidate<EventSignature, EventState>>,
                victim: Option<Seq<char>>,
            |
                is_sample(m, sample) && #[trigger] policy->0.selects(sample, victim) && mid
                    == without_victim(policy, m, victim);
            if m.contents.dom().len() > 0 {
                assert(policy->0.selects(sample, victim));
                let i = choose|i: int|
                    0 <= i < sample.len() && (#[trigger] sample[i]).key.id() == victim->0;
                assert(m.contents.contains_key(sample[i].key.id()));
            } else {
                assert(m.contents.dom() =~= Set::empty());
            }
        }
    }
}

/// Two limiters that would treat an event alike, and whose storages hold equally many signatures
/// and have counted the same, count the same after it, evictions included, whether they are told
/// something of the event or not. This holds without an eviction policy, and with any that chooses
/// one of the candidates, as those of the library do.
pub proof fn law_metadata_does_not_change_counts(
    a: RateLimiter<ShardedStorage<EventSignature, EventState>>,
    b: RateLimiter<ShardedStorage<EventSignature, EventState>>,
    event: CheckedEvent,
    metadata: MetadataModel,
    decision: LimitDecision,
    next_a: RateLimiter<ShardedStorage<EventSignature, EventState>>,
    next_b: RateLimiter<ShardedStorage<EventSignature, EventState>>,
)
    requires
        alike(a, b, event.signature),
        a.register().states().dom().finite(),
        b.register().states().dom().finite(),
        a.register().states().dom().len() == b.register().states().dom().len(),
        a.register().kept_in().model().bytes == b.register().kept_in().model().bytes,
        a.register().kept_in().evicted() == b.register().kept_in().evicted(),
        a.register().kept_in().policy() == b.register().kept_in().policy(),
        a.register().kept_in().policy() matches Some(p) ==> takes_a_candidate(p),
        a.checks(
            event.signature,
            None,
            event.asked_at,
            event.now,
            event.failed_at,
            event.decision,
            &next_a,
        ),
        b.checks(
            event.signature,
            Some(metadata),
            event.asked_at,
            event.now,
            event.failed_at,
            decision,
            &next_b,
        ),
    ensures
        decision == event.decision,
        next_a.counts() == next_b.counts(),
{
    law_metadata_does_not_decide(a, b, event, metadata, decision, next_a, next_b);
    lemma_evictions_of_check(a, CheckedEvent { metadata: None, ..event }, next_a);
    lemma_evictions_of_check(
        b,
        CheckedEvent { metadata: Some(metadata), decision, ..event },
        next_b,
    );
    if !admits(a.breaker(), event.asked_at) {
        assert(a.counts() == b.counts());
    }
}

/// The memory that a limiter's states are taken to use passes the limit by less than one entry,
/// whatever events come. It is that of the states that are there, and of no others.
pub proof fn law_memory_limit_holds(
    limiters: Seq<RateLimiter<ShardedStorage<EventSignature, EventState>>>,
    events: Seq<CheckedEvent>,
    n: int,
)
    requires
        is_run(limiters, events),
        0 <= n <= events.len(),
        limiters[0].register().kept_in().policy() is Some,
        byte_limit(limiters[0].register().kept_in().policy()->0) is Some,
        byte_limit(limiters[0].register().kept_in().policy()->0)->0 >= 1,
        byte_limit(limiters[0].register().kept_in().policy()->0)->0 + 2 * estimated_size::<
            EventSignature,
            EventState,
        >() <= usize::MAX,
        limiters[0].register().states() == Map::<Seq<char>, EventState>::empty(),
        limiters[0].register().kept_in().model().bytes == 0,
    ensures
        limiters[n].register().kept_in().policy() == limiters[0].register().kept_in().policy(),
        limiters[n].register().states().dom().finite(),
        limiters[n].register().kept_in().model().bytes
            == limiters[n].register().states().dom().len() * estimated_size::<
            EventSignature,
            EventState,
        >(),
        limiters[n].register().kept_in().model().bytes < byte_limit(
            limiters[0].register().kept_in().policy()->0,
        )->0 + estimated_size::<EventSignature, EventState>(),
    decreases n,
{
    let size = estimated_size::<EventSignature, EventState>() as int;
    if n == 0 {
        assert(limiters[0].register().states().dom() =~= Set::empty());
    } else {
        law_memory_limit_holds(limiters, events, n - 1);
        let before = limiters[n - 1];
        let next = limiters[n];
        let event = events[n - 1];
        assert(before.checks(
            event.signature,
            event.metadata,
            event.asked_at,
            event.now,
            event.failed_at,
            event.decision,
            &limiters[n - 1 + 1],
        ));
        if admits(before.breaker(), event.asked_at) {
            let id = event.signature.id();
            let (answer, first, last) = lemma_asked(before, event, next);
            let storage = before.register().kept_in();
            let policy = storage.policy();
            let (mid, now) = choose|mid: StorageModel<EventState>, now: nat|
                made_room(policy, storage.model(), id, mid)
                    && next.register().kept_in().model() == #[trigger] used(
                    policy,
                    mid,
                    id,
                    first,
                    last,
                    now,
                );
            let k = storage.model().contents.dom().len() as int;
            assert((k + 1) * size == k * size + size) by (nonlinear_arith);
            law_byte_limit_holds(policy->0, storage.model(), mid, id, first, last, now);
        }
    }
}

/// Whether the storage of a limiter, if a signature had to go for an event, had its policy choose
/// from these candidates.
pub open spec fn chose_from(
    before: RateLimiter<ShardedStorage<EventSignature, EventState>>,
    event: CheckedEvent,
    next: RateLimiter<ShardedStorage<EventSignature, EventState>>,
    candidates: Seq<EvictionCandidate<EventSignature, EventState>>,
) -> bool {
    let storage = before.register().kept_in();
    let m = storage.model();
    let id = event.signature.id();
    admits(before.breaker(), event.asked_at) && !m.contents.contains_key(id) && is_full(
        storage.policy(),
        m,
    ) ==> is_sample(m, candidates) && exists|
        victim: Option<Seq<char>>,
        first: EventState,
        last: EventState,
        now: nat,
    |
        {
            &&& #[trigger] storage.policy()->0.selects(candidates, victim)
            &&& next.register().kept_in().model() == #[trigger] used(
                storage.policy(),
                without_victim(storage.policy(), m, victim),
                id,
                first,
                last,
                now,
            )
        }
}

/// Two limiters that would treat an event alike, whose storages hold the same signatures and have
/// dropped equally many, and whose policies choose from the same candidates, count the same after
/// it and keep the same signatures, whether they are told something of the event or not. This
/// holds with every policy whose choice is a function of the candidates, whatever it chooses.
pub proof fn law_same_candidates_same_counts(
    a: RateLimiter<ShardedStorage<EventSignature, EventState>>,
    b: RateLimiter<ShardedStorage<EventSignature, EventState>>,
    event: CheckedEvent,
    metadata: MetadataModel,
    decision: LimitDecision,
    next_a: RateLimiter<ShardedStorage<EventSignature, EventState>>,
    next_b: RateLimiter<ShardedStorage<EventSignature, EventState>>,
    candidates: Seq<EvictionCandidate<EventSignature, EventState>>,
)
    requires
        alike(a, b, event.signature),
        a.register().states().dom() == b.register().states().dom(),
        a.register().kept_in().model().bytes == b.register().kept_in().model().bytes,
        a.register().kept_in().evicted() == b.register().kept_in().evicted(),
        a.register().kept_in().policy() == b.register().kept_in().policy(),
        a.register().kept_in().policy() matches Some(p) ==> is_function_of_candidates(p),
        a.checks(
            event.signature,
            None,
            event.asked_at,
            event.now,
            event.failed_at,
            event.decision,
            &next_a,
        ),
        b.checks(
            event.signature,
            Some(metadata),
            event.asked_at,
            event.now,
            event.failed_at,
            decision,
            &next_b,
        ),
        chose_from(a, event, next_a, candidates),
        chose_from(b, event, next_b, candidates),
    ensures
        decision == event.decision,
        next_a.counts() == next_b.counts(),
        next_a.register().states().dom() == next_b.register().states().dom(),
{
    law_metadata_does_not_decide(a, b, event, metadata, decision, next_a, next_b);
    let id = event.signature.id();
    let policy = a.register().kept_in().policy();
    let m_a = a.register().kept_in().model();
    let m_b = b.register().kept_in().model();
    if admits(a.breaker(), event.asked_at) {
        if !m_a.contents.contains_key(id) && is_full(policy, m_a) {
            let (victim_a, first_a, last_a, now_a) = choose|
                victim: Option<Seq<char>>,
                first: EventState,
                last: EventState,
                now: nat,
            |
                {
                    &&& #[trigger] policy->0.selects(candidates, victim)
                    &&& next_a.register().kept_in().model() == #[trigger] used(
                        policy,
                        without_victim(policy, m_a, victim),
                        id,
                        first,
                        last,
                        now,
                    )
                };
            let (victim_b, first_b, last_b, now_b) = choose|
                victim: Option<Seq<char>>,
                first: EventState,
                last: EventState,
                now: nat,
            |
                {
                    &&& #[trigger] policy->0.selects(candidates, victim)
                    &&& next_b.register().kept_in().model() == #[trigger] used(
                        policy,
                        without_victim(policy, m_b, victim),
                        id,
                        first,
                        last,
                        now,
                    )
                };
            assert(victim_a == victim_b);
        } else {
            lemma_no_room_needed(a, CheckedEvent { metadata: None, ..event }, next_a);
            lemma_no_room_needed(
                b,
                CheckedEvent { metadata: Some(metadata), decision, ..event },
                next_b,
            );
        }
        assert(next_a.register().states().dom() =~= next_b.register().states().dom());
    }
}

/// Where nothing has to go, nothing goes.
proof fn lemma_no_room_needed(
    before: RateLimiter<ShardedStorage<EventSignature, EventState>>,
    event: CheckedEvent,
    next: RateLimiter<ShardedStorage<EventSignature, EventState>>,
)
    requires
        admits(before.breaker(), event.asked_at),
        before.checks(
            event.signature,
            event.metadata,
            event.asked_at,
            event.now,
            event.failed_at,
            event.decision,
            &next,
        ),
        before.register().states().contains_key(event.signature.id()) || !is_full(
            before.register().kept_in().policy(),
            before.register().kept_in().model(),
        ),
    ensures
        next.register().kept_in().evicted() == before.register().kept_in().evicted(),
        next.register().states().dom() == before.register().states().dom().insert(
            event.signature.id(),
        ),
{
    let id = event.signature.id();
    let storage = before.register().kept_in();
    let (answer, first, last) = lemma_asked(before, event, next);
    let (mid, now) = choose|mid: StorageModel<EventState>, now: nat|
        made_room(storage.policy(), storage.model(), id, mid)
            && next.register().kept_in().model() == #[trigger] used(
            storage.policy(),
            mid,
            id,
            first,
            last,
            now,
        );
    assert(next.register().states().dom() =~= before.register().states().dom().insert(id));
}

} // verus!
