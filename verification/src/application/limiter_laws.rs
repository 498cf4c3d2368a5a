//! What the limiter promises over a whole run of events.
use crate::application::circuit_breaker::{admits, asked, CircuitState};
use crate::application::limiter::{
    checked, counted, informed, outcome, LimitDecision, RateLimiter,
};
use crate::application::ports::{none_dropped, others_unchanged, Clock, Storage, StorageKey};
use crate::application::registry::{verdict, EventState};
use crate::domain::metadata::MetadataModel;
use crate::domain::policy::{
    BackoffModel, BucketModel, CountModel, Policy, PolicyDecision, PolicyModel, RateLimitPolicy,
    WindowModel,
};
use crate::domain::policy_laws::{
    after, law_backoff_policy_allows_powers_of_two, law_count_based_policy_allows_the_rest,
    law_time_window_policy_forgets_only_what_is_over,
};
use crate::domain::signature::{law_signature_text_is_unique, EventSignature};
use vstd::arithmetic::power2::pow2;
use vstd::prelude::*;

verus! {

/// An event that has been checked: when, and with what decision.
pub struct CheckedEvent {
    /// Its signature.
    pub signature: EventSignature,
    /// What is known of it.
    pub metadata: Option<MetadataModel>,
    /// When the circuit breaker was asked.
    pub asked_at: nat,
    /// When the policy was asked.
    pub now: nat,
    /// When a failure was noted.
    pub failed_at: nat,
    /// What was decided.
    pub decision: LimitDecision,
}

/// Whether the limiter went through these states while these events were checked.
pub open spec fn is_run<S: Storage<EventSignature, EventState>>(
    limiters: Seq<RateLimiter<S>>,
    events: Seq<CheckedEvent>,
) -> bool {
    &&& limiters.len() == events.len() + 1
    &&& forall|i: int|
        0 <= i < events.len() ==> (#[trigger] limiters[i]).checks(
            events[i].signature,
            events[i].metadata,
            events[i].asked_at,
            events[i].now,
            events[i].failed_at,
            events[i].decision,
            &limiters[i + 1],
        )
}

/// Whether a limiter is about to begin: its storage can be relied on, it knows no signature, drops
/// none, and its circuit is closed.
pub open spec fn begins_fresh<S: Storage<EventSignature, EventState>>(l: RateLimiter<S>) -> bool {
    &&& l.register().is_exact()
    &&& l.register().states() == Map::<Seq<char>, EventState>::empty()
    &&& l.register().keeps_all()
    &&& l.breaker().state == CircuitState::Closed
}

/// When the events of one signature were.
pub open spec fn times_of(events: Seq<CheckedEvent>, signature: EventSignature) -> Seq<nat>
    decreases events.len(),
{
    if events.len() == 0 {
        Seq::empty()
    } else {
        let before = times_of(events.drop_last(), signature);
        if events.last().signature == signature {
            before.push(events.last().now)
        } else {
            before
        }
    }
}

/// The policy of a signature: a new signature starts with the initial one.
pub open spec fn policy_of<S: Storage<EventSignature, EventState>>(
    l: RateLimiter<S>,
    signature: EventSignature,
) -> PolicyModel {
    if l.register().states().contains_key(signature.id()) {
        l.register().states()[signature.id()]@.policy
    } else {
        l.register().initial_policy()
    }
}

/// Whether the policy could register each event of the run.
pub open spec fn has_room_throughout(initial: PolicyModel, events: Seq<CheckedEvent>) -> bool {
    forall|i: int|
        0 <= i < events.len() ==> Policy::has_room(
            after::<Policy>(
                initial,
                times_of(events.take(i), (#[trigger] events[i]).signature),
            ),
        )
}

/// What happened in a check in which the policy was asked: what it answered, and the state of the
/// signature before and after.
pub proof fn lemma_asked<S: Storage<EventSignature, EventState>>(
    before: RateLimiter<S>,
    event: CheckedEvent,
    next: RateLimiter<S>,
) -> (r: (Option<PolicyDecision>, EventState, EventState))
    requires
        admits(before.breaker(), event.asked_at),
        before.checks(
            event.signature,
            event.metadata,
            event.asked_at,
            event.now,
            event.failed_at,
            event.decision,
            &next,
        ),
    ensures
        r.0 == verdict(r.1@, event.now),
        event.decision == outcome(r.0),
        next.breaker() == informed(asked(before.breaker(), event.asked_at), r.0, event.failed_at),
        next.counts() == counted(before.evictions_noted(&next), event.decision),
        next.register().is_exact() == before.register().is_exact(),
        next.register().keeps_all() == before.register().keeps_all(),
        next.register().initial_policy() == before.register().initial_policy(),
        before.register().begins(event.signature, event.now, r.1),
        r.2@ == checked(r.1@, event.metadata, event.now),
        before.register().becomes(event.signature, r.1, r.2, &next.register()),
{
    let answer = choose|answer: Option<PolicyDecision>|
        {
            &&& #[trigger] before.asks_policy(
                event.signature,
                event.metadata,
                event.now,
                answer,
                &next,
            )
            &&& event.decision == outcome(answer)
            &&& next.breaker() == informed(
                asked(before.breaker(), event.asked_at),
                answer,
                event.failed_at,
            )
            &&& next.counts() == counted(before.evictions_noted(&next), event.decision)
        };
    let (first, last) = choose|first: EventState, last: EventState|
        {
            &&& before.register().begins(event.signature, event.now, first)
            &&& answer == verdict(first@, event.now)
            &&& last@ == checked(first@, event.metadata, event.now)
            &&& #[trigger] before.register().becomes(
                event.signature,
                first,
                last,
                &next.register(),
            )
        };
    (answer, first, last)
}

/// One check moves the policy of its own signature, and no other.
proof fn lemma_check_step<S: Storage<EventSignature, EventState>>(
    before: RateLimiter<S>,
    event: CheckedEvent,
    next: RateLimiter<S>,
)
    requires
        before.register().is_exact(),
        before.register().keeps_all(),
        before.breaker().state == CircuitState::Closed,
        Policy::has_room(policy_of(before, event.signature)),
        before.checks(
            event.signature,
            event.metadata,
            event.asked_at,
            event.now,
            event.failed_at,
            event.decision,
            &next,
        ),
    ensures
        next.register().is_exact(),
        next.register().keeps_all(),
        next.register().initial_policy() == before.register().initial_policy(),
        next.breaker().state == CircuitState::Closed,
        event.decision == outcome(
            Some(Policy::decision(policy_of(before, event.signature), event.now)),
        ),
        policy_of(next, event.signature) == Policy::advanced(
            policy_of(before, event.signature),
            event.now,
        ),
        forall|other: EventSignature|
            other != event.signature ==> #[trigger] policy_of(next, other) == policy_of(
                before,
                other,
            ),
{
    let id = event.signature.id();
    assert(admits(before.breaker(), event.asked_at));
    let (answer, first, last) = lemma_asked(before, event, next);
    assert(first@.policy == policy_of(before, event.signature));
    assert forall|other: EventSignature| other != event.signature implies #[trigger] policy_of(
        next,
        other,
    ) == policy_of(before, other) by {
        if other.id() == id {
            law_signature_text_is_unique(other, event.signature);
        }
        assert(others_unchanged(before.register().states(), next.register().states(), id));
        assert(none_dropped(before.register().states(), next.register().states()));
    }
}

proof fn lemma_run<S: Storage<EventSignature, EventState>>(
    limiters: Seq<RateLimiter<S>>,
    events: Seq<CheckedEvent>,
    n: int,
)
    requires
        is_run(limiters, events),
        begins_fresh(limiters[0]),
        has_room_throughout(limiters[0].register().initial_policy(), events),
        0 <= n <= events.len(),
    ensures
        limiters[n].register().is_exact(),
        limiters[n].register().keeps_all(),
        limiters[n].register().initial_policy() == limiters[0].register().initial_policy(),
        limiters[n].breaker().state == CircuitState::Closed,
        forall|s: EventSignature| #[trigger]
            policy_of(limiters[n], s) == after::<Policy>(
                limiters[0].register().initial_policy(),
                times_of(events.take(n), s),
            ),
    decreases n,
{
    let initial = limiters[0].register().initial_policy();
    if n == 0 {
        assert(events.take(0).len() == 0);
    } else {
        lemma_run(limiters, events, n - 1);
        let event = events[n - 1];
        let before = limiters[n - 1];
        assert(before.checks(
            event.signature,
            event.metadata,
            event.asked_at,
            event.now,
            event.failed_at,
            event.decision,
            &limiters[n - 1 + 1],
        ));
        lemma_check_step(before, event, limiters[n]);
        assert(events.take(n).drop_last() =~= events.take(n - 1));
        assert(events.take(n).last() == event);
        assert forall|s: EventSignature| #[trigger] policy_of(limiters[n], s) == after::<Policy>(
            initial,
            times_of(events.take(n), s),
        ) by {
            if s == event.signature {
                let times = times_of(events.take(n), s);
                assert(times.drop_last() =~= times_of(events.take(n - 1), s));
                assert(times.last() == event.now);
            }
        }
    }
}

/// Each signature is limited on its own: what is decided about an event depends on its policy
/// and on the earlier events of the same signature, and on nothing else.
pub proof fn law_signatures_are_independent<S: Storage<EventSignature, EventState>>(
    limiters: Seq<RateLimiter<S>>,
    events: Seq<CheckedEvent>,
    i: int,
)
    requires
        is_run(limiters, events),
        begins_fresh(limiters[0]),
        has_room_throughout(limiters[0].register().initial_policy(), events),
        0 <= i < events.len(),
    ensures
        events[i].decision == outcome(
            Some(
                Policy::decision(
                    after::<Policy>(
                        limiters[0].register().initial_policy(),
                        times_of(events.take(i), events[i].signature),
                    ),
                    events[i].now,
                ),
            ),
        ),
{
    lemma_run(limiters, events, i);
    assert(limiters[i].checks(
        events[i].signature,
        events[i].metadata,
        events[i].asked_at,
        events[i].now,
        events[i].failed_at,
        events[i].decision,
        &limiters[i + 1],
    ));
    assert(policy_of(limiters[i], events[i].signature) == after::<Policy>(
        limiters[0].register().initial_policy(),
        times_of(events.take(i), events[i].signature),
    ));
    lemma_check_step(limiters[i], events[i], limiters[i + 1]);
}

proof fn lemma_count_policy_after(start: CountModel, times: Seq<nat>)
    requires
        start.registered == 0,
        times.len() <= usize::MAX,
    ensures
        after::<Policy>(PolicyModel::CountBased(start), times) == PolicyModel::CountBased(
            CountModel { registered: times.len() as usize, ..start },
        ),
    decreases times.len(),
{
    if times.len() > 0 {
        lemma_count_policy_after(start, times.drop_last());
    }
}

proof fn lemma_times_of_len(events: Seq<CheckedEvent>, s: EventSignature)
    ensures
        times_of(events, s).len() <= events.len(),
    decreases events.len(),
{
    if events.len() > 0 {
        lemma_times_of_len(events.drop_last(), s);
    }
}

/// With a count-based policy exactly the first `max_count` events of each signature pass.
pub proof fn law_first_events_of_each_signature_pass<S: Storage<EventSignature, EventState>>(
    limiters: Seq<RateLimiter<S>>,
    events: Seq<CheckedEvent>,
    max_count: usize,
    i: int,
)
    requires
        is_run(limiters, events),
        begins_fresh(limiters[0]),
        limiters[0].register().initial_policy() == PolicyModel::CountBased(
            CountModel { max_count, registered: 0 },
        ),
        events.len() <= usize::MAX,
        0 <= i < events.len(),
    ensures
        events[i].decision == LimitDecision::Allow <==> times_of(
            events.take(i),
            events[i].signature,
        ).len() < max_count,
{
    let start = CountModel { max_count, registered: 0 };
    assert forall|j: int| 0 <= j < events.len() implies Policy::has_room(
        after::<Policy>(
            PolicyModel::CountBased(start),
            times_of(events.take(j), (#[trigger] events[j]).signature),
        ),
    ) by {
        lemma_times_of_len(events.take(j), events[j].signature);
        lemma_count_policy_after(start, times_of(events.take(j), events[j].signature));
    }
    lemma_times_of_len(events.take(i), events[i].signature);
    lemma_count_policy_after(start, times_of(events.take(i), events[i].signature));
    law_signatures_are_independent(limiters, events, i);
}

/// How many events passed.
pub open spec fn passed(events: Seq<CheckedEvent>) -> nat
    decreases events.len(),
{
    if events.len() == 0 {
        0
    } else {
        passed(events.drop_last()) + if events.last().decision == LimitDecision::Allow {
            1nat
        } else {
            0nat
        }
    }
}

/// Every check counts one event, whatever else happens: among the first `n` events, those that
/// passed are counted as allowed, and all others as suppressed.
pub proof fn law_every_event_is_counted<S: Storage<EventSignature, EventState>>(
    limiters: Seq<RateLimiter<S>>,
    events: Seq<CheckedEvent>,
    n: int,
)
    requires
        is_run(limiters, events),
        0 <= n <= events.len(),
        limiters[0].counts().events_allowed + events.len() <= u64::MAX,
        limiters[0].counts().events_suppressed + events.len() <= u64::MAX,
    ensures
        passed(events.take(n)) <= n,
        limiters[n].counts().events_allowed == limiters[0].counts().events_allowed + passed(
            events.take(n),
        ),
        limiters[n].counts().events_suppressed == limiters[0].counts().events_suppressed + n
            - passed(events.take(n)),
    decreases n,
{
    if n > 0 {
        law_every_event_is_counted(limiters, events, n - 1);
        let event = events[n - 1];
        assert(events.take(n).drop_last() =~= events.take(n - 1));
        assert(events.take(n).last() == event);
        assert(limiters[n - 1].checks(
            event.signature,
            event.metadata,
            event.asked_at,
            event.now,
            event.failed_at,
            event.decision,
            &limiters[n - 1 + 1],
        ));
        assert(limiters[n].counts() == counted(
            limiters[n - 1].evictions_noted(&limiters[n]),
            event.decision,
        ) || limiters[n].counts() == counted(limiters[n - 1].counts(), event.decision));
    }
}

/// Whether two limiters would treat an event of this signature alike: their storages can be relied
/// on, and they have the same circuit breaker, the same counts, the same initial policy, and the
/// same state for the signature.
pub open spec fn alike<S: Storage<EventSignature, EventState>>(
    a: RateLimiter<S>,
    b: RateLimiter<S>,
    signature: EventSignature,
) -> bool {
    let id = signature.id();
    &&& a.register().is_exact() && b.register().is_exact()
    &&& a.breaker() == b.breaker()
    &&& a.counts() == b.counts()
    &&& a.register().initial_policy() == b.register().initial_policy()
    &&& a.register().states().contains_key(id) == b.register().states().contains_key(id)
    &&& a.register().states().contains_key(id) ==> a.register().states()[id]@
        == b.register().states()[id]@
}

/// What was known of a signature's events.
pub open spec fn known_of<S: Storage<EventSignature, EventState>>(
    l: RateLimiter<S>,
    signature: EventSignature,
) -> Option<MetadataModel> {
    if l.register().states().contains_key(signature.id()) {
        l.register().states()[signature.id()]@.metadata
    } else {
        None
    }
}

/// What is told of an event has no part in the decision. Of two limiters that would treat an event
/// alike, one is told nothing and the other something: both decide the same, their circuit breakers
/// and counts stay equal, and so do policy and counter of the signature. Evictions are counted
/// alike where the storages have dropped equally many entries. What is told is noted exactly where
/// nothing was known.
pub proof fn law_metadata_does_not_decide<S: Storage<EventSignature, EventState>>(
    a: RateLimiter<S>,
    b: RateLimiter<S>,
    event: CheckedEvent,
    metadata: MetadataModel,
    decision: LimitDecision,
    next_a: RateLimiter<S>,
    next_b: RateLimiter<S>,
)
    requires
        alike(a, b, event.signature),
        a.checks(
            event.signature,
            None,
            event.asked_at,
            event.now,
            event.failed_at,
            event.decision,
            &next_a,
        ),
        b.checks(
            event.signature,
            Some(metadata),
            event.asked_at,
            event.now,
            event.failed_at,
            decision,
            &next_b,
        ),
    ensures
        decision == event.decision,
        next_a.breaker() == next_b.breaker(),
        next_a.counts().events_allowed == next_b.counts().events_allowed,
        next_a.counts().events_suppressed == next_b.counts().events_suppressed,
        a.evictions_noted(&next_a) == b.evictions_noted(&next_b) ==> next_a.counts()
            == next_b.counts(),
        ({
            let id = event.signature.id();
            let states_a = next_a.register().states();
            let states_b = next_b.register().states();
            &&& states_a.contains_key(id) == states_b.contains_key(id)
            &&& states_a.contains_key(id) ==> {
                &&& states_a[id]@.policy == states_b[id]@.policy
                &&& states_a[id]@.counter == states_b[id]@.counter
            }
        }),
        known_of(next_a, event.signature) == known_of(a, event.signature),
        known_of(next_b, event.signature) == if !admits(b.breaker(), event.asked_at) || known_of(
            b,
            event.signature,
        ) is Some {
            known_of(b, event.signature)
        } else {
            Some(metadata)
        },
{
    let id = event.signature.id();
    if admits(a.breaker(), event.asked_at) {
        let (answer_a, state_a, last_a) = lemma_asked(
            a,
            CheckedEvent { metadata: None, ..event },
            next_a,
        );
        let (answer_b, state_b, last_b) = lemma_asked(
            b,
            CheckedEvent { metadata: Some(metadata), decision, ..event },
            next_b,
        );
        assert(state_a@ == state_b@);
    }
}

/// An event is suppressed only because its policy said so: where the circuit is open or the
/// policy cannot answer, it passes.
pub proof fn law_limiter_fails_open<S: Storage<EventSignature, EventState>>(
    before: RateLimiter<S>,
    event: CheckedEvent,
    next: RateLimiter<S>,
)
    requires
        before.checks(
            event.signature,
            event.metadata,
            event.asked_at,
            event.now,
            event.failed_at,
            event.decision,
            &next,
        ),
        event.decision == LimitDecision::Suppress,
    ensures
        admits(before.breaker(), event.asked_at),
        exists|state: EventState| #[trigger]
            before.register().begins(event.signature, event.now, state) && verdict(
                state@,
                event.now,
            ) == Some(PolicyDecision::Suppress),
{
    let (answer, first, last) = lemma_asked(before, event, next);
    assert(before.register().begins(event.signature, event.now, first));
}

/// In a storage that can be relied on, a check never changes the state of another signature: it
/// stays as it is, or is dropped to make room for a new one.
pub proof fn law_check_leaves_other_signatures_alone<S: Storage<EventSignature, EventState>>(
    before: RateLimiter<S>,
    event: CheckedEvent,
    next: RateLimiter<S>,
    other: EventSignature,
)
    requires
        before.register().is_exact(),
        before.checks(
            event.signature,
            event.metadata,
            event.asked_at,
            event.now,
            event.failed_at,
            event.decision,
            &next,
        ),
        other != event.signature,
        next.register().states().contains_key(other.id()),
    ensures
        before.register().states().contains_key(other.id()),
        next.register().states()[other.id()] == before.register().states()[other.id()],
{
    if other.id() == event.signature.id() {
        law_signature_text_is_unique(other, event.signature);
    }
    assert(others_unchanged(
        before.register().states(),
        next.register().states(),
        event.signature.id(),
    ));
}

/// How many of the first `n` events of a signature were suppressed since its state was last stored
/// for the first time.
pub open spec fn suppressed_since_stored<S: Storage<EventSignature, EventState>>(
    limiters: Seq<RateLimiter<S>>,
    events: Seq<CheckedEvent>,
    signature: EventSignature,
    n: int,
) -> nat
    decreases n,
{
    if n <= 0 {
        0
    } else {
        let before = if limiters[n - 1].register().states().contains_key(signature.id()) {
            suppressed_since_stored(limiters, events, signature, n - 1)
        } else {
            0
        };
        if events[n - 1].signature == signature && events[n - 1].decision
            == LimitDecision::Suppress {
            before + 1
        } else {
            before
        }
    }
}

/// The count of a signature is one, for the occurrence that brought its state about, plus the
/// number of its events that have been suppressed since then, whatever events of other signatures
/// came in between. A signature that was dropped to make room and has come back starts over.
pub proof fn law_count_is_one_plus_suppressed_events<S: Storage<EventSignature, EventState>>(
    limiters: Seq<RateLimiter<S>>,
    events: Seq<CheckedEvent>,
    signature: EventSignature,
    n: int,
)
    requires
        is_run(limiters, events),
        limiters[0].register().is_exact(),
        !limiters[0].register().states().contains_key(signature.id()),
        0 <= n <= events.len() < usize::MAX,
        limiters[n].register().states().contains_key(signature.id()),
    ensures
        limiters[n].register().states()[signature.id()]@.counter.suppressed == 1
            + suppressed_since_stored(limiters, events, signature, n),
{
    lemma_count_of_run(limiters, events, signature, n);
}

proof fn lemma_count_of_run<S: Storage<EventSignature, EventState>>(
    limiters: Seq<RateLimiter<S>>,
    events: Seq<CheckedEvent>,
    signature: EventSignature,
    n: int,
)
    requires
        is_run(limiters, events),
        limiters[0].register().is_exact(),
        !limiters[0].register().states().contains_key(signature.id()),
        0 <= n <= events.len() < usize::MAX,
    ensures
        limiters[n].register().is_exact(),
        suppressed_since_stored(limiters, events, signature, n) <= n,
        limiters[n].register().states().contains_key(signature.id())
            ==> limiters[n].register().states()[signature.id()]@.counter.suppressed == 1
            + suppressed_since_stored(limiters, events, signature, n),
    decreases n,
{
    if n > 0 {
        lemma_count_of_run(limiters, events, signature, n - 1);
        let before = limiters[n - 1];
        let event = events[n - 1];
        let id = signature.id();
        assert(before.checks(
            event.signature,
            event.metadata,
            event.asked_at,
            event.now,
            event.failed_at,
            event.decision,
            &limiters[n - 1 + 1],
        ));
        if admits(before.breaker(), event.asked_at) {
            let (answer, first, last) = lemma_asked(before, event, limiters[n]);
            if event.signature != signature {
                if event.signature.id() == id {
                    law_signature_text_is_unique(event.signature, signature);
                }
                assert(others_unchanged(
                    before.register().states(),
                    limiters[n].register().states(),
                    event.signature.id(),
                ));
            }
        }
    }
}

/// Whether a policy is as it was made, so that it has registered nothing.
pub open spec fn is_unused(policy: PolicyModel) -> bool {
    match policy {
        PolicyModel::CountBased(m) => m.registered == 0,
        PolicyModel::TimeWindow(m) => m.times.len() == 0,
        PolicyModel::ExponentialBackoff(m) => m.registered == 0 && m.next_allowed == 1,
        PolicyModel::TokenBucket(m) => true,
    }
}

proof fn lemma_unused_policy_has_room(initial: PolicyModel, times: Seq<nat>)
    requires
        is_unused(initial),
        times.len() < usize::MAX,
        times.len() < u64::MAX - 1,
    ensures
        Policy::has_room(after::<Policy>(initial, times)),
{
    let more = times.push(0);
    let n = times.len() as int;
    assert(more.take(n) =~= times);
    match initial {
        PolicyModel::CountBased(m) => law_count_based_policy_allows_the_rest(m, more, n),
        PolicyModel::TimeWindow(m) => {
            lemma_window_stays_window(m, times);
            let last = after::<Policy>(initial, times);
            law_time_window_policy_forgets_only_what_is_over(last->TimeWindow_0, 0);
        },
        PolicyModel::ExponentialBackoff(m) => law_backoff_policy_allows_powers_of_two(m, more, n),
        PolicyModel::TokenBucket(m) => {
            lemma_bucket_stays_bucket(m, times);
        },
    }
}

proof fn lemma_window_stays_window(m: WindowModel, times: Seq<nat>)
    ensures
        after::<Policy>(PolicyModel::TimeWindow(m), times) is TimeWindow,
    decreases times.len(),
{
    if times.len() > 0 {
        lemma_window_stays_window(m, times.drop_last());
    }
}

proof fn lemma_bucket_stays_bucket(m: BucketModel, times: Seq<nat>)
    ensures
        after::<Policy>(PolicyModel::TokenBucket(m), times) is TokenBucket,
    decreases times.len(),
{
    if times.len() > 0 {
        lemma_bucket_stays_bucket(m, times.drop_last());
    }
}

/// A limiter that begins afresh with a policy of any kind, as it was made, decides about each event
/// as that policy does about the events of its signature alone. The policy never fails, however
/// many events come, as long as they can be counted.
pub proof fn law_fresh_limiter_follows_its_policy<S: Storage<EventSignature, EventState>>(
    limiters: Seq<RateLimiter<S>>,
    events: Seq<CheckedEvent>,
    i: int,
)
    requires
        is_run(limiters, events),
        begins_fresh(limiters[0]),
        is_unused(limiters[0].register().initial_policy()),
        0 <= i < events.len(),
        events.len() < usize::MAX,
        events.len() < u64::MAX - 1,
    ensures
        ({
            let initial = limiters[0].register().initial_policy();
            let times = times_of(events.take(i), events[i].signature);
            let decision = Policy::decision(after::<Policy>(initial, times), events[i].now);
            &&& events[i].decision == LimitDecision::Allow <==> decision == PolicyDecision::Allow
            &&& events[i].decision == LimitDecision::Suppress <==> decision
                == PolicyDecision::Suppress
            &&& limiters[i].breaker().state == CircuitState::Closed
        }),
{
    let initial = limiters[0].register().initial_policy();
    assert forall|j: int| 0 <= j < events.len() implies Policy::has_room(
        after::<Policy>(initial, times_of(events.take(j), (#[trigger] events[j]).signature)),
    ) by {
        lemma_times_of_len(events.take(j), events[j].signature);
        lemma_unused_policy_has_room(initial, times_of(events.take(j), events[j].signature));
    }
    law_signatures_are_independent(limiters, events, i);
    lemma_run(limiters, events, i);
}

/// With an exponential backoff policy, the events of each signature pass exactly if their number,
/// counting from one, is a power of two.
pub proof fn law_powers_of_two_of_each_signature_pass<S: Storage<EventSignature, EventState>>(
    limiters: Seq<RateLimiter<S>>,
    events: Seq<CheckedEvent>,
    i: int,
)
    requires
        is_run(limiters, events),
        begins_fresh(limiters[0]),
        limiters[0].register().initial_policy() == PolicyModel::ExponentialBackoff(
            BackoffModel { registered: 0, next_allowed: 1 },
        ),
        0 <= i < events.len(),
        events.len() < usize::MAX,
        events.len() < u64::MAX - 1,
    ensures
        events[i].decision == LimitDecision::Allow <==> exists|k: nat|
            1 + times_of(events.take(i), events[i].signature).len() == #[trigger] pow2(k),
{
    let times = times_of(events.take(i), events[i].signature);
    let more = times.push(events[i].now);
    law_fresh_limiter_follows_its_policy(limiters, events, i);
    lemma_times_of_len(events.take(i), events[i].signature);
    law_backoff_policy_allows_powers_of_two(
        BackoffModel { registered: 0, next_allowed: 1 },
        more,
        times.len() as int,
    );
    assert(more.take(times.len() as int) =~= times);
}

/// What one check does to the state of its signature, to the circuit breaker and to the counts, in
/// a storage that can be relied on. A signature that was not known starts with the initial policy
/// and a count of one. The policy decides; a suppressed event is counted with its time, an allowed
/// one is not. Where the policy cannot register any more, the event passes, the state stays, and
/// the circuit breaker counts a failure; else it counts a success.
pub proof fn law_check_records_what_it_decides<S: Storage<EventSignature, EventState>>(
    before: RateLimiter<S>,
    event: CheckedEvent,
    next: RateLimiter<S>,
)
    requires
        before.register().is_exact(),
        admits(before.breaker(), event.asked_at),
        before.checks(
            event.signature,
            event.metadata,
            event.asked_at,
            event.now,
            event.failed_at,
            event.decision,
            &next,
        ),
    ensures
        ({
            let id = event.signature.id();
            let known = before.register().states().contains_key(id);
            let old_state = before.register().states()[id]@;
            let new_state = next.register().states()[id]@;
            let policy = if known {
                old_state.policy
            } else {
                before.register().initial_policy()
            };
            let count = if known {
                old_state.counter.suppressed as int
            } else {
                1
            };
            let reported = if known {
                old_state.counter.reported as int
            } else {
                0
            };
            &&& next.register().states().contains_key(id)
            &&& next.register().initial_policy() == before.register().initial_policy()
            &&& new_state.counter.reported == reported
            &&& Policy::has_room(policy) ==> {
                &&& event.decision == LimitDecision::Suppress <==> Policy::decision(
                    policy,
                    event.now,
                ) == PolicyDecision::Suppress
                &&& new_state.policy == Policy::advanced(policy, event.now)
                &&& next.breaker().state == CircuitState::Closed
                &&& next.breaker().failures == 0
            }
            &&& !Policy::has_room(policy) ==> {
                &&& event.decision == LimitDecision::Allow
                &&& new_state.policy == policy
                &&& before.breaker().failures < u64::MAX ==> next.breaker().failures
                    == before.breaker().failures + 1
                &&& event.failed_at <= u64::MAX ==> next.breaker().last_failure == event.failed_at
            }
            &&& event.decision == LimitDecision::Suppress && count < usize::MAX ==> {
                &&& new_state.counter.suppressed == count + 1
                &&& event.now <= u64::MAX ==> new_state.counter.last == event.now
            }
            &&& event.decision == LimitDecision::Allow ==> new_state.counter.suppressed == count
            &&& event.decision == LimitDecision::Allow && known ==> new_state.counter
                == old_state.counter
            &&& !known && event.now <= u64::MAX ==> {
                &&& new_state.counter.first == event.now
                &&& new_state.counter.last == event.now
            }
        }),
{
    let (answer, first, last) = lemma_asked(before, event, next);
}

/// While an open circuit waits, nothing is asked and nothing is changed: the event passes and is
/// counted as allowed, and that is all.
pub proof fn law_waiting_circuit_lets_events_pass_untouched<S: Storage<EventSignature, EventState>>(
    before: RateLimiter<S>,
    event: CheckedEvent,
    next: RateLimiter<S>,
)
    requires
        before.breaker().state == CircuitState::Open,
        event.asked_at >= before.breaker().last_failure,
        event.asked_at < before.breaker().last_failure
            + before.breaker().config.recovery_timeout@,
        before.checks(
            event.signature,
            event.metadata,
            event.asked_at,
            event.now,
            event.failed_at,
            event.decision,
            &next,
        ),
    ensures
        event.decision == LimitDecision::Allow,
        next.register() == before.register(),
        next.breaker() == before.breaker(),
        next.monitored_by() == before.monitored_by(),
        next.counts().events_suppressed == before.counts().events_suppressed,
        next.counts().signatures_evicted == before.counts().signatures_evicted,
        before.counts().events_allowed < u64::MAX ==> next.counts().events_allowed
            == before.counts().events_allowed + 1,
{
}

/// A check leaves alone what it has no business with: the clock, the initial policy, where counts
/// are shared, the configuration of the circuit breaker.
pub proof fn law_check_keeps_the_setup<S: Storage<EventSignature, EventState>>(
    before: RateLimiter<S>,
    event: CheckedEvent,
    next: RateLimiter<S>,
)
    requires
        before.checks(
            event.signature,
            event.metadata,
            event.asked_at,
            event.now,
            event.failed_at,
            event.decision,
            &next,
        ),
    ensures
        next.register().tells_time_by() == before.register().tells_time_by(),
        next.register().initial_policy() == before.register().initial_policy(),
        next.register().keeps_all() == before.register().keeps_all(),
        next.register().is_exact() == before.register().is_exact(),
        next.monitored_by() == before.monitored_by(),
        next.breaker().config == before.breaker().config,
        next.breaker().epoch == before.breaker().epoch,
{
    if admits(before.breaker(), event.asked_at) {
        lemma_asked(before, event, next);
    }
}

/// Where no entry is dropped to make room, no signature that is tracked is forgotten; and a check
/// of a signature that is tracked never makes another one be forgotten.
pub proof fn law_check_forgets_no_signature<S: Storage<EventSignature, EventState>>(
    before: RateLimiter<S>,
    event: CheckedEvent,
    next: RateLimiter<S>,
    other: EventSignature,
)
    requires
        before.register().is_exact(),
        before.checks(
            event.signature,
            event.metadata,
            event.asked_at,
            event.now,
            event.failed_at,
            event.decision,
            &next,
        ),
        before.register().keeps_all() || before.register().states().contains_key(
            event.signature.id(),
        ),
        before.register().states().contains_key(other.id()),
    ensures
        next.register().states().contains_key(other.id()),
{
    if admits(before.breaker(), event.asked_at) {
        lemma_asked(before, event, next);
    }
}

/// The evictions that a limiter counts in a check are those that its storage has made meanwhile.
pub proof fn law_evictions_of_a_check_are_counted<S: Storage<EventSignature, EventState>>(
    before: RateLimiter<S>,
    event: CheckedEvent,
    next: RateLimiter<S>,
)
    requires
        before.checks(
            event.signature,
            event.metadata,
            event.asked_at,
            event.now,
            event.failed_at,
            event.decision,
            &next,
        ),
        before.register().kept_in().evicted() <= next.register().kept_in().evicted(),
        before.counts().signatures_evicted + next.register().kept_in().evicted()
            - before.register().kept_in().evicted() <= u64::MAX,
    ensures
        next.counts().signatures_evicted - before.counts().signatures_evicted
            == next.register().kept_in().evicted() - before.register().kept_in().evicted(),
{
    if admits(before.breaker(), event.asked_at) {
        lemma_asked(before, event, next);
    }
}

/// An event that is checked by the clock is decided about at a time that the registry's own clock
/// may tell.
pub proof fn law_events_are_timed_by_the_registry_clock<S: Storage<EventSignature, EventState>>(
    l: RateLimiter<S>,
    asked_at: nat,
    now: nat,
)
    requires
        l.at_clock_time(asked_at, now),
        l.breaker().state != CircuitState::Open,
    ensures
        l.register().tells_time_by().tells(now),
{
}

/// Every check is noted where it can be seen: an event that passes as allowed, whatever the reason,
/// and one that does not as suppressed.
pub proof fn law_every_check_is_noted<S: Storage<EventSignature, EventState>>(
    before: RateLimiter<S>,
    event: CheckedEvent,
    next: RateLimiter<S>,
)
    requires
        before.checks(
            event.signature,
            event.metadata,
            event.asked_at,
            event.now,
            event.failed_at,
            event.decision,
            &next,
        ),
    ensures
        event.decision == LimitDecision::Allow ==> next.monitored_by().allowed_noted(),
        event.decision == LimitDecision::Suppress ==> next.monitored_by().suppressed_noted(),
{
    law_check_keeps_the_setup(before, event, next);
}

/// The circuit breaker is asked, and told of failures, at times of its own clock.
pub proof fn law_circuit_breaker_goes_by_its_own_clock<S: Storage<EventSignature, EventState>>(
    l: RateLimiter<S>,
    asked_at: nat,
    failed_at: nat,
)
    requires
        l.at_breaker_times(asked_at, failed_at),
    ensures
        l.breaker().epoch.shows(asked_at),
        l.breaker().epoch.shows(failed_at),
{
}

/// What a failed check does to the circuit: a closed one opens once enough failures have come in a
/// row, and one that was being tried again opens at once. It then waits from that failure on.
pub proof fn law_failed_check_can_open_the_circuit<S: Storage<EventSignature, EventState>>(
    before: RateLimiter<S>,
    event: CheckedEvent,
    next: RateLimiter<S>,
)
    requires
        before.register().is_exact(),
        admits(before.breaker(), event.asked_at),
        !Policy::has_room(policy_of(before, event.signature)),
        before.breaker().failures < u64::MAX,
        event.failed_at <= u64::MAX,
        before.checks(
            event.signature,
            event.metadata,
            event.asked_at,
            event.now,
            event.failed_at,
            event.decision,
            &next,
        ),
    ensures
        event.decision == LimitDecision::Allow,
        before.breaker().state != CircuitState::Closed ==> next.breaker().state
            == CircuitState::Open,
        before.breaker().state == CircuitState::Closed ==> (next.breaker().state
            == CircuitState::Open <==> before.breaker().failures + 1
            >= before.breaker().config.failure_threshold),
        forall|now: nat|
            next.breaker().state == CircuitState::Open && event.failed_at <= now < event.failed_at
                + before.breaker().config.recovery_timeout@ ==> !#[trigger] admits(
                next.breaker(),
                now,
            ),
{
    let (answer, first, last) = lemma_asked(before, event, next);
}

} // verus!
