//! What a layer promises about signatures, descriptions and settings.
use crate::application::circuit_breaker::CircuitState;
use crate::application::limiter::RateLimiter;
use crate::application::limiter_laws::{begins_fresh, is_run, CheckedEvent};
use crate::application::ports::Storage;
use crate::application::registry::EventState;
use crate::domain::fields::{map_of, sorted, FieldMap, Pairs};
use crate::domain::policy::PolicyModel;
use crate::domain::signature::{
    are_parts_of, digest, law_signature_is_of_all_parts, signature_texts, EventSignature,
};
use crate::infrastructure::eviction::EvictionStrategy;
use crate::infrastructure::layer::{
    default_settings, event_metadata, event_signature, innermost, is_built_from, is_chosen,
    opt_names, same_settings, scopes_view, signature_fields, span_context, EventRecord, LayerModel,
    TracingRateLimitLayer, TracingRateLimitLayerBuilder,
};
use crate::infrastructure::storage::ShardedStorage;
use crate::infrastructure::storage_laws::{
    byte_limit, entry_limit, law_signature_limit_holds,
};
use vstd::prelude::*;

verus! {

/// Whether an event itself gives a field for its signature: it has the field, and the field is
/// named, or is not among those that are left out where such a list is given.
pub open spec fn gives(
    m: LayerModel,
    fields: Map<Seq<char>, Seq<char>>,
    name: Seq<char>,
) -> bool {
    fields.contains_key(name) && match m.choice.excluded {
        Some(excluded) => forall|i: int|
            0 <= i < excluded.len() ==> #[trigger] excluded[i] != name,
        None => exists|i: int|
            0 <= i < m.choice.named.len() && #[trigger] m.choice.named[i] == name,
    }
}

/// Whether span `k` is the innermost one that has a field.
pub open spec fn has_innermost(
    scopes: Seq<Map<Seq<char>, Seq<char>>>,
    name: Seq<char>,
    k: int,
) -> bool {
    &&& 0 <= k < scopes.len()
    &&& scopes[k].contains_key(name)
    &&& forall|j: int| 0 <= j < k ==> !(#[trigger] scopes[j]).contains_key(name)
}

proof fn lemma_innermost(scopes: Seq<Map<Seq<char>, Seq<char>>>, name: Seq<char>)
    ensures
        forall|k: int| #[trigger]
            has_innermost(scopes, name, k) ==> innermost(scopes, name) == Some(scopes[k][name]),
        (forall|k: int| 0 <= k < scopes.len() ==> !(#[trigger] scopes[k]).contains_key(name))
            <==> innermost(scopes, name) is None,
        innermost(scopes, name) is Some ==> exists|k: int| #[trigger]
            has_innermost(scopes, name, k),
    decreases scopes.len(),
{
    if scopes.len() > 0 {
        let rest = scopes.drop_first();
        lemma_innermost(rest, name);
        assert forall|k: int| #[trigger] has_innermost(scopes, name, k) implies innermost(
            scopes,
            name,
        ) == Some(scopes[k][name]) by {
            if k > 0 {
                assert(!scopes[0].contains_key(name));
                assert forall|j: int| 0 <= j < k - 1 implies !(#[trigger] rest[j]).contains_key(
                    name,
                ) by {
                    assert(!scopes[j + 1].contains_key(name));
                }
                assert(has_innermost(rest, name, k - 1));
            }
        }
        if forall|k: int| 0 <= k < scopes.len() ==> !(#[trigger] scopes[k]).contains_key(name) {
            assert(!scopes[0].contains_key(name));
            assert forall|k: int| 0 <= k < rest.len() implies !(#[trigger] rest[k]).contains_key(
                name,
            ) by {
                assert(!scopes[k + 1].contains_key(name));
            }
        } else {
            let k = choose|k: int|
                0 <= k < scopes.len() && (#[trigger] scopes[k]).contains_key(name);
            if k > 0 && !scopes[0].contains_key(name) {
                assert(rest[k - 1].contains_key(name));
            }
        }
        if innermost(scopes, name) is Some {
            if scopes[0].contains_key(name) {
                assert(has_innermost(scopes, name, 0));
            } else {
                let k = choose|k: int| #[trigger] has_innermost(rest, name, k);
                assert forall|j: int| 0 <= j < k + 1 implies !(#[trigger] scopes[j]).contains_key(
                    name,
                ) by {
                    if j > 0 {
                        assert(!rest[j - 1].contains_key(name));
                    }
                }
                assert(scopes[k + 1] == rest[k]);
                assert(has_innermost(scopes, name, k + 1));
            }
        }
    }
}

/// Which fields go into the signature of an event, and with which values. A field that the event
/// gives is there with the value of the event. Any other field is there exactly if it is one that
/// is to be taken from spans and some span around the event has it, and then with the value of the
/// innermost such span, whatever fields the event gives.
pub proof fn law_signature_combines_spans_and_event(
    m: LayerModel,
    fields: Map<Seq<char>, Seq<char>>,
    scopes: Seq<Map<Seq<char>, Seq<char>>>,
    name: Seq<char>,
)
    ensures
        ({
            let all = signature_fields(m, fields, scopes);
            &&& gives(m, fields, name) ==> all.contains_key(name) && all[name] == fields[name]
            &&& !gives(m, fields, name) ==> (all.contains_key(name) <==> m.span_names.contains(name)
                && exists|k: int|
                0 <= k < scopes.len() && (#[trigger] scopes[k]).contains_key(name))
            &&& !gives(m, fields, name) && m.span_names.contains(name) ==> forall|k: int| #[trigger]
                has_innermost(scopes, name, k) ==> all.contains_key(name) && all[name]
                    == scopes[k][name]
        }),
{
    lemma_innermost(scopes, name);
    match m.choice.excluded {
        Some(excluded) => {
            if excluded.contains(name) {
                let i = choose|i: int| 0 <= i < excluded.len() && excluded[i] == name;
                assert(excluded[i] == name);
            }
        },
        None => {},
    }
    assert(gives(m, fields, name) <==> fields.contains_key(name) && is_chosen(m.choice, name));
}

/// What spans alone give: exactly the fields that are asked for and that some span has, each with
/// the value of the innermost span that has it.
pub proof fn law_span_context_is_what_spans_have(
    names: Seq<Seq<char>>,
    scopes: Seq<Map<Seq<char>, Seq<char>>>,
    name: Seq<char>,
    k: int,
)
    ensures
        span_context(names, scopes).contains_key(name) <==> names.contains(name) && exists|i: int|
            0 <= i < scopes.len() && (#[trigger] scopes[i]).contains_key(name),
        names.contains(name) && has_innermost(scopes, name, k) ==> span_context(
            names,
            scopes,
        )[name] == scopes[k][name],
{
    lemma_innermost(scopes, name);
}

/// The signature of an event is the hash of its level, its name, its target, and the fields that
/// are combined from the event and the spans around it: of all of them, and of nothing else.
pub proof fn law_event_signature_is_of_level_name_target_and_fields(
    m: LayerModel,
    event: EventRecord,
    scopes: Seq<Map<Seq<char>, Seq<char>>>,
    pairs: Pairs,
)
    requires
        sorted(pairs),
        map_of(pairs) == signature_fields(m, event.fields@, scopes),
    ensures
        exists|texts: Seq<Seq<char>>|
            are_parts_of(texts, event.level@, event.name@, pairs, Some(event.target@))
                && event_signature(m, event, scopes) == #[trigger] digest(texts),
{
    law_signature_is_of_all_parts(event.level@, event.name@, pairs, Some(event.target@));
    let texts = signature_texts(event.level@, event.name@, map_of(pairs), Some(event.target@));
    assert(digest(texts) == event_signature(m, event, scopes));
}

/// What a summary will say of an event: its level, its target, its message, or its name where it
/// has none, and the fields of its signature.
pub proof fn law_event_is_described_by_its_message(
    m: LayerModel,
    event: EventRecord,
    scopes: Seq<Map<Seq<char>, Seq<char>>>,
)
    ensures
        ({
            let described = event_metadata(m, event, scopes);
            &&& described.level == event.level@
            &&& described.target == event.target@
            &&& event.fields@.contains_key("message"@) ==> described.message
                == event.fields@["message"@]
            &&& !event.fields@.contains_key("message"@) ==> described.message == event.name@
            &&& described.fields == signature_fields(m, event.fields@, scopes)
        }),
{
}

/// The settings that a builder starts with: fifty events at once and one per second for each
/// signature, ten thousand signatures, a summary every thirty seconds if summaries are wanted,
/// which they are not, and no fields and no targets named.
pub proof fn law_builder_starts_with_the_defaults()
    ensures
        ({
            let m = default_settings();
            &&& m.policy matches PolicyModel::TokenBucket(b) && b.capacity == 50_000_000_000
                && b.refill_rate == 1_000_000_000 && b.level == 50_000_000_000_000_000_000
                && b.last_refill is None
            &&& m.interval == 30_000_000_000
            &&& m.max_signatures == Some(10_000usize)
            &&& !m.emission
            &&& m.span_names.len() == 0
            &&& m.event_names.len() == 0
            &&& m.excluded is None
            &&& m.exempt.len() == 0
        }),
{
}

/// A layer is built with the settings that were chosen, and begins afresh: nothing is tracked, the
/// circuit is closed, and nothing is counted.
pub proof fn law_layer_is_built_as_chosen(
    layer: TracingRateLimitLayer<ShardedStorage<EventSignature, EventState>>,
    builder: TracingRateLimitLayerBuilder,
)
    requires
        is_built_from(layer, builder),
    ensures
        layer.settings().span_names == builder@.span_names,
        layer.settings().choice.named == builder@.event_names,
        layer.settings().choice.excluded == builder@.excluded,
        layer.settings().exempt == builder@.exempt,
        layer.emission().interval@ == builder@.interval,
        layer.emission().min_count == 1,
        layer.emits() == builder@.emission,
        layer.formatter() == builder.formatter(),
        layer.decides_by().register().initial_policy() == builder@.policy,
        builder.chosen_clock() matches Some(clock)
            ==> layer.decides_by().register().tells_time_by() == clock,
        layer.decides_by().register().states().dom() == Set::<Seq<char>>::empty(),
        layer.decides_by().breaker().state == CircuitState::Closed,
        layer.decides_by().breaker().failures == 0,
        layer.decides_by().breaker().config.failure_threshold == 5,
        layer.decides_by().breaker().config.recovery_timeout@ == 30_000_000_000,
        layer.decides_by().counts().events_allowed == 0,
        layer.decides_by().counts().events_suppressed == 0,
        layer.decides_by().counts().signatures_evicted == 0,
        layer.decides_by().register().kept_in().model().metrics == Some(
            layer.decides_by().monitored_by(),
        ),
        layer.decides_by().register().kept_in().policy() is None ==> begins_fresh(
            layer.decides_by(),
        ),
{
    assert(layer.decides_by().register().states().dom() =~= Set::<Seq<char>>::empty());
}

/// The limits that were chosen are those that are kept: on the number of signatures by all
/// strategies but that by memory alone, on memory by the two that are given one. Without a limit on
/// the number, least recent use is no reason to go.
pub proof fn law_layer_keeps_the_chosen_limits(
    layer: TracingRateLimitLayer<ShardedStorage<EventSignature, EventState>>,
    builder: TracingRateLimitLayerBuilder,
    max: usize,
)
    requires
        is_built_from(layer, builder),
    ensures
        ({
            let policy = layer.decides_by().register().kept_in().policy();
            &&& builder.strategy() is Lru && builder@.max_signatures is None ==> policy is None
            &&& builder.strategy() is Lru && builder@.max_signatures == Some(max)
                ==> policy is Some && policy->0 is Lru && entry_limit(policy->0) == Some(max)
            &&& builder.strategy() is Priority && builder@.max_signatures == Some(max)
                ==> policy is Some && policy->0 is Priority && entry_limit(policy->0) == Some(max)
            &&& builder.strategy() is Priority && builder@.max_signatures is None
                ==> policy is Some && policy->0 is Priority && entry_limit(policy->0) == Some(
                usize::MAX,
            )
            &&& builder.strategy() matches EvictionStrategy::Memory { max_bytes }
                ==> policy is Some && policy->0 is Memory && byte_limit(policy->0) == Some(
                max_bytes,
            )
            &&& builder.strategy() matches EvictionStrategy::PriorityWithMemory {
                priority_fn,
                max_bytes,
            } ==> policy is Some && policy->0 is PriorityWithMemory && byte_limit(policy->0)
                == Some(max_bytes) && (builder@.max_signatures == Some(max) ==> entry_limit(
                policy->0,
            ) == Some(max))
        }),
{
}

/// A layer with a limit on the number of signatures never tracks more, whatever events come, from
/// the moment that it is built.
pub proof fn law_built_layer_tracks_no_more_than_its_limit(
    layer: TracingRateLimitLayer<ShardedStorage<EventSignature, EventState>>,
    builder: TracingRateLimitLayerBuilder,
    limiters: Seq<RateLimiter<ShardedStorage<EventSignature, EventState>>>,
    events: Seq<CheckedEvent>,
    n: int,
    max: usize,
)
    requires
        is_built_from(layer, builder),
        !(builder.strategy() is Memory),
        builder@.max_signatures == Some(max),
        max >= 1,
        is_run(limiters, events),
        limiters[0] == layer.decides_by(),
        0 <= n <= events.len(),
    ensures
        limiters[n].register().states().dom().finite(),
        limiters[n].register().states().dom().len() <= max,
{
    law_layer_keeps_the_chosen_limits(layer, builder, max);
    law_signature_limit_holds(limiters, events, n);
}

/// Deciding about events leaves all settings as they are.
pub proof fn law_settings_stay_as_they_are<S: Storage<EventSignature, EventState>>(
    a: TracingRateLimitLayer<S>,
    b: TracingRateLimitLayer<S>,
)
    requires
        same_settings(a, b),
    ensures
        a.settings().span_names == b.settings().span_names,
        a.settings().choice == b.settings().choice,
        a.settings().exempt == b.settings().exempt,
        a.emission() == b.emission(),
        a.emits() == b.emits(),
        a.formatter() == b.formatter(),
{
}

/// The fields of spans are taken as they are, in their order, and so are lists of names.
pub proof fn law_spans_are_taken_as_they_are(
    scopes: Seq<FieldMap>,
    names: Vec<String>,
    i: int,
)
    ensures
        scopes_view(scopes).len() == scopes.len(),
        0 <= i < scopes.len() ==> scopes_view(scopes)[i] == scopes[i]@,
        opt_names(None) is None,
        opt_names(Some(names)) is Some,
        opt_names(Some(names))->0.len() == names@.len(),
        0 <= i < names@.len() ==> opt_names(Some(names))->0[i] == names@[i]@,
{
}

} // verus!
