//! What the models say of the values that they stand for.
use crate::application::circuit_breaker::CircuitState;
use crate::application::emitter::{emitter_error_text, EmitterConfigError};
use crate::application::limiter::RateLimiter;
use crate::application::ports::{opt_id, EvictionPolicy, Storage, StorageKey};
use crate::application::registry::{EventState, SuppressionRegistry};
use crate::domain::metadata::EventMetadata;
use crate::domain::policy::{
    instants_view, policy_error_text, CountBasedPolicy, ExponentialBackoffPolicy, Policy,
    PolicyError, PolicyModel, RateLimitPolicy, TimeWindowPolicy, TokenBucketPolicy,
};
use crate::domain::signature::EventSignature;
use crate::domain::summary::{opt_metadata, ClaimedSuppressions, SuppressionSummary};
use crate::infrastructure::eviction::strategy::strategy_text;
use crate::infrastructure::eviction::{AnyEviction, EvictionStrategy};
use crate::infrastructure::layer::{build_error_text, BuildError, TracingRateLimitLayer};
use crate::infrastructure::storage::{storage_text, ShardedStorage, StorageModel};
use crate::text::{decimal, hex16};
use crate::time::{Duration, Instant};
use vstd::prelude::*;
use vstd::std_specs::convert::FromSpec;
use vstd::std_specs::ops::{AddSpec, SubSpec};

verus! {

/// A storage in memory can be relied on; it keeps all entries exactly if it has no eviction policy.
pub proof fn law_storage_in_memory_can_be_relied_on<K: StorageKey, V: Clone>(
    s: ShardedStorage<K, V>,
)
    ensures
        s.is_exact(),
        s.keeps_all() <==> s.policy() is None,
        s.contents() == s.model().contents,
        s.evicted() == s.model().evictions,
        s.wf() == s.inv(),
{
}

/// A registry keeps its states in its storage, and is as reliable as that.
pub proof fn law_registry_is_as_reliable_as_its_storage<S: Storage<EventSignature, EventState>>(
    registry: SuppressionRegistry<S>,
)
    ensures
        registry.states() == registry.kept_in().contents(),
        registry.is_exact() == registry.kept_in().is_exact(),
        registry.keeps_all() == registry.kept_in().keeps_all(),
        registry.wf() == registry.kept_in().wf(),
{
}

/// A limiter and a layer are in order exactly if their registry is.
pub proof fn law_layer_is_in_order_with_its_registry<S: Storage<EventSignature, EventState>>(
    limiter: RateLimiter<S>,
    layer: TracingRateLimitLayer<S>,
)
    ensures
        limiter.wf() == limiter.register().wf(),
        layer.wf() == layer.decides_by().register().wf(),
{
}

/// Keys are told apart by their own text: that of a string is the string, that of a signature its
/// sixteen digits.
pub proof fn law_keys_are_their_text(text: String, literal: &'static str, signature: EventSignature)
    ensures
        text.id() == text@,
        literal.id() == literal@,
        signature.id() == hex16(signature@),
        opt_id(Some(text)) == Some(text@),
        opt_id(None::<String>) is None,
{
}

/// What is kept for a signature is its policy, its counter, and what is known of the event.
pub proof fn law_state_model_says_it_all(state: EventState)
    ensures
        state@.policy == state.policy@,
        state@.counter == state.counter@,
        state.metadata matches Some(m) ==> state@.metadata == Some(m@),
        state.metadata is None ==> state@.metadata is None,
{
}

/// What is known of an event is its level, its message, its target and its fields.
pub proof fn law_metadata_model_says_it_all(m: EventMetadata)
    ensures
        m@.level == m.level@,
        m@.message == m.message@,
        m@.target == m.target@,
        m@.fields == m.fields@,
        opt_metadata(Some(m)) == Some(m@),
        opt_metadata(None) is None,
{
}

/// A summary and a claim say what their fields say.
pub proof fn law_summary_model_says_it_all(s: SuppressionSummary, c: ClaimedSuppressions)
    ensures
        s@.signature == s.signature@,
        s@.count == s.count,
        s@.first == s.first_suppressed@,
        s@.last == s.last_suppressed@,
        s@.duration == s.duration@,
        s@.metadata == opt_metadata(s.metadata),
        c@.previous_reported == c.previous_reported_count,
        c@.previous_last_reported == c.previous_last_reported@,
        c@.count == c.count,
        c@.total == c.total_count,
        c@.first == c.first_suppressed@,
        c@.last == c.last_suppressed@,
        c@.duration == c.duration@,
{
}

/// The state of a policy is what its model says, whatever kind it is of.
pub proof fn law_policy_state_is_its_model(
    p: Policy,
    count: CountBasedPolicy,
    window: TimeWindowPolicy,
    backoff: ExponentialBackoffPolicy,
    bucket: TokenBucketPolicy,
)
    ensures
        p.state() == p@,
        count.state() == count@,
        window.state() == window@,
        backoff.state() == backoff@,
        bucket.state() == bucket@,
        (Policy::CountBased(count))@ == PolicyModel::CountBased(count@),
        (Policy::TimeWindow(window))@ == PolicyModel::TimeWindow(window@),
        (Policy::ExponentialBackoff(backoff))@ == PolicyModel::ExponentialBackoff(backoff@),
        (Policy::TokenBucket(bucket))@ == PolicyModel::TokenBucket(bucket@),
{
}

/// Instants are taken as they are, in their order.
pub proof fn law_instants_are_taken_as_they_are(times: Seq<Instant>, i: int)
    ensures
        instants_view(times).len() == times.len(),
        0 <= i < times.len() ==> instants_view(times)[i] == times[i]@,
{
}

/// An eviction policy that goes by a function of the user can be asked if that function accepts
/// every entry, and any other at any time.
pub proof fn law_eviction_policies_can_be_asked<K: StorageKey, V>(
    policy: AnyEviction<K, V>,
    strategy: EvictionStrategy<K, V>,
)
    ensures
        policy is Lru || policy is Memory ==> policy.ready(),
        policy matches AnyEviction::Priority(p) ==> (policy.ready() <==> forall|k: &K, v: &V|
            #[trigger] p.rule().0.accepts(k, v)),
        policy matches AnyEviction::PriorityWithMemory(p) ==> (policy.ready() <==> forall|
            k: &K,
            v: &V,
        |
            #[trigger] p.rule().0.accepts(k, v)),
        strategy is Lru || strategy is Memory ==> strategy.total(),
        strategy matches EvictionStrategy::Priority(f) ==> (strategy.total() <==> forall|
            k: &K,
            v: &V,
        |
            #[trigger] f.0.accepts(k, v)),
{
}

/// The states of a circuit have numbers: one is open, two is half open, and any other is closed.
pub proof fn law_circuit_states_have_numbers(n: u8)
    ensures
        <CircuitState as FromSpec<u8>>::from_spec(n) == CircuitState::Open <==> n == 1,
        <CircuitState as FromSpec<u8>>::from_spec(n) == CircuitState::HalfOpen <==> n == 2,
{
}

/// What is wrong is said in words.
pub proof fn law_errors_are_said_in_words()
    ensures
        policy_error_text(PolicyError::ZeroMaxCount) == "max_count must be greater than 0"@,
        policy_error_text(PolicyError::ZeroMaxEvents) == "max_events must be greater than 0"@,
        policy_error_text(PolicyError::ZeroWindowDuration)
            == "window duration must be greater than 0"@,
        policy_error_text(PolicyError::ZeroCapacity) == "capacity must be greater than 0"@,
        policy_error_text(PolicyError::ZeroRefillRate) == "refill_rate must be greater than 0"@,
        build_error_text(BuildError::ZeroMaxSignatures)
            == "max_signatures must be greater than 0"@,
        build_error_text(BuildError::EmitterConfig(EmitterConfigError::ZeroSummaryInterval))
            == "emitter configuration error: "@ + "summary interval must be greater than 0"@,
        emitter_error_text(EmitterConfigError::ZeroSummaryInterval)
            == "summary interval must be greater than 0"@,
        <BuildError as FromSpec<EmitterConfigError>>::from_spec(
            EmitterConfigError::ZeroSummaryInterval,
        ) == BuildError::EmitterConfig(EmitterConfigError::ZeroSummaryInterval),
{
}

/// A storage says how many entries it has, whether it has a policy, and how much memory it counts.
pub proof fn law_storage_says_what_it_holds<V>(m: StorageModel<V>)
    ensures
        storage_text(m, true) == "ShardedStorage { map: \""@ + decimal(m.contents.dom().len())
            + " entries\", eviction_policy: "@ + "Some(\"<policy>\")"@
            + ", current_memory_bytes: "@ + decimal(m.bytes as nat) + " }"@,
        storage_text(m, false) == "ShardedStorage { map: \""@ + decimal(m.contents.dom().len())
            + " entries\", eviction_policy: "@ + "None"@ + ", current_memory_bytes: "@ + decimal(
            m.bytes as nat,
        ) + " }"@,
{
}

/// An eviction strategy says its name and its limits.
pub proof fn law_strategy_says_its_name<K, V>(strategy: EvictionStrategy<K, V>)
    ensures
        strategy is Lru ==> strategy_text(strategy) == "EvictionStrategy::Lru"@,
        strategy is Priority ==> strategy_text(strategy) == "EvictionStrategy::Priority(<fn>)"@,
        strategy matches EvictionStrategy::Memory { max_bytes } ==> strategy_text(strategy)
            == "EvictionStrategy::Memory { max_bytes: "@ + decimal(max_bytes as nat) + " }"@,
        strategy matches EvictionStrategy::PriorityWithMemory { priority_fn, max_bytes }
            ==> strategy_text(strategy) == "EvictionStrategy::PriorityWithMemory { max_bytes: "@
            + decimal(max_bytes as nat) + ", priority_fn: \"<fn>\" }"@,
{
}

/// Spans can be added to an instant as long as the result can be represented, and taken off as long
/// as it does not lie before the base point.
pub proof fn law_instants_can_be_moved_within_their_range(t: Instant, d: Duration)
    ensures
        <Instant as AddSpec<Duration>>::add_req(t, d) <==> t@ + d@
            <= 18_446_744_073_709_551_615_999_999_999,
        <Instant as SubSpec<Duration>>::sub_req(t, d) <==> d@ <= t@,
{
}

} // verus!
