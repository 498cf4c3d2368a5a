//! The layer: from an event and the spans around it to a decision.
//!
//! How events and spans reach the layer is the business of the tracing framework; here they are
//! plain values.
use crate::application::circuit_breaker::{fresh_breaker, CircuitBreaker};
use crate::application::emitter::{emitter_error_text, EmitterConfig, EmitterConfigError};
use crate::application::limiter::{counted, LimitDecision, RateLimiter};
use crate::application::metrics::{zero_metrics, Metrics, MetricsSnapshot};
use crate::application::ports::Storage;
use crate::application::registry::{EventState, SuppressionRegistry};
use crate::domain::fields::{contains_name, names_view, restricted, tidied, tidy_names, FieldMap};
use crate::domain::metadata::{EventMetadata, MetadataModel};
use crate::domain::policy::{BucketModel, Policy, PolicyModel, BILLIONTHS_PER_TOKEN, TOKEN};
use crate::domain::signature::{signature_of, EventSignature};
use crate::domain::summary::SuppressionSummary;
use crate::infrastructure::clock::{AnyClock, SystemClock};
use crate::infrastructure::eviction::strategy::{carries_out, EvictionStrategy};
use crate::infrastructure::storage::ShardedStorage;
use crate::time::{Duration, NANOS_PER_SEC};
use std::sync::Arc;
use vstd::pervasive::unreached;
use vstd::prelude::*;
use vstd::std_specs::convert::FromSpecImpl;

verus! {

/// Why a layer cannot be built.
#[derive(Debug, Clone, Copy, PartialEq, Eq, Structural)]
pub enum BuildError {
    /// The limit on the number of signatures must be greater than zero.
    ZeroMaxSignatures,
    /// The configuration of the emitter is not valid.
    EmitterConfig(EmitterConfigError),
}

/// The text of a [`BuildError`].
pub open spec fn build_error_text(error: BuildError) -> Seq<char> {
    match error {
        BuildError::ZeroMaxSignatures => "max_signatures must be greater than 0"@,
        BuildError::EmitterConfig(e) => "emitter configuration error: "@ + emitter_error_text(e),
    }
}

impl BuildError {
    /// The error as a sentence for people.
    pub fn to_string(&self) -> (text: String)
        ensures
            text@ == build_error_text(*self),
    {
        match self {
            BuildError::ZeroMaxSignatures => "max_signatures must be greater than 0".to_owned(),
            BuildError::EmitterConfig(e) => {
                let mut text: String = "emitter configuration error: ".to_owned();
                text.append(e.to_string().as_str());
                text
            },
        }
    }
}

impl From<EmitterConfigError> for BuildError {
    fn from(e: EmitterConfigError) -> (r: Self) {
        BuildError::EmitterConfig(e)
    }
}

impl FromSpecImpl<EmitterConfigError> for BuildError {
    open spec fn obeys_from_spec() -> bool {
        true
    }

    open spec fn from_spec(e: EmitterConfigError) -> Self {
        BuildError::EmitterConfig(e)
    }
}

// ---------------------------------------------------------------------------------------------
// Which fields count
// ---------------------------------------------------------------------------------------------

/// The fields of some spans, the innermost first.
pub open spec fn scopes_view(scopes: Seq<FieldMap>) -> Seq<Map<Seq<char>, Seq<char>>> {
    scopes.map_values(|s: FieldMap| s@)
}

/// The value of a field in the innermost span that has it.
pub open spec fn innermost(
    scopes: Seq<Map<Seq<char>, Seq<char>>>,
    name: Seq<char>,
) -> Option<Seq<char>>
    decreases scopes.len(),
{
    if scopes.len() == 0 {
        None
    } else if scopes[0].contains_key(name) {
        Some(scopes[0][name])
    } else {
        innermost(scopes.drop_first(), name)
    }
}

/// The fields of these names, each from the innermost span that has it.
pub open spec fn span_context(
    names: Seq<Seq<char>>,
    scopes: Seq<Map<Seq<char>, Seq<char>>>,
) -> Map<Seq<char>, Seq<char>> {
    Map::new(
        |name: Seq<char>| names.contains(name) && innermost(scopes, name) is Some,
        |name: Seq<char>| innermost(scopes, name)->0,
    )
}

/// Which fields of an event go into its signature.
pub struct FieldChoice {
    /// Those that are named.
    pub named: Seq<Seq<char>>,
    /// All but these, where there is such a list. They are left out in any case.
    pub excluded: Option<Seq<Seq<char>>>,
}

/// Whether a field goes into the signature.
pub open spec fn is_chosen(choice: FieldChoice, name: Seq<char>) -> bool {
    match choice.excluded {
        Some(excluded) => !excluded.contains(name),
        None => choice.named.contains(name),
    }
}

/// Those of the fields that go into the signature.
pub open spec fn chosen_fields(
    choice: FieldChoice,
    fields: Map<Seq<char>, Seq<char>>,
) -> Map<Seq<char>, Seq<char>> {
    restricted(fields, |name: Seq<char>| is_chosen(choice, name))
}

/// The name of the field that holds the message of an event.
pub open spec fn message_field() -> Seq<char> {
    "message"@
}

/// What a summary says of an event: its message where it has one, else its name.
pub open spec fn description_of(
    name: Seq<char>,
    fields: Map<Seq<char>, Seq<char>>,
) -> Seq<char> {
    if fields.contains_key(message_field()) {
        fields[message_field()]
    } else {
        name
    }
}

/// Model of the settings of a layer.
pub struct LayerModel {
    /// Names of the fields that are taken from the spans around an event.
    pub span_names: Seq<Seq<char>>,
    /// Which fields of an event count.
    pub choice: FieldChoice,
    /// Targets whose events always pass.
    pub exempt: Seq<Seq<char>>,
}

/// The fields that go into the signature of an event. Where a span and the event have a field of
/// the same name, the value of the event counts.
pub open spec fn signature_fields(
    m: LayerModel,
    fields: Map<Seq<char>, Seq<char>>,
    scopes: Seq<Map<Seq<char>, Seq<char>>>,
) -> Map<Seq<char>, Seq<char>> {
    span_context(m.span_names, scopes).union_prefer_right(chosen_fields(m.choice, fields))
}

/// An event: where it comes from, and its fields.
#[derive(Debug)]
pub struct EventRecord {
    /// Log level, such as `INFO`.
    pub level: String,
    /// Name of the place in the code that the event comes from.
    pub name: String,
    /// Target module path.
    pub target: String,
    /// Fields, the message among them.
    pub fields: FieldMap,
}

/// Collects the fields of these names, each from the innermost span that has it.
pub fn collect_span_context(names: &Vec<String>, scopes: &Vec<FieldMap>) -> (r: FieldMap)
    ensures
        r@ == span_context(names_view(names@), scopes_view(scopes@)),
{
    let mut context: FieldMap = FieldMap::new();
    let mut i: usize = 0;
    let ghost wanted = names_view(names@);
    let ghost all = scopes_view(scopes@);
    while i < names.len()
        invariant
            i <= names@.len(),
            wanted == names_view(names@),
            all == scopes_view(scopes@),
            context@ =~= span_context(wanted.take(i as int), all),
        decreases names@.len() - i,
    {
        let ghost name = wanted[i as int];
        let ghost before = context@;
        let mut j: usize = 0;
        let mut found: bool = false;
        assert(all.skip(0) =~= all);
        while j < scopes.len() && !found
            invariant
                i < names@.len(),
                j <= scopes@.len(),
                wanted == names_view(names@),
                name == wanted[i as int],
                all == scopes_view(scopes@),
                !found ==> context@ == before && innermost(all, name) == innermost(
                    all.skip(j as int),
                    name,
                ),
                found ==> innermost(all, name) is Some && context@ == before.insert(
                    name,
                    innermost(all, name)->0,
                ),
            decreases
                scopes@.len() - j + (if found {
                    0int
                } else {
                    1int
                }),
        {
            assert(all.skip(j as int)[0] == scopes@[j as int]@);
            match scopes[j].get(names[i].as_str()) {
                Some(value) => {
                    context.insert(names[i].clone(), value.clone());
                    found = true;
                },
                None => {
                    assert(all.skip(j as int).drop_first() =~= all.skip(j + 1));
                    j = j + 1;
                },
            }
        }
        proof {
            let part = wanted.take(i + 1);
            assert(part =~= wanted.take(i as int).push(name));
            assert forall|n: Seq<char>| part.contains(n) <==> wanted.take(i as int).contains(n) || n
                == name by {
                if wanted.take(i as int).contains(n) {
                    let k = choose|k: int| 0 <= k < i && wanted.take(i as int)[k] == n;
                    assert(part[k] == n);
                }
                assert(part[i as int] == name);
            }
            if !found {
                assert(all.skip(j as int).len() == 0);
                assert(innermost(all, name) is None);
            }
            assert(context@ =~= span_context(part, all));
        }
        i = i + 1;
    }
    assert(wanted.take(i as int) =~= wanted);
    context
}

/// Emits a summary, in whatever form.
pub trait FormatSummary: Send + Sync {
    /// Emits a summary.
    fn format(&self, summary: &SuppressionSummary);
}

/// Something that emits summaries, in a form that can be shared.
pub struct SummaryFormatter(pub Arc<Box<dyn FormatSummary>>);

impl Clone for SummaryFormatter {
    fn clone(&self) -> (r: Self)
        ensures
            r == *self,
    {
        SummaryFormatter(self.0.clone())
    }
}

/// Model of [`TracingRateLimitLayerBuilder`], but for the clock and the eviction strategy.
pub struct BuilderModel {
    /// The policy that every signature starts with.
    pub policy: PolicyModel,
    /// Time between summaries, in nanoseconds.
    pub interval: nat,
    /// Limit on the number of signatures.
    pub max_signatures: Option<usize>,
    /// Whether summaries are emitted.
    pub emission: bool,
    /// Names of the fields that are taken from the spans around an event.
    pub span_names: Seq<Seq<char>>,
    /// Names of the fields of an event that count.
    pub event_names: Seq<Seq<char>>,
    /// Names of the fields of an event that do not count, where all others do.
    pub excluded: Option<Seq<Seq<char>>>,
    /// Targets whose events always pass.
    pub exempt: Seq<Seq<char>>,
}

/// The texts of a list that may be missing.
pub open spec fn opt_names(names: Option<Vec<String>>) -> Option<Seq<Seq<char>>> {
    match names {
        Some(names) => Some(names_view(names@)),
        None => None,
    }
}

/// The settings that a builder starts with.
pub open spec fn default_settings() -> BuilderModel {
    BuilderModel {
        policy: PolicyModel::TokenBucket(
            BucketModel {
                capacity: (50 * BILLIONTHS_PER_TOKEN) as u128,
                refill_rate: BILLIONTHS_PER_TOKEN,
                level: (50 * TOKEN) as nat,
                last_refill: None,
            },
        ),
        interval: (30 * NANOS_PER_SEC) as nat,
        max_signatures: Some(10_000),
        emission: false,
        span_names: Seq::empty(),
        event_names: Seq::empty(),
        excluded: None,
        exempt: Seq::empty(),
    }
}

/// Collects the settings of a layer.
pub struct TracingRateLimitLayerBuilder {
    policy: Policy,
    summary_interval: Duration,
    clock: Option<AnyClock>,
    max_signatures: Option<usize>,
    enable_active_emission: bool,
    summary_formatter: Option<SummaryFormatter>,
    span_context_fields: Vec<String>,
    event_fields: Vec<String>,
    excluded_fields: Option<Vec<String>>,
    exempt_targets: Vec<String>,
    eviction_strategy: EvictionStrategy<EventSignature, EventState>,
}

impl View for TracingRateLimitLayerBuilder {
    type V = BuilderModel;

    closed spec fn view(&self) -> BuilderModel {
        BuilderModel {
            policy: self.policy@,
            interval: self.summary_interval@,
            max_signatures: self.max_signatures,
            emission: self.enable_active_emission,
            span_names: names_view(self.span_context_fields@),
            event_names: names_view(self.event_fields@),
            excluded: opt_names(self.excluded_fields),
            exempt: names_view(self.exempt_targets@),
        }
    }
}

impl TracingRateLimitLayerBuilder {
    /// How signatures are chosen that have to go.
    pub closed spec fn strategy(&self) -> EvictionStrategy<EventSignature, EventState> {
        self.eviction_strategy
    }

    /// The clock that was chosen, if any.
    pub closed spec fn chosen_clock(&self) -> Option<AnyClock> {
        self.clock
    }

    /// The formatter that was chosen, if any.
    pub closed spec fn formatter(&self) -> Option<SummaryFormatter> {
        self.summary_formatter
    }

    /// Sets the policy that every signature starts with.
    pub fn with_policy(self, policy: Policy) -> (r: Self)
        ensures
            r@ == (BuilderModel { policy: policy@, ..self@ }),
            r.strategy() == self.strategy(),
            r.chosen_clock() == self.chosen_clock(),
            r.formatter() == self.formatter(),
    {
        let mut r = self;
        r.policy = policy;
        r
    }

    /// Sets the time between summaries.
    pub fn with_summary_interval(self, interval: Duration) -> (r: Self)
        ensures
            r@ == (BuilderModel { interval: interval@, ..self@ }),
            r.strategy() == self.strategy(),
            r.chosen_clock() == self.chosen_clock(),
            r.formatter() == self.formatter(),
    {
        let mut r = self;
        r.summary_interval = interval;
        r
    }

    /// Sets the clock.
    pub fn with_clock(self, clock: AnyClock) -> (r: Self)
        ensures
            r@ == self@,
            r.strategy() == self.strategy(),
            r.chosen_clock() == Some(clock),
            r.formatter() == self.formatter(),
    {
        let mut r = self;
        r.clock = Some(clock);
        r
    }

    /// Limits the number of signatures that are tracked.
    pub fn with_max_signatures(self, max_signatures: usize) -> (r: Self)
        ensures
            r@ == (BuilderModel { max_signatures: Some(max_signatures), ..self@ }),
            r.strategy() == self.strategy(),
            r.chosen_clock() == self.chosen_clock(),
            r.formatter() == self.formatter(),
    {
        let mut r = self;
        r.max_signatures = Some(max_signatures);
        r
    }

    /// Takes the limit on the number of signatures away.
    pub fn with_unlimited_signatures(self) -> (r: Self)
        ensures
            r@ == (BuilderModel { max_signatures: None, ..self@ }),
            r.strategy() == self.strategy(),
            r.chosen_clock() == self.chosen_clock(),
            r.formatter() == self.formatter(),
    {
        let mut r = self;
        r.max_signatures = None;
        r
    }

    /// Sets whether summaries are emitted.
    pub fn with_active_emission(self, enabled: bool) -> (r: Self)
        ensures
            r@ == (BuilderModel { emission: enabled, ..self@ }),
            r.strategy() == self.strategy(),
            r.chosen_clock() == self.chosen_clock(),
            r.formatter() == self.formatter(),
    {
        let mut r = self;
        r.enable_active_emission = enabled;
        r
    }

    /// Sets what emits the summaries.
    pub fn with_summary_formatter(self, formatter: SummaryFormatter) -> (r: Self)
        ensures
            r@ == self@,
            r.strategy() == self.strategy(),
            r.chosen_clock() == self.chosen_clock(),
            r.formatter() == Some(formatter),
    {
        let mut r = self;
        r.summary_formatter = Some(formatter);
        r
    }

    /// Sets the fields that are taken from the spans around an event into its signature. Empty
    /// names are dropped, and so are names that occur twice.
    pub fn with_span_context_fields(self, fields: Vec<String>) -> (r: Self)
        ensures
            tidied(names_view(fields@), r@.span_names),
            r@ == (BuilderModel { span_names: r@.span_names, ..self@ }),
            r.strategy() == self.strategy(),
            r.chosen_clock() == self.chosen_clock(),
            r.formatter() == self.formatter(),
    {
        let mut r = self;
        r.span_context_fields = tidy_names(fields);
        r
    }

    /// Sets the fields of an event that go into its signature. Empty names are dropped, and so
    /// are names that occur twice.
    pub fn with_event_fields(self, fields: Vec<String>) -> (r: Self)
        ensures
            tidied(names_view(fields@), r@.event_names),
            r@ == (BuilderModel { event_names: r@.event_names, ..self@ }),
            r.strategy() == self.strategy(),
            r.chosen_clock() == self.chosen_clock(),
            r.formatter() == self.formatter(),
    {
        let mut r = self;
        r.event_fields = tidy_names(fields);
        r
    }

    /// Lets all fields of an event but these go into its signature. Empty names are dropped, and
    /// so are names that occur twice.
    pub fn with_excluded_fields(self, fields: Vec<String>) -> (r: Self)
        ensures
            r@.excluded matches Some(excluded) && tidied(names_view(fields@), excluded),
            r@ == (BuilderModel { excluded: r@.excluded, ..self@ }),
            r.strategy() == self.strategy(),
            r.chosen_clock() == self.chosen_clock(),
            r.formatter() == self.formatter(),
    {
        let mut r = self;
        r.excluded_fields = Some(tidy_names(fields));
        r
    }

    /// Sets the targets whose events always pass. Empty names are dropped, and so are names that
    /// occur twice.
    pub fn with_exempt_targets(self, targets: Vec<String>) -> (r: Self)
        ensures
            tidied(names_view(targets@), r@.exempt),
            r@ == (BuilderModel { exempt: r@.exempt, ..self@ }),
            r.strategy() == self.strategy(),
            r.chosen_clock() == self.chosen_clock(),
            r.formatter() == self.formatter(),
    {
        let mut r = self;
        r.exempt_targets = tidy_names(targets);
        r
    }

    /// Sets how signatures are chosen that have to go.
    pub fn with_eviction_strategy(
        self,
        strategy: EvictionStrategy<EventSignature, EventState>,
    ) -> (r: Self)
        ensures
            r@ == self@,
            r.strategy() == strategy,
            r.chosen_clock() == self.chosen_clock(),
            r.formatter() == self.formatter(),
    {
        let mut r = self;
        r.eviction_strategy = strategy;
        r
    }

    /// Whether summaries are to be emitted.
    pub fn active_emission(&self) -> (r: bool)
        ensures
            r == self@.emission,
    {
        self.enable_active_emission
    }

    /// Builds the layer. The limit on the number of signatures is checked first, then the time
    /// between summaries; neither may be zero.
    pub fn build(self) -> (r: Result<
        TracingRateLimitLayer<ShardedStorage<EventSignature, EventState>>,
        BuildError,
    >)
        requires
            self.strategy().total(),
        ensures
            self@.max_signatures == Some(0usize) ==> r == Err::<
                TracingRateLimitLayer<ShardedStorage<EventSignature, EventState>>,
                BuildError,
            >(BuildError::ZeroMaxSignatures),
            self@.max_signatures != Some(0usize) && self@.interval == 0 ==> r == Err::<
                TracingRateLimitLayer<ShardedStorage<EventSignature, EventState>>,
                BuildError,
            >(BuildError::EmitterConfig(EmitterConfigError::ZeroSummaryInterval)),
            self@.max_signatures != Some(0usize) && self@.interval != 0 ==> r is Ok
                && is_built_from(r->Ok_0, self),
    {
        match self.max_signatures {
            Some(max) => {
                if max == 0 {
                    return Err(BuildError::ZeroMaxSignatures);
                }
            },
            None => {},
        }
        let metrics: Metrics = Metrics::new();
        let circuit_breaker: CircuitBreaker = CircuitBreaker::new();
        let clock: AnyClock = match self.clock {
            Some(clock) => clock,
            None => AnyClock::System(SystemClock::new()),
        };
        let unlimited: ShardedStorage<EventSignature, EventState> =
            ShardedStorage::new().with_metrics(metrics.clone());
        let storage: ShardedStorage<EventSignature, EventState> =
            match self.eviction_strategy.into_policy(self.max_signatures) {
            Some(policy) => unlimited.with_eviction_policy(policy),
            None => unlimited,
        };
        let registry: SuppressionRegistry<ShardedStorage<EventSignature, EventState>> =
            SuppressionRegistry::new(storage, clock, self.policy);
        let limiter: RateLimiter<ShardedStorage<EventSignature, EventState>> = RateLimiter::new(
            registry,
            metrics,
            circuit_breaker,
        );
        let emitter_config: EmitterConfig = match EmitterConfig::new(self.summary_interval) {
            Ok(config) => config,
            Err(e) => {
                return Err(BuildError::from(e));
            },
        };
        Ok(
            TracingRateLimitLayer {
                limiter,
                span_context_fields: self.span_context_fields,
                event_fields: self.event_fields,
                excluded_fields: self.excluded_fields,
                exempt_targets: self.exempt_targets,
                emitter_config,
                active_emission: self.enable_active_emission,
                summary_formatter: self.summary_formatter,
            },
        )
    }
}

/// Whether a layer is what a builder with these settings gives: with nothing tracked or counted,
/// a storage whose evictions are counted with the rest, a closed circuit, and all settings as they
/// were chosen.
pub open spec fn is_built_from(
    layer: TracingRateLimitLayer<ShardedStorage<EventSignature, EventState>>,
    builder: TracingRateLimitLayerBuilder,
) -> bool {
    let registry = layer.decides_by().register();
    let m = builder@;
    &&& layer.wf()
    &&& layer.settings() == (LayerModel {
        span_names: m.span_names,
        choice: FieldChoice { named: m.event_names, excluded: m.excluded },
        exempt: m.exempt,
    })
    &&& layer.emission().interval@ == m.interval
    &&& layer.emission().min_count == 1
    &&& layer.emits() == m.emission
    &&& layer.formatter() == builder.formatter()
    &&& layer.decides_by().counts() == zero_metrics()
    &&& layer.decides_by().breaker() == fresh_breaker(
        layer.decides_by().breaker().config,
        layer.decides_by().breaker().epoch,
    )
    &&& layer.decides_by().breaker().config.failure_threshold == 5
    &&& layer.decides_by().breaker().config.recovery_timeout@ == 30 * NANOS_PER_SEC
    &&& registry.states() == Map::<Seq<char>, EventState>::empty()
    &&& registry.initial_policy() == m.policy
    &&& builder.chosen_clock() matches Some(clock) ==> registry.tells_time_by() == clock
    &&& builder.chosen_clock() is None ==> registry.tells_time_by() is System
    &&& carries_out(registry.kept_in().policy(), builder.strategy(), m.max_signatures)
    &&& registry.kept_in().model().metrics == Some(layer.decides_by().monitored_by())
    &&& registry.kept_in().evicted() == 0
    &&& registry.kept_in().model().bytes == 0
}

/// Decides about events on the basis of their signatures.
pub struct TracingRateLimitLayer<S: Storage<EventSignature, EventState>> {
    limiter: RateLimiter<S>,
    span_context_fields: Vec<String>,
    event_fields: Vec<String>,
    excluded_fields: Option<Vec<String>>,
    exempt_targets: Vec<String>,
    emitter_config: EmitterConfig,
    active_emission: bool,
    summary_formatter: Option<SummaryFormatter>,
}

impl<S: Storage<EventSignature, EventState>> TracingRateLimitLayer<S> {
    /// Whether the limiter is in order.
    pub open spec fn wf(&self) -> bool {
        self.decides_by().wf()
    }

    /// The limiter.
    pub closed spec fn decides_by(&self) -> RateLimiter<S> {
        self.limiter
    }

    /// The settings on which the signature of an event depends.
    pub closed spec fn settings(&self) -> LayerModel {
        LayerModel {
            span_names: names_view(self.span_context_fields@),
            choice: FieldChoice {
                named: names_view(self.event_fields@),
                excluded: opt_names(self.excluded_fields),
            },
            exempt: names_view(self.exempt_targets@),
        }
    }

    /// How often summaries are emitted.
    pub closed spec fn emission(&self) -> EmitterConfig {
        self.emitter_config
    }

    /// Whether summaries are emitted.
    pub closed spec fn emits(&self) -> bool {
        self.active_emission
    }

    /// What emits the summaries, if it was chosen.
    pub closed spec fn formatter(&self) -> Option<SummaryFormatter> {
        self.summary_formatter
    }

    /// A layer around a limiter: no fields count, no target is exempt, and no summaries are
    /// emitted.
    pub fn with_limiter(limiter: RateLimiter<S>) -> (r: Self)
        ensures
            r.decides_by() == limiter,
            r.settings() == (LayerModel {
                span_names: Seq::empty(),
                choice: FieldChoice { named: Seq::empty(), excluded: None },
                exempt: Seq::empty(),
            }),
            r.emission().interval@ == 30 * NANOS_PER_SEC,
            r.emission().min_count == 1,
            !r.emits(),
            r.formatter() is None,
    {
        let r = TracingRateLimitLayer {
            limiter,
            span_context_fields: Vec::new(),
            event_fields: Vec::new(),
            excluded_fields: None,
            exempt_targets: Vec::new(),
            emitter_config: EmitterConfig::default(),
            active_emission: false,
            summary_formatter: None,
        };
        assert(r.settings().span_names =~= Seq::empty());
        assert(r.settings().choice.named =~= Seq::empty());
        assert(r.settings().exempt =~= Seq::empty());
        r
    }

    /// A layer that keeps its states in `storage`, with nothing counted and a closed circuit.
    pub fn with_storage(storage: S, policy: Policy, clock: AnyClock) -> (r: Self)
        ensures
            r.decides_by().register().kept_in() == storage,
            r.decides_by().register().initial_policy() == policy@,
            r.decides_by().register().tells_time_by() == clock,
            r.decides_by().counts() == zero_metrics(),
            r.decides_by().breaker() == fresh_breaker(
                r.decides_by().breaker().config,
                r.decides_by().breaker().epoch,
            ),
            r.decides_by().breaker().config.failure_threshold == 5,
            r.decides_by().breaker().config.recovery_timeout@ == 30 * NANOS_PER_SEC,
            r.settings() == (LayerModel {
                span_names: Seq::empty(),
                choice: FieldChoice { named: Seq::empty(), excluded: None },
                exempt: Seq::empty(),
            }),
            r.emission().interval@ == 30 * NANOS_PER_SEC,
            r.emission().min_count == 1,
            !r.emits(),
            r.formatter() is None,
    {
        let registry: SuppressionRegistry<S> = SuppressionRegistry::new(storage, clock, policy);
        Self::with_limiter(RateLimiter::new(registry, Metrics::new(), CircuitBreaker::new()))
    }

    /// Names of the fields that are taken from the spans around an event.
    pub fn span_context_fields(&self) -> (r: &Vec<String>)
        ensures
            names_view(r@) == self.settings().span_names,
    {
        &self.span_context_fields
    }

    /// Names of the fields of an event that count.
    pub fn event_fields(&self) -> (r: &Vec<String>)
        ensures
            names_view(r@) == self.settings().choice.named,
    {
        &self.event_fields
    }

    /// The fields that the signature takes from the spans around an event, which come innermost
    /// first.
    pub fn extract_span_context(&self, scopes: &Vec<FieldMap>) -> (r: FieldMap)
        ensures
            r@ == span_context(self.settings().span_names, scopes_view(scopes@)),
    {
        collect_span_context(&self.span_context_fields, scopes)
    }

    /// Whether a field of an event goes into its signature.
    fn chooses(&self, name: &str) -> (r: bool)
        ensures
            r == is_chosen(self.settings().choice, name@),
    {
        match &self.excluded_fields {
            Some(excluded) => !contains_name(excluded, name),
            None => contains_name(&self.event_fields, name),
        }
    }

    /// The fields of an event that go into its signature.
    pub fn extract_event_fields(&self, fields: &FieldMap) -> (r: FieldMap)
        ensures
            r@ == chosen_fields(self.settings().choice, fields@),
    {
        let keep = |name: &str| -> (r: bool)
            ensures
                r == is_chosen(self.settings().choice, name@),
            { self.chooses(name) };
        fields.filtered(keep, Ghost(|name: Seq<char>| is_chosen(self.settings().choice, name)))
    }

    /// The fields that go into the signature of an event. The values of the event go before
    /// those of the spans around it.
    pub fn combined_fields(&self, fields: &FieldMap, scopes: &Vec<FieldMap>) -> (r: FieldMap)
        ensures
            r@ == signature_fields(self.settings(), fields@, scopes_view(scopes@)),
    {
        let mut combined: FieldMap = self.extract_span_context(scopes);
        let event_fields: FieldMap = self.extract_event_fields(fields);
        combined.extend(&event_fields);
        combined
    }

    /// The signature of an event of this level, name and target, with these fields.
    pub fn compute_signature(
        &self,
        level: &str,
        name: &str,
        target: &str,
        combined_fields: &FieldMap,
    ) -> (r: EventSignature)
        ensures
            r@ == signature_of(level@, name@, combined_fields@, Some(target@)),
    {
        EventSignature::new(level, name, combined_fields, Some(target))
    }

    /// Whether the events of a target always pass.
    pub fn is_exempt(&self, target: &str) -> (r: bool)
        ensures
            r == self.settings().exempt.contains(target@),
    {
        contains_name(&self.exempt_targets, target)
    }

    /// What is known of an event: its signature, and what a summary will say of it.
    pub fn describe(&self, event: &EventRecord, scopes: &Vec<FieldMap>) -> (r: (
        EventSignature,
        EventMetadata,
    ))
        ensures
            r.0@ == event_signature(self.settings(), *event, scopes_view(scopes@)),
            r.1@ == event_metadata(self.settings(), *event, scopes_view(scopes@)),
    {
        let combined: FieldMap = self.combined_fields(&event.fields, scopes);
        let signature: EventSignature = self.compute_signature(
            event.level.as_str(),
            event.name.as_str(),
            event.target.as_str(),
            &combined,
        );
        let message: String = match event.fields.get("message") {
            Some(message) => message.clone(),
            None => event.name.clone(),
        };
        let metadata: EventMetadata = EventMetadata::new(
            event.level.clone(),
            message,
            event.target.clone(),
            combined,
        );
        (signature, metadata)
    }

    /// Decides whether an event passes, given the spans around it, innermost first. Events of an
    /// exempt target always pass.
    pub fn event_enabled(&mut self, event: &EventRecord, scopes: &Vec<FieldMap>) -> (r: bool)
        requires
            old(self).wf(),
        ensures
            final(self).wf(),
            same_settings(*old(self), *final(self)),
            old(self).settings().exempt.contains(event.target@) ==> {
                &&& r
                &&& final(self).decides_by().register() == old(self).decides_by().register()
                &&& final(self).decides_by().monitored_by() == old(
                    self
                ).decides_by().monitored_by()
                &&& old(self).decides_by().monitored_by().allowed_noted()
                &&& final(self).decides_by().breaker() == old(self).decides_by().breaker()
                &&& final(self).decides_by().counts() == counted(
                    old(self).decides_by().counts(),
                    LimitDecision::Allow,
                )
            },
            !old(self).settings().exempt.contains(event.target@) ==> exists|
                signature: EventSignature,
                asked_at: nat,
                now: nat,
                failed_at: nat,
                decision: LimitDecision,
            |
                {
                    &&& signature@ == event_signature(
                        old(self).settings(),
                        *event,
                        scopes_view(scopes@),
                    )
                    &&& #[trigger] old(self).decides_by().checks(
                        signature,
                        Some(event_metadata(old(self).settings(), *event, scopes_view(scopes@))),
                        asked_at,
                        now,
                        failed_at,
                        decision,
                        &final(self).decides_by(),
                    )
                    &&& old(self).decides_by().at_clock_time(asked_at, now)
                    &&& old(self).decides_by().at_breaker_times(asked_at, failed_at)
                    &&& r == (decision == LimitDecision::Allow)
                },
    {
        if self.is_exempt(event.target.as_str()) {
            self.limiter.pass();
            return true;
        }
        let (signature, metadata) = self.describe(event, scopes);
        self.should_allow_with_metadata(signature, metadata)
    }

    /// Whether an event of this signature passes.
    pub fn should_allow(&mut self, signature: EventSignature) -> (r: bool)
        requires
            old(self).wf(),
        ensures
            final(self).wf(),
            same_settings(*old(self), *final(self)),
            exists|asked_at: nat, now: nat, failed_at: nat, decision: LimitDecision|
                {
                    &&& #[trigger] old(self).decides_by().checks(
                        signature,
                        None,
                        asked_at,
                        now,
                        failed_at,
                        decision,
                        &final(self).decides_by(),
                    )
                    &&& old(self).decides_by().at_clock_time(asked_at, now)
                    &&& old(self).decides_by().at_breaker_times(asked_at, failed_at)
                    &&& r == (decision == LimitDecision::Allow)
                },
    {
        let decision: LimitDecision = self.limiter.check_event(signature);
        proof {
            let (asked_at, now, failed_at) = choose|asked_at: nat, now: nat, failed_at: nat|
                #[trigger] old(self).limiter.checks(
                    signature,
                    None,
                    asked_at,
                    now,
                    failed_at,
                    decision,
                    &self.limiter,
                ) && old(self).limiter.at_clock_time(asked_at, now)
                    && old(self).limiter.at_breaker_times(asked_at, failed_at);
            assert(old(self).decides_by().checks(
                signature,
                None,
                asked_at,
                now,
                failed_at,
                decision,
                &self.decides_by(),
            ));
        }
        decision == LimitDecision::Allow
    }

    /// Whether an event of this signature passes; what is known of it is noted.
    pub fn should_allow_with_metadata(
        &mut self,
        signature: EventSignature,
        metadata: EventMetadata,
    ) -> (r: bool)
        requires
            old(self).wf(),
        ensures
            final(self).wf(),
            same_settings(*old(self), *final(self)),
            exists|asked_at: nat, now: nat, failed_at: nat, decision: LimitDecision|
                {
                    &&& #[trigger] old(self).decides_by().checks(
                        signature,
                        Some(metadata@),
                        asked_at,
                        now,
                        failed_at,
                        decision,
                        &final(self).decides_by(),
                    )
                    &&& old(self).decides_by().at_clock_time(asked_at, now)
                    &&& old(self).decides_by().at_breaker_times(asked_at, failed_at)
                    &&& r == (decision == LimitDecision::Allow)
                },
    {
        let decision: LimitDecision = self.limiter.check_event_with_metadata(signature, metadata);
        proof {
            let (asked_at, now, failed_at) = choose|asked_at: nat, now: nat, failed_at: nat|
                #[trigger] old(self).limiter.checks(
                    signature,
                    Some(metadata@),
                    asked_at,
                    now,
                    failed_at,
                    decision,
                    &self.limiter,
                ) && old(self).limiter.at_clock_time(asked_at, now)
                    && old(self).limiter.at_breaker_times(asked_at, failed_at);
            assert(old(self).decides_by().checks(
                signature,
                Some(metadata@),
                asked_at,
                now,
                failed_at,
                decision,
                &self.decides_by(),
            ));
        }
        decision == LimitDecision::Allow
    }

    /// The limiter.
    pub fn limiter(&self) -> (r: &RateLimiter<S>)
        ensures
            *r == self.decides_by(),
    {
        &self.limiter
    }

    /// The limiter, for changes.
    pub fn limiter_mut(&mut self) -> (r: &mut RateLimiter<S>)
        ensures
            *r == old(self).decides_by(),
            *final(r) == final(self).decides_by(),
            same_settings(*old(self), *final(self)),
    {
        &mut self.limiter
    }

    /// The counts for monitoring: events that passed, events that were suppressed, signatures that
    /// had to go. A clone of them stays up to date.
    pub fn metrics(&self) -> (r: &Metrics)
        ensures
            *r == self.decides_by().monitored_by(),
    {
        self.limiter.metrics()
    }

    /// What this layer has counted itself since it was made.
    pub fn tally(&self) -> (r: MetricsSnapshot)
        ensures
            r == self.decides_by().counts(),
    {
        self.limiter.tally()
    }

    /// How many signatures are tracked.
    pub fn signature_count(&self) -> (n: usize)
        requires
            self.wf(),
        ensures
            self.decides_by().register().is_exact() ==> n
                == self.decides_by().register().states().dom().len(),
    {
        self.limiter.registry().len()
    }

    /// The circuit breaker.
    pub fn circuit_breaker(&self) -> (r: &CircuitBreaker)
        ensures
            r@ == self.decides_by().breaker(),
    {
        self.limiter.circuit_breaker()
    }

    /// How often summaries are emitted.
    pub fn emitter_config(&self) -> (r: &EmitterConfig)
        ensures
            *r == self.emission(),
    {
        &self.emitter_config
    }

    /// Whether summaries are emitted.
    pub fn active_emission(&self) -> (r: bool)
        ensures
            r == self.emits(),
    {
        self.active_emission
    }

    /// What emits the summaries, if it was chosen.
    pub fn summary_formatter(&self) -> (r: Option<SummaryFormatter>)
        ensures
            r == self.formatter(),
    {
        match &self.summary_formatter {
            Some(formatter) => Some(formatter.clone()),
            None => None,
        }
    }
}

/// The signature of an event.
pub open spec fn event_signature(
    m: LayerModel,
    event: EventRecord,
    scopes: Seq<Map<Seq<char>, Seq<char>>>,
) -> u64 {
    signature_of(
        event.level@,
        event.name@,
        signature_fields(m, event.fields@, scopes),
        Some(event.target@),
    )
}

/// What a summary says of an event.
pub open spec fn event_metadata(
    m: LayerModel,
    event: EventRecord,
    scopes: Seq<Map<Seq<char>, Seq<char>>>,
) -> MetadataModel {
    MetadataModel {
        level: event.level@,
        message: description_of(event.name@, event.fields@),
        target: event.target@,
        fields: signature_fields(m, event.fields@, scopes),
    }
}

/// Whether two layers differ in nothing but their limiters.
pub open spec fn same_settings<S: Storage<EventSignature, EventState>>(
    a: TracingRateLimitLayer<S>,
    b: TracingRateLimitLayer<S>,
) -> bool {
    &&& a.settings() == b.settings()
    &&& a.emission() == b.emission()
    &&& a.emits() == b.emits()
    &&& a.formatter() == b.formatter()
}

impl TracingRateLimitLayer<ShardedStorage<EventSignature, EventState>> {
    /// A builder with the default settings: a token bucket of 50 tokens that gains one per
    /// second, 10,000 signatures, summaries every 30 seconds but not emitted.
    pub fn builder() -> (r: TracingRateLimitLayerBuilder)
        ensures
            r@ == default_settings(),
            r.strategy() is Lru,
            r.chosen_clock() is None,
            r.formatter() is None,
    {
        let policy: Policy = match Policy::token_bucket(50, 1) {
            Ok(policy) => policy,
            Err(_) => unreached(),
        };
        let r = TracingRateLimitLayerBuilder {
            policy,
            summary_interval: Duration::from_secs(30),
            clock: None,
            max_signatures: Some(10_000),
            enable_active_emission: false,
            summary_formatter: None,
            span_context_fields: Vec::new(),
            event_fields: Vec::new(),
            excluded_fields: None,
            exempt_targets: Vec::new(),
            eviction_strategy: EvictionStrategy::Lru,
        };
        assert(r@.span_names =~= Seq::empty());
        assert(r@.event_names =~= Seq::empty());
        assert(r@.exempt =~= Seq::empty());
        r
    }

    /// A layer with the default settings.
    pub fn new() -> (r: Self)
        ensures
            exists|builder: TracingRateLimitLayerBuilder|
                {
                    &&& builder@ == default_settings()
                    &&& builder.strategy() is Lru
                    &&& builder.chosen_clock() is None
                    &&& builder.formatter() is None
                    &&& #[trigger] is_built_from(r, builder)
                },
    {
        let builder: TracingRateLimitLayerBuilder = Self::builder();
        match builder.build() {
            Ok(layer) => layer,
            Err(_) => unreached(),
        }
    }
}

impl Default for TracingRateLimitLayer<ShardedStorage<EventSignature, EventState>> {
    fn default() -> (r: Self)
        ensures
            exists|builder: TracingRateLimitLayerBuilder|
                {
                    &&& builder@ == default_settings()
                    &&& builder.strategy() is Lru
                    &&& builder.chosen_clock() is None
                    &&& builder.formatter() is None
                    &&& #[trigger] is_built_from(r, builder)
                },
    {
        TracingRateLimitLayer::<ShardedStorage<EventSignature, EventState>>::new()
    }
}

// ---------------------------------------------------------------------------------------------
// Laws
// ---------------------------------------------------------------------------------------------

/// A field of a span hides fields of the same name in the spans around it.
pub proof fn law_inner_span_shadows_outer(
    names: Seq<Seq<char>>,
    inner: Map<Seq<char>, Seq<char>>,
    outer: Seq<Map<Seq<char>, Seq<char>>>,
    name: Seq<char>,
)
    requires
        names.contains(name),
    ensures
        inner.contains_key(name) ==> span_context(names, seq![inner] + outer).contains_key(name)
            && span_context(names, seq![inner] + outer)[name] == inner[name],
        !inner.contains_key(name) ==> (span_context(names, seq![inner] + outer).contains_key(name)
            <==> span_context(names, outer).contains_key(name)) && (span_context(
            names,
            outer,
        ).contains_key(name) ==> span_context(names, seq![inner] + outer)[name] == span_context(
            names,
            outer,
        )[name]),
{
    let scopes = seq![inner] + outer;
    assert(scopes[0] == inner);
    assert(scopes.drop_first() =~= outer);
}

/// Where a span and the event have a field of the same name, the value of the event counts.
pub proof fn law_event_fields_override_span_context(
    m: LayerModel,
    fields: Map<Seq<char>, Seq<char>>,
    scopes: Seq<Map<Seq<char>, Seq<char>>>,
    name: Seq<char>,
)
    requires
        fields.contains_key(name),
        is_chosen(m.choice, name),
    ensures
        signature_fields(m, fields, scopes).contains_key(name),
        signature_fields(m, fields, scopes)[name] == fields[name],
{
}

/// Fields that are not chosen make no difference: events that agree in all else have the same
/// signature.
pub proof fn law_other_fields_do_not_matter(
    m: LayerModel,
    a: EventRecord,
    b: EventRecord,
    scopes: Seq<Map<Seq<char>, Seq<char>>>,
)
    requires
        a.level@ == b.level@,
        a.name@ == b.name@,
        a.target@ == b.target@,
        forall|name: Seq<char>| #[trigger]
            is_chosen(m.choice, name) ==> (a.fields@.contains_key(name)
                <==> b.fields@.contains_key(name)) && (a.fields@.contains_key(name)
                ==> a.fields@[name] == b.fields@[name]),
    ensures
        event_signature(m, a, scopes) == event_signature(m, b, scopes),
{
    let x = chosen_fields(m.choice, a.fields@);
    let y = chosen_fields(m.choice, b.fields@);
    assert forall|name: Seq<char>| x.contains_key(name) == y.contains_key(name) && (x.contains_key(
        name,
    ) ==> x[name] == y[name]) by {
        if is_chosen(m.choice, name) {
        }
    }
    assert(x =~= y);
}

/// By default neither the fields of an event nor those of its spans count: its signature is
/// that of its level, name and target.
pub proof fn law_fields_do_not_count_by_default(
    m: LayerModel,
    event: EventRecord,
    scopes: Seq<Map<Seq<char>, Seq<char>>>,
)
    requires
        m.span_names == default_settings().span_names,
        m.choice.named == default_settings().event_names,
        m.choice.excluded == default_settings().excluded,
    ensures
        event_signature(m, event, scopes) == signature_of(
            event.level@,
            event.name@,
            Map::empty(),
            Some(event.target@),
        ),
{
    assert(signature_fields(m, event.fields@, scopes) =~= Map::empty());
}

} // verus!
