//! Summaries of what was suppressed, at regular intervals.
//!
//! The task that waits for the next tick or for the signal to stop lives outside; here is what
//! it does each time something happens.
use crate::application::ports::{is_listed, lists, Storage, StorageKey};
use crate::application::registry::{EventState, SuppressionRegistry};
use crate::domain::signature::EventSignature;
use crate::domain::summary::{summary_of_counter, SummaryModel, SuppressionSummary};
use crate::time::{Duration, NANOS_PER_SEC};
use vstd::prelude::*;

verus! {

/// Why an emitter cannot be configured like this.
#[derive(Debug, Clone, Copy, PartialEq, Eq, Structural)]
pub enum EmitterConfigError {
    /// The interval must be longer than zero.
    ZeroSummaryInterval,
}

/// The text of an [`EmitterConfigError`].
pub open spec fn emitter_error_text(error: EmitterConfigError) -> Seq<char> {
    match error {
        EmitterConfigError::ZeroSummaryInterval => "summary interval must be greater than 0"@,
    }
}

impl EmitterConfigError {
    /// The error as a sentence for people.
    pub fn to_string(&self) -> (text: String)
        ensures
            text@ == emitter_error_text(*self),
    {
        match self {
            EmitterConfigError::ZeroSummaryInterval => {
                "summary interval must be greater than 0".to_owned()
            },
        }
    }
}

/// How often summaries are emitted, and from which count on.
#[derive(Debug, Clone, Copy, PartialEq, Eq, Structural)]
pub struct EmitterConfig {
    /// Time between summaries.
    pub interval: Duration,
    /// How many suppressions a summary needs at least.
    pub min_count: usize,
}

impl Default for EmitterConfig {
    /// Every thirty seconds, from the first suppression on.
    fn default() -> (r: Self)
        ensures
            r.interval@ == 30 * NANOS_PER_SEC,
            r.min_count == 1,
    {
        EmitterConfig { interval: Duration::from_secs(30), min_count: 1 }
    }
}

impl EmitterConfig {
    /// Summaries at this interval, which must not be empty, from the first suppression on.
    pub fn new(interval: Duration) -> (r: Result<Self, EmitterConfigError>)
        ensures
            interval@ == 0 ==> r == Err::<Self, EmitterConfigError>(
                EmitterConfigError::ZeroSummaryInterval,
            ),
            interval@ != 0 ==> r == Ok::<Self, EmitterConfigError>(
                EmitterConfig { interval, min_count: 1 },
            ),
    {
        if interval.is_zero() {
            return Err(EmitterConfigError::ZeroSummaryInterval);
        }
        Ok(EmitterConfig { interval, min_count: 1 })
    }

    /// The same with another minimum count.
    pub fn with_min_count(self, min_count: usize) -> (r: Self)
        ensures
            r == (EmitterConfig { interval: self.interval, min_count }),
    {
        EmitterConfig { interval: self.interval, min_count }
    }
}

/// The models of some summaries.
pub open spec fn summaries_view(summaries: Seq<SuppressionSummary>) -> Seq<SummaryModel> {
    summaries.map_values(|s: SuppressionSummary| s@)
}

/// The summary of a signature.
pub open spec fn summary_of(signature: EventSignature, state: EventState) -> SummaryModel {
    summary_of_counter(signature@, state@.counter, state@.metadata)
}

/// The summaries of those of the signatures, with these states, that have been suppressed at least
/// `min_count` times.
pub open spec fn summaries_of(
    signatures: Seq<EventSignature>,
    found: Seq<EventState>,
    min_count: usize,
) -> Seq<SummaryModel>
    decreases signatures.len(),
{
    if signatures.len() == 0 {
        Seq::empty()
    } else {
        let front = summaries_of(signatures.drop_last(), found, min_count);
        let signature = signatures.last();
        let state = found[signatures.len() - 1];
        if state@.counter.suppressed >= min_count {
            front.push(summary_of(signature, state))
        } else {
            front
        }
    }
}

/// Whether these are summaries of some signatures and states that have been suppressed at least
/// `min_count` times.
pub open spec fn summarises_some(summaries: Seq<SummaryModel>, min_count: usize) -> bool {
    exists|signatures: Seq<EventSignature>, found: Seq<EventState>| #[trigger]
        lists(signatures, found) && summaries == summaries_of(signatures, found, min_count)
}

/// Whether these are the summaries of all states that have been suppressed at least `min_count`
/// times, each once, in some order.
pub open spec fn summarises(
    summaries: Seq<SummaryModel>,
    states: Map<Seq<char>, EventState>,
    min_count: usize,
) -> bool {
    exists|signatures: Seq<EventSignature>, found: Seq<EventState>| #[trigger]
        lists(signatures, found) && is_listed(signatures, found, states) && summaries
            == summaries_of(signatures, found, min_count)
}

/// Whether these are the summaries that a registry gives: those of all its states, where its
/// storage can be relied on, and otherwise of whatever the storage came up with.
pub open spec fn is_report<S: Storage<EventSignature, EventState>>(
    registry: SuppressionRegistry<S>,
    min_count: usize,
    summaries: Seq<SummaryModel>,
) -> bool {
    &&& summarises_some(summaries, min_count)
    &&& registry.is_exact() ==> summarises(summaries, registry.states(), min_count)
}

/// Collects the summaries of all signatures that have been suppressed at least `min_count`
/// times.
pub fn collect<S: Storage<EventSignature, EventState>>(
    registry: &SuppressionRegistry<S>,
    min_count: usize,
) -> (summaries: Vec<SuppressionSummary>)
    requires
        registry.wf(),
    ensures
        is_report(*registry, min_count, summaries_view(summaries@)),
{
    let summarise = |signature: &EventSignature, state: &EventState| -> (r: Option<
        SuppressionSummary,
    >)
        ensures
            r is Some <==> state@.counter.suppressed >= min_count,
            r matches Some(summary) ==> summary@ == summary_of(*signature, *state),
        {
            if state.counter.count() >= min_count {
                let metadata = match &state.metadata {
                    Some(m) => Some(m.clone()),
                    None => None,
                };
                Some(
                    SuppressionSummary::from_counter_with_metadata(
                        *signature,
                        &state.counter,
                        metadata,
                    ),
                )
            } else {
                None
            }
        };
    let mut results: Vec<Option<SuppressionSummary>> = registry.for_each(summarise);
    let ghost (signatures, found) = choose|
        signatures: Seq<EventSignature>,
        found: Seq<EventState>,
    |
        {
            &&& #[trigger] lists(signatures, found)
            &&& registry.is_exact() ==> is_listed(signatures, found, registry.states())
            &&& results@.len() == signatures.len()
            &&& forall|i: int|
                0 <= i < signatures.len() ==> summarise.ensures(
                    (&signatures[i], &found[i]),
                    #[trigger] results@[i],
                )
        };
    let ghost all = results@;
    let mut summaries: Vec<SuppressionSummary> = Vec::new();
    let mut i: usize = 0;
    assert(signatures.take(0) =~= Seq::empty());
    assert(summaries_view(summaries@) =~= Seq::empty());
    while i < results.len()
        invariant
            i <= results@.len(),
            results@.len() == all.len(),
            all.len() == signatures.len(),
            forall|j: int| i <= j < all.len() ==> #[trigger] results@[j] == all[j],
            forall|j: int|
                0 <= j < signatures.len() ==> summarise.ensures(
                    (&signatures[j], &found[j]),
                    #[trigger] all[j],
                ),
            forall|signature: &EventSignature, state: &EventState, r: Option<SuppressionSummary>|
                #[trigger] summarise.ensures((signature, state), r) ==> {
                    &&& r is Some <==> state@.counter.suppressed >= min_count
                    &&& r matches Some(summary) ==> summary@ == summary_of(*signature, *state)
                },
            summaries_view(summaries@) == summaries_of(
                signatures.take(i as int),
                found,
                min_count,
            ),
        decreases results@.len() - i,
    {
        let mut entry: Option<SuppressionSummary> = None;
        std::mem::swap(&mut results[i], &mut entry);
        let ghost before = summaries@;
        assert(entry == all[i as int]);
        assert(signatures.take(i + 1).drop_last() =~= signatures.take(i as int));
        match entry {
            Some(summary) => {
                summaries.push(summary);
                assert(summaries_view(summaries@) =~= summaries_view(before).push(summary@));
            },
            None => {},
        }
        i = i + 1;
    }
    assert(signatures.take(i as int) =~= signatures);
    summaries
}

/// What the task of an emitter waits for.
#[derive(Debug, Clone, Copy, PartialEq, Eq, Structural)]
pub enum EmitterEvent {
    /// The interval is over.
    Tick,
    /// The signal has changed: whether to stop.
    Signal(bool),
    /// Summaries have been handed out: whether that went well.
    Emitted(bool),
}

/// What the task of an emitter does next.
#[derive(Debug)]
pub struct EmitterStep {
    /// Summaries to emit. There is at least one of them.
    pub emit: Option<Vec<SuppressionSummary>>,
    /// Whether the task ends afterwards.
    pub stop: bool,
}

/// Whether summaries are collected when this happens: at each tick, and when the task stops if
/// it is to emit once more then.
pub open spec fn collects(event: EmitterEvent, emit_final: bool) -> bool {
    match event {
        EmitterEvent::Tick => true,
        EmitterEvent::Signal(stop) => stop && emit_final,
        EmitterEvent::Emitted(_) => false,
    }
}

/// Whether there is something to report: a signature that has been suppressed at least `min_count`
/// times.
pub open spec fn reportable(states: Map<Seq<char>, EventState>, min_count: usize) -> bool {
    exists|id: Seq<char>| #[trigger]
        states.contains_key(id) && states[id]@.counter.suppressed >= min_count
}

/// What the task of an emitter does when something happens. Nothing is emitted where there is
/// nothing to report.
pub fn emitter_step<S: Storage<EventSignature, EventState>>(
    registry: &SuppressionRegistry<S>,
    config: &EmitterConfig,
    event: EmitterEvent,
    emit_final: bool,
) -> (step: EmitterStep)
    requires
        registry.wf(),
    ensures
        step.stop == (event == EmitterEvent::Signal(true)),
        step.emit is Some ==> collects(event, emit_final),
        registry.is_exact() ==> (step.emit is Some <==> collects(event, emit_final) && reportable(
            registry.states(),
            config.min_count,
        )),
        step.emit matches Some(summaries) ==> summaries@.len() > 0 && is_report(
            *registry,
            config.min_count,
            summaries_view(summaries@),
        ),
{
    let (wanted, stop): (bool, bool) = match event {
        EmitterEvent::Tick => (true, false),
        EmitterEvent::Signal(stop) => (stop && emit_final, stop),
        EmitterEvent::Emitted(_) => (false, false),
    };
    if !wanted {
        return EmitterStep { emit: None, stop };
    }
    let summaries: Vec<SuppressionSummary> = collect(registry, config.min_count);
    proof {
        if registry.is_exact() {
            law_reports_are_collected(
                summaries_view(summaries@),
                registry.states(),
                config.min_count,
            );
        }
    }
    if summaries.len() == 0 {
        return EmitterStep { emit: None, stop };
    }
    EmitterStep { emit: Some(summaries), stop }
}

/// Model of [`EmitterTask`].
pub struct TaskModel {
    /// From which count on summaries are emitted, and how often.
    pub config: EmitterConfig,
    /// Whether to emit once more at the end.
    pub emit_final: bool,
    /// Whether the task goes on.
    pub running: bool,
}

/// Whether the task emits, when something happens while the registry holds these states.
pub open spec fn task_emits(
    m: TaskModel,
    states: Map<Seq<char>, EventState>,
    event: EmitterEvent,
) -> bool {
    m.running && collects(event, m.emit_final) && reportable(states, m.config.min_count)
}

/// The task once something has happened: only the signal to stop ends it.
pub open spec fn task_after(m: TaskModel, event: EmitterEvent) -> TaskModel {
    TaskModel { running: m.running && event != EmitterEvent::Signal(true), ..m }
}

/// The task of an emitter: what it does each time something happens, until it is stopped.
#[derive(Debug)]
pub struct EmitterTask {
    config: EmitterConfig,
    emit_final: bool,
    running: bool,
}

impl View for EmitterTask {
    type V = TaskModel;

    closed spec fn view(&self) -> TaskModel {
        TaskModel { config: self.config, emit_final: self.emit_final, running: self.running }
    }
}

impl EmitterTask {
    /// A task that has just started.
    pub fn new(config: EmitterConfig, emit_final: bool) -> (r: Self)
        ensures
            r@ == (TaskModel { config, emit_final, running: true }),
    {
        EmitterTask { config, emit_final, running: true }
    }

    /// Says what to emit when something happens, and whether the task goes on. There is nothing
    /// to emit once the task has been stopped. An emission that went wrong changes nothing.
    pub fn handle<S: Storage<EventSignature, EventState>>(
        &mut self,
        registry: &SuppressionRegistry<S>,
        event: EmitterEvent,
    ) -> (emit: Option<Vec<SuppressionSummary>>)
        requires
            registry.wf(),
        ensures
            final(self)@ == task_after(old(self)@, event),
            emit is Some ==> old(self)@.running && collects(event, old(self)@.emit_final),
            registry.is_exact() ==> (emit is Some <==> task_emits(
                old(self)@,
                registry.states(),
                event,
            )),
            emit matches Some(summaries) ==> summaries@.len() > 0 && is_report(
                *registry,
                old(self)@.config.min_count,
                summaries_view(summaries@),
            ),
    {
        if !self.running {
            return None;
        }
        let step: EmitterStep = emitter_step(registry, &self.config, event, self.emit_final);
        if step.stop {
            self.running = false;
        }
        step.emit
    }

    /// Whether the task goes on.
    pub fn is_running(&self) -> (r: bool)
        ensures
            r == self@.running,
    {
        self.running
    }
}

/// Emits summaries of what was suppressed.
pub struct SummaryEmitter<S: Storage<EventSignature, EventState>> {
    registry: SuppressionRegistry<S>,
    config: EmitterConfig,
}

impl<S: Storage<EventSignature, EventState>> SummaryEmitter<S> {
    /// The registry.
    pub closed spec fn register(&self) -> SuppressionRegistry<S> {
        self.registry
    }

    /// The configuration.
    pub closed spec fn settings(&self) -> EmitterConfig {
        self.config
    }

    /// Puts the parts together.
    pub fn new(registry: SuppressionRegistry<S>, config: EmitterConfig) -> (r: Self)
        ensures
            r.register() == registry,
            r.settings() == config,
    {
        SummaryEmitter { registry, config }
    }

    /// The summaries of all signatures that have been suppressed at least `min_count` times.
    pub fn collect_summaries(&self) -> (summaries: Vec<SuppressionSummary>)
        requires
            self.register().wf(),
        ensures
            is_report(
                self.register(),
                self.settings().min_count,
                summaries_view(summaries@),
            ),
    {
        collect(&self.registry, self.config.min_count)
    }

    /// What the task of this emitter does when something happens.
    pub fn step(&self, event: EmitterEvent, emit_final: bool) -> (step: EmitterStep)
        requires
            self.register().wf(),
        ensures
            step.stop == (event == EmitterEvent::Signal(true)),
            step.emit is Some ==> collects(event, emit_final),
            self.register().is_exact() ==> (step.emit is Some <==> collects(event, emit_final)
                && reportable(self.register().states(), self.settings().min_count)),
            step.emit matches Some(summaries) ==> summaries@.len() > 0 && is_report(
                self.register(),
                self.settings().min_count,
                summaries_view(summaries@),
            ),
    {
        emitter_step(&self.registry, &self.config, event, emit_final)
    }

    /// The task of this emitter, about to start.
    pub fn task(&self, emit_final: bool) -> (r: EmitterTask)
        ensures
            r@ == (TaskModel { config: self.settings(), emit_final, running: true }),
    {
        EmitterTask::new(self.config, emit_final)
    }

    /// The configuration.
    pub fn config(&self) -> (r: &EmitterConfig)
        ensures
            *r == self.settings(),
    {
        &self.config
    }

    /// The registry.
    pub fn registry(&self) -> (r: &SuppressionRegistry<S>)
        ensures
            *r == self.register(),
    {
        &self.registry
    }

    /// The registry, for changes.
    pub fn registry_mut(&mut self) -> (r: &mut SuppressionRegistry<S>)
        ensures
            *r == old(self).register(),
            *final(r) == final(self).register(),
            final(self).settings() == old(self).settings(),
    {
        &mut self.registry
    }
}

/// Why a task could not be shut down in an orderly way.
#[derive(Debug, Clone, Copy, PartialEq, Eq, Structural)]
pub enum ShutdownError {
    /// The task panicked.
    TaskPanicked,
    /// The task was cancelled.
    TaskCancelled,
    /// The task took too long.
    Timeout,
    /// The signal could not be sent.
    SignalFailed,
}

/// How a task ended.
#[derive(Debug, Clone, Copy, PartialEq, Eq, Structural)]
pub enum TaskEnd {
    /// It came to its end.
    Completed,
    /// It panicked.
    Panicked,
    /// It was cancelled, or failed in another way.
    Cancelled,
    /// It had not ended when the time was up.
    TimedOut,
}

/// What a shutdown reports: whether the signal was sent, and how the task ended.
pub fn shutdown_result(signal_sent: bool, end: TaskEnd) -> (r: Result<(), ShutdownError>)
    ensures
        r == (if !signal_sent {
            Err(ShutdownError::SignalFailed)
        } else {
            match end {
                TaskEnd::Completed => Ok(()),
                TaskEnd::Panicked => Err(ShutdownError::TaskPanicked),
                TaskEnd::Cancelled => Err(ShutdownError::TaskCancelled),
                TaskEnd::TimedOut => Err(ShutdownError::Timeout),
            }
        }),
{
    if !signal_sent {
        return Err(ShutdownError::SignalFailed);
    }
    match end {
        TaskEnd::Completed => Ok(()),
        TaskEnd::Panicked => Err(ShutdownError::TaskPanicked),
        TaskEnd::Cancelled => Err(ShutdownError::TaskCancelled),
        TaskEnd::TimedOut => Err(ShutdownError::Timeout),
    }
}

proof fn lemma_summaries_of(
    signatures: Seq<EventSignature>,
    found: Seq<EventState>,
    min_count: usize,
    k: int,
)
    requires
        0 <= k < signatures.len(),
        found[k]@.counter.suppressed >= min_count,
    ensures
        summaries_of(signatures, found, min_count).contains(summary_of(signatures[k], found[k])),
    decreases signatures.len(),
{
    let front = summaries_of(signatures.drop_last(), found, min_count);
    let all = summaries_of(signatures, found, min_count);
    let wanted = summary_of(signatures[k], found[k]);
    if k == signatures.len() - 1 {
        assert(all[all.len() - 1] == wanted);
    } else {
        lemma_summaries_of(signatures.drop_last(), found, min_count, k);
        let j = choose|j: int| 0 <= j < front.len() && front[j] == wanted;
        assert(all[j] == wanted);
    }
}

/// No suppression goes unreported: every signature that has been suppressed at least `min_count`
/// times is among the summaries that are collected.
pub proof fn law_no_suppressed_signature_is_left_out(
    summaries: Seq<SummaryModel>,
    states: Map<Seq<char>, EventState>,
    min_count: usize,
    signature: EventSignature,
)
    requires
        summarises(summaries, states, min_count),
        states.contains_key(signature.id()),
        states[signature.id()]@.counter.suppressed >= min_count,
    ensures
        summaries.contains(summary_of(signature, states[signature.id()])),
{
    let (signatures, found) = choose|signatures: Seq<EventSignature>, found: Seq<EventState>|
        #[trigger] lists(signatures, found) && is_listed(signatures, found, states) && summaries
            == summaries_of(signatures, found, min_count);
    let k = choose|k: int|
        0 <= k < signatures.len() && #[trigger] signatures[k].id() == signature.id();
    crate::domain::signature::law_signature_text_is_unique(signatures[k], signature);
    assert(found[k] == states[signatures[k].id()]);
    lemma_summaries_of(signatures, found, min_count, k);
}

/// Every summary that is collected is that of a signature that has been suppressed at least
/// `min_count` times, with its count.
pub proof fn law_summaries_are_true(
    summaries: Seq<SummaryModel>,
    states: Map<Seq<char>, EventState>,
    min_count: usize,
    i: int,
)
    requires
        summarises(summaries, states, min_count),
        0 <= i < summaries.len(),
    ensures
        exists|signature: EventSignature| #[trigger]
            states.contains_key(signature.id()) && summaries[i] == summary_of(
                signature,
                states[signature.id()],
            ) && states[signature.id()]@.counter.suppressed >= min_count,
{
    let (signatures, found) = choose|signatures: Seq<EventSignature>, found: Seq<EventState>|
        #[trigger] lists(signatures, found) && is_listed(signatures, found, states) && summaries
            == summaries_of(signatures, found, min_count);
    lemma_summaries_source(signatures, found, min_count, i);
    let k = choose|k: int|
        0 <= k < signatures.len() && summaries[i] == summary_of(
            #[trigger] signatures[k],
            found[k],
        ) && found[k]@.counter.suppressed >= min_count;
    assert(found[k] == states[signatures[k].id()]);
    assert(states.contains_key(signatures[k].id()));
}

proof fn lemma_summaries_source(
    signatures: Seq<EventSignature>,
    found: Seq<EventState>,
    min_count: usize,
    i: int,
)
    requires
        0 <= i < summaries_of(signatures, found, min_count).len(),
    ensures
        exists|k: int|
            0 <= k < signatures.len() && summaries_of(signatures, found, min_count)[i]
                == summary_of(#[trigger] signatures[k], found[k])
                && found[k]@.counter.suppressed >= min_count,
    decreases signatures.len(),
{
    let front = summaries_of(signatures.drop_last(), found, min_count);
    if i < front.len() {
        lemma_summaries_source(signatures.drop_last(), found, min_count, i);
        let k = choose|k: int|
            0 <= k < signatures.drop_last().len() && front[i] == summary_of(
                #[trigger] signatures.drop_last()[k],
                found[k],
            ) && found[k]@.counter.suppressed >= min_count;
        assert(signatures[k] == signatures.drop_last()[k]);
    } else {
        let k = signatures.len() - 1;
        assert(summaries_of(signatures, found, min_count)[i] == summary_of(
            signatures[k],
            found[k],
        ));
    }
}

/// Something is collected exactly where there is something to report.
pub proof fn law_reports_are_collected(
    summaries: Seq<SummaryModel>,
    states: Map<Seq<char>, EventState>,
    min_count: usize,
)
    requires
        summarises(summaries, states, min_count),
    ensures
        summaries.len() > 0 <==> reportable(states, min_count),
{
    let (signatures, found) = choose|signatures: Seq<EventSignature>, found: Seq<EventState>|
        #[trigger] lists(signatures, found) && is_listed(signatures, found, states) && summaries
            == summaries_of(signatures, found, min_count);
    if summaries.len() > 0 {
        law_summaries_are_true(summaries, states, min_count, 0);
        let signature = choose|signature: EventSignature| #[trigger]
            states.contains_key(signature.id()) && summaries[0] == summary_of(
                signature,
                states[signature.id()],
            ) && states[signature.id()]@.counter.suppressed >= min_count;
        assert(states.contains_key(signature.id()));
    }
    if reportable(states, min_count) {
        let id = choose|id: Seq<char>| #[trigger]
            states.contains_key(id) && states[id]@.counter.suppressed >= min_count;
        let k = choose|k: int| 0 <= k < signatures.len() && #[trigger] signatures[k].id() == id;
        assert(found[k] == states[signatures[k].id()]);
        lemma_summaries_of(signatures, found, min_count, k);
    }
}

/// Something that happened to a task.
pub struct TaskMoment {
    /// What happened.
    pub event: EmitterEvent,
    /// What the registry held then.
    pub states: Map<Seq<char>, EventState>,
    /// What was handed out to be emitted.
    pub emitted: Option<Seq<SummaryModel>>,
}

/// Whether the task went through these states while all this happened to it.
pub open spec fn is_task_life(tasks: Seq<TaskModel>, moments: Seq<TaskMoment>) -> bool {
    &&& tasks.len() == moments.len() + 1
    &&& tasks[0].running
    &&& forall|i: int|
        0 <= i < moments.len() ==> {
            let m = #[trigger] moments[i];
            &&& tasks[i + 1] == task_after(tasks[i], m.event)
            &&& m.emitted is Some <==> task_emits(tasks[i], m.states, m.event)
            &&& m.emitted matches Some(summaries) ==> summaries.len() > 0 && summarises(
                summaries,
                m.states,
                tasks[i].config.min_count,
            )
        }
}

/// Whether the signal to stop came before moment `n`.
pub open spec fn stopped_before(moments: Seq<TaskMoment>, n: int) -> bool {
    exists|j: int| 0 <= j < n && (#[trigger] moments[j]).event == EmitterEvent::Signal(true)
}

/// What a task does over its whole life. Until it is told to stop, it emits at every tick at which
/// there is something to report, and at no other time, also after an emission that went wrong.
/// When it is told to stop, it emits once more exactly if it is to and there is something to
/// report. After that it never emits again. What it emits is always what there is to report at
/// that time, and never empty.
pub proof fn law_task_emits_until_it_is_stopped(
    tasks: Seq<TaskModel>,
    moments: Seq<TaskMoment>,
    n: int,
)
    requires
        is_task_life(tasks, moments),
        0 <= n < moments.len(),
    ensures
        ({
            let m = moments[n];
            let due = reportable(m.states, tasks[0].config.min_count);
            &&& stopped_before(moments, n) ==> m.emitted is None
            &&& !stopped_before(moments, n) && m.event == EmitterEvent::Tick ==> (
            m.emitted is Some <==> due)
            &&& !stopped_before(moments, n) && m.event == EmitterEvent::Signal(true) ==> (
            m.emitted is Some <==> tasks[0].emit_final && due)
            &&& m.event != EmitterEvent::Tick && m.event != EmitterEvent::Signal(true)
                ==> m.emitted is None
            &&& m.emitted matches Some(summaries) ==> summaries.len() > 0 && summarises(
                summaries,
                m.states,
                tasks[0].config.min_count,
            )
        }),
        tasks[n].running == !stopped_before(moments, n),
{
    lemma_task_running(tasks, moments, n);
    assert(moments[n] == moments[n]);
}

/// From the signal to stop on, a task emits at most once: of two emissions, the earlier one was at
/// a tick before the signal.
pub proof fn law_task_emits_at_most_once_from_the_signal_on(
    tasks: Seq<TaskModel>,
    moments: Seq<TaskMoment>,
    i: int,
    j: int,
)
    requires
        is_task_life(tasks, moments),
        0 <= i < j < moments.len(),
        moments[i].emitted is Some,
        moments[j].emitted is Some,
    ensures
        moments[i].event == EmitterEvent::Tick,
        !stopped_before(moments, i + 1),
{
    law_task_emits_until_it_is_stopped(tasks, moments, i);
    law_task_emits_until_it_is_stopped(tasks, moments, j);
    if stopped_before(moments, i + 1) {
        let k = choose|k: int|
            0 <= k < i + 1 && (#[trigger] moments[k]).event == EmitterEvent::Signal(true);
        assert(stopped_before(moments, j));
    }
    if moments[i].event == EmitterEvent::Signal(true) {
        assert(stopped_before(moments, i + 1));
    }
}

proof fn lemma_task_running(tasks: Seq<TaskModel>, moments: Seq<TaskMoment>, n: int)
    requires
        is_task_life(tasks, moments),
        0 <= n <= moments.len(),
    ensures
        tasks[n].config == tasks[0].config,
        tasks[n].emit_final == tasks[0].emit_final,
        tasks[n].running == !stopped_before(moments, n),
    decreases n,
{
    if n > 0 {
        lemma_task_running(tasks, moments, n - 1);
        let m = moments[n - 1];
        assert(tasks[n - 1 + 1] == task_after(tasks[n - 1], m.event));
        if stopped_before(moments, n) {
            let j = choose|j: int|
                0 <= j < n && (#[trigger] moments[j]).event == EmitterEvent::Signal(true);
            if j < n - 1 {
                assert(stopped_before(moments, n - 1));
            }
        }
        if stopped_before(moments, n - 1) {
            let j = choose|j: int|
                0 <= j < n - 1 && (#[trigger] moments[j]).event == EmitterEvent::Signal(true);
            assert(stopped_before(moments, n));
        }
    }
}

/// A summary is that of its signature and of what is kept for it: how often it was suppressed, when
/// first and last, how long that took, and what is known of the event.
pub proof fn law_summary_is_of_its_signature(signature: EventSignature, state: EventState)
    ensures
        ({
            let summary = summary_of(signature, state);
            &&& summary.signature == signature@
            &&& summary.count == state@.counter.suppressed
            &&& summary.first == state@.counter.first
            &&& summary.last == state@.counter.last
            &&& summary.first <= summary.last ==> summary.first + summary.duration == summary.last
            &&& summary.metadata == state@.metadata
        }),
{
}

/// No signature is summarised twice.
pub proof fn law_each_signature_is_summarised_once(
    summaries: Seq<SummaryModel>,
    states: Map<Seq<char>, EventState>,
    min_count: usize,
    i: int,
    j: int,
)
    requires
        summarises(summaries, states, min_count),
        0 <= i < j < summaries.len(),
    ensures
        summaries[i].signature != summaries[j].signature,
{
    let (signatures, found) = choose|signatures: Seq<EventSignature>, found: Seq<EventState>|
        #[trigger] lists(signatures, found) && is_listed(signatures, found, states) && summaries
            == summaries_of(signatures, found, min_count);
    let (a, b) = lemma_summaries_in_order(signatures, found, min_count, i, j);
    assert(signatures[a].id() != signatures[b].id());
}

/// Summaries come in the order of the signatures.
proof fn lemma_summaries_in_order(
    signatures: Seq<EventSignature>,
    found: Seq<EventState>,
    min_count: usize,
    i: int,
    j: int,
) -> (r: (int, int))
    requires
        0 <= i < j < summaries_of(signatures, found, min_count).len(),
    ensures
        0 <= r.0 < r.1 < signatures.len(),
        summaries_of(signatures, found, min_count)[i].signature == signatures[r.0]@,
        summaries_of(signatures, found, min_count)[j].signature == signatures[r.1]@,
    decreases signatures.len(),
{
    let front = summaries_of(signatures.drop_last(), found, min_count);
    if j < front.len() {
        lemma_summaries_in_order(signatures.drop_last(), found, min_count, i, j)
    } else {
        lemma_summaries_source(signatures.drop_last(), found, min_count, i);
        let k = choose|k: int|
            0 <= k < signatures.drop_last().len() && front[i] == summary_of(
                #[trigger] signatures.drop_last()[k],
                found[k],
            ) && found[k]@.counter.suppressed >= min_count;
        (k, signatures.len() - 1)
    }
}

/// What a registry whose storage can be relied on reports: all signatures that have been suppressed
/// often enough, and only those.
pub proof fn law_report_is_complete_and_true<S: Storage<EventSignature, EventState>>(
    registry: SuppressionRegistry<S>,
    min_count: usize,
    summaries: Seq<SummaryModel>,
    signature: EventSignature,
)
    requires
        is_report(registry, min_count, summaries),
        registry.is_exact(),
        registry.states().contains_key(signature.id()),
    ensures
        registry.states()[signature.id()]@.counter.suppressed >= min_count <==> exists|i: int|
            0 <= i < summaries.len() && (#[trigger] summaries[i]).signature == signature@,
{
    let state = registry.states()[signature.id()];
    if state@.counter.suppressed >= min_count {
        law_no_suppressed_signature_is_left_out(
            summaries,
            registry.states(),
            min_count,
            signature,
        );
        let i = choose|i: int|
            0 <= i < summaries.len() && summaries[i] == summary_of(signature, state);
        assert(summaries[i].signature == signature@);
    }
    if exists|i: int| 0 <= i < summaries.len() && (#[trigger] summaries[i]).signature
        == signature@ {
        let i = choose|i: int|
            0 <= i < summaries.len() && (#[trigger] summaries[i]).signature == signature@;
        law_summaries_are_true(summaries, registry.states(), min_count, i);
        let other = choose|other: EventSignature| #[trigger]
            registry.states().contains_key(other.id()) && summaries[i] == summary_of(
                other,
                registry.states()[other.id()],
            ) && registry.states()[other.id()]@.counter.suppressed >= min_count;
        assert(other@ == signature@);
    }
}

/// The models of summaries are those of the summaries, in their order.
pub proof fn law_summaries_are_taken_as_they_are(summaries: Seq<SuppressionSummary>, i: int)
    ensures
        summaries_view(summaries).len() == summaries.len(),
        0 <= i < summaries.len() ==> summaries_view(summaries)[i] == summaries[i]@,
{
}

/// Also of a storage that cannot be relied on, every summary is that of a signature and a state
/// that the storage came up with, and that has been suppressed often enough.
pub proof fn law_every_summary_is_of_some_state(
    summaries: Seq<SummaryModel>,
    min_count: usize,
    i: int,
)
    requires
        summarises_some(summaries, min_count),
        0 <= i < summaries.len(),
    ensures
        summaries[i].count >= min_count,
        exists|signature: EventSignature, state: EventState|
            summaries[i] == #[trigger] summary_of(signature, state),
{
    let (signatures, found) = choose|signatures: Seq<EventSignature>, found: Seq<EventState>|
        #[trigger] lists(signatures, found) && summaries == summaries_of(
            signatures,
            found,
            min_count,
        );
    lemma_summaries_source(signatures, found, min_count, i);
    let k = choose|k: int|
        0 <= k < signatures.len() && summaries[i] == summary_of(
            #[trigger] signatures[k],
            found[k],
        ) && found[k]@.counter.suppressed >= min_count;
    assert(summaries[i] == summary_of(signatures[k], found[k]));
}

} // verus!
