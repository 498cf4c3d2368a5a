//! The rate limiter: decides about each event, and fails open.
use crate::application::circuit_breaker::{
    admits, asked, failed, succeeded, BreakerModel, CircuitBreaker,
};
use crate::application::metrics::{
    allowed_counted, evictions_counted, suppressed_counted, zero_metrics, Metrics, MetricsSnapshot,
};
use crate::application::ports::{Clock, Storage};
use crate::application::registry::{
    described, registered, verdict, EventState, StateModel, SuppressionRegistry,
};
use crate::domain::metadata::{EventMetadata, MetadataModel};
use crate::domain::policy::PolicyDecision;
use crate::domain::signature::EventSignature;
use crate::domain::summary::opt_metadata;
use crate::time::Instant;
use vstd::prelude::*;

verus! {

/// What happens to an event.
#[derive(Debug, Clone, Copy, PartialEq, Eq, Structural)]
pub enum LimitDecision {
    /// It passes.
    Allow,
    /// It is suppressed.
    Suppress,
}

/// What happens to an event, given what the policy said. Where it said nothing, the event passes.
pub open spec fn outcome(verdict: Option<PolicyDecision>) -> LimitDecision {
    if verdict == Some(PolicyDecision::Suppress) {
        LimitDecision::Suppress
    } else {
        LimitDecision::Allow
    }
}

/// The counts once the decision has been counted.
pub open spec fn counted(counts: MetricsSnapshot, decision: LimitDecision) -> MetricsSnapshot {
    match decision {
        LimitDecision::Allow => allowed_counted(counts),
        LimitDecision::Suppress => suppressed_counted(counts),
    }
}

/// Whether an event with this decision was counted for monitoring.
pub open spec fn is_noted(metrics: Metrics, decision: LimitDecision) -> bool {
    match decision {
        LimitDecision::Allow => metrics.allowed_noted(),
        LimitDecision::Suppress => metrics.suppressed_noted(),
    }
}

/// How many more evictions a storage has counted, if it had counted `before` and has now counted
/// `after`. Its count starts over at zero above the largest number.
pub open spec fn new_evictions(before: u64, after: u64) -> u64 {
    if after >= before {
        (after - before) as u64
    } else {
        (after - before + u64::MAX + 1) as u64
    }
}

/// The circuit breaker once it has been told how the operation went.
pub open spec fn informed(
    breaker: BreakerModel,
    verdict: Option<PolicyDecision>,
    now: nat,
) -> BreakerModel {
    if verdict is Some {
        succeeded(breaker)
    } else {
        failed(breaker, now)
    }
}

/// The state of a signature once an event has been described, if it is to be, and registered.
pub open spec fn checked(
    state: StateModel,
    metadata: Option<MetadataModel>,
    now: nat,
) -> StateModel {
    match metadata {
        Some(m) => registered(described(state, m), now),
        None => registered(state, now),
    }
}

/// Decides about events.
pub struct RateLimiter<S: Storage<EventSignature, EventState>> {
    registry: SuppressionRegistry<S>,
    metrics: Metrics,
    tally: MetricsSnapshot,
    circuit_breaker: CircuitBreaker,
}

impl<S: Storage<EventSignature, EventState>> RateLimiter<S> {
    /// Whether the registry is in order.
    pub open spec fn wf(&self) -> bool {
        self.register().wf()
    }

    /// The registry.
    pub closed spec fn register(&self) -> SuppressionRegistry<S> {
        self.registry
    }

    /// What this limiter has counted itself: events, and signatures that had to go for them.
    pub closed spec fn counts(&self) -> MetricsSnapshot {
        self.tally
    }

    /// Where everything is counted that this limiter counts, and whatever others count there.
    pub closed spec fn monitored_by(&self) -> Metrics {
        self.metrics
    }

    /// The counts once the evictions have been added that the storage has counted meanwhile.
    pub open spec fn evictions_noted(&self, after: &Self) -> MetricsSnapshot {
        evictions_counted(
            self.counts(),
            new_evictions(
                self.register().kept_in().evicted(),
                after.register().kept_in().evicted(),
            ),
        )
    }

    /// The circuit breaker.
    pub closed spec fn breaker(&self) -> BreakerModel {
        self.circuit_breaker@
    }

    /// Whether `after` is what becomes of this limiter when an event of this signature comes at
    /// `now` and the policy is asked, with the answer `answer`.
    pub open spec fn asks_policy(
        &self,
        signature: EventSignature,
        metadata: Option<MetadataModel>,
        now: nat,
        answer: Option<PolicyDecision>,
        after: &Self,
    ) -> bool {
        let before = self.register();
        &&& after.monitored_by() == self.monitored_by()
        &&& after.register().is_exact() == before.is_exact()
        &&& after.register().keeps_all() == before.keeps_all()
        &&& after.register().initial_policy() == before.initial_policy()
        &&& after.register().tells_time_by() == before.tells_time_by()
        &&& exists|first: EventState, last: EventState|
            {
                &&& before.begins(signature, now, first)
                &&& answer == verdict(first@, now)
                &&& last@ == checked(first@, metadata, now)
                &&& #[trigger] before.becomes(signature, first, last, &after.register())
            }
    }

    /// Puts the parts together.
    pub fn new(
        registry: SuppressionRegistry<S>,
        metrics: Metrics,
        circuit_breaker: CircuitBreaker,
    ) -> (r: Self)
        ensures
            r.register() == registry,
            r.counts() == zero_metrics(),
            r.monitored_by() == metrics,
            r.breaker() == circuit_breaker@,
    {
        RateLimiter { registry, metrics, tally: MetricsSnapshot::zero(), circuit_breaker }
    }

    /// Counts an event.
    fn count(&mut self, decision: LimitDecision)
        ensures
            final(self).register() == old(self).register(),
            final(self).monitored_by() == old(self).monitored_by(),
            final(self).breaker() == old(self).breaker(),
            final(self).counts() == counted(old(self).counts(), decision),
            is_noted(old(self).monitored_by(), decision),
    {
        match decision {
            LimitDecision::Allow => {
                self.tally = self.tally.plus_allowed();
                self.metrics.record_allowed();
            },
            LimitDecision::Suppress => {
                self.tally = self.tally.plus_suppressed();
                self.metrics.record_suppressed();
            },
        }
    }

    /// Asks the circuit breaker, at `now`, whether the policy is to be asked. If not, the event
    /// passes and is counted.
    pub fn begin_at(&mut self, now: Instant) -> (r: bool)
        ensures
            r == admits(old(self).breaker(), now@),
            final(self).register() == old(self).register(),
            final(self).monitored_by() == old(self).monitored_by(),
            final(self).breaker() == asked(old(self).breaker(), now@),
            final(self).counts() == if r {
                old(self).counts()
            } else {
                counted(old(self).counts(), LimitDecision::Allow)
            },
            !r ==> is_noted(old(self).monitored_by(), LimitDecision::Allow),
    {
        if self.circuit_breaker.allow_request_at(now) {
            true
        } else {
            self.count(LimitDecision::Allow);
            false
        }
    }

    /// Asks the circuit breaker now whether the policy is to be asked.
    pub fn begin(&mut self) -> (r: bool)
        ensures
            exists|now: nat|
                {
                    &&& r == admits(old(self).breaker(), now)
                    &&& final(self).register() == old(self).register()
                    &&& final(self).monitored_by() == old(self).monitored_by()
                    &&& final(self).breaker() == #[trigger] asked(old(self).breaker(), now)
                    &&& old(self).breaker().epoch.shows(now)
                    &&& final(self).counts() == if r {
                        old(self).counts()
                    } else {
                        counted(old(self).counts(), LimitDecision::Allow)
                    }
                },
            !r ==> is_noted(old(self).monitored_by(), LimitDecision::Allow),
    {
        if self.circuit_breaker.allow_request() {
            true
        } else {
            self.count(LimitDecision::Allow);
            false
        }
    }

    /// Asks the policy about an event at `now`.
    pub fn decide_at(
        &mut self,
        signature: EventSignature,
        metadata: Option<EventMetadata>,
        now: Instant,
    ) -> (r: Option<PolicyDecision>)
        requires
            old(self).wf(),
        ensures
            final(self).wf(),
            old(self).asks_policy(signature, opt_metadata(metadata), now@, r, final(self)),
            final(self).counts() == old(self).evictions_noted(final(self)),
            final(self).breaker() == old(self).breaker(),
    {
        let evicted_before: u64 = self.registry.storage().evictions();
        let answer: Option<PolicyDecision> = match metadata {
            Some(metadata) => {
                let f = |state: &mut EventState, now: Instant| -> (r: Option<PolicyDecision>)
                    ensures
                        r == verdict(old(state)@, now@),
                        final(state)@ == checked(old(state)@, Some(metadata@), now@),
                    {
                        state.set_metadata(metadata);
                        state.register(now)
                    };
                self.registry.with_event_state_at(now, signature, f)
            },
            None => {
                let f = |state: &mut EventState, now: Instant| -> (r: Option<PolicyDecision>)
                    ensures
                        r == verdict(old(state)@, now@),
                        final(state)@ == checked(old(state)@, None, now@),
                    { state.register(now) };
                self.registry.with_event_state_at(now, signature, f)
            },
        };
        let evicted_after: u64 = self.registry.storage().evictions();
        self.tally = self.tally.plus_evictions(evicted_after.wrapping_sub(evicted_before));
        answer
    }

    /// Asks the policy about an event now.
    pub fn decide(
        &mut self,
        signature: EventSignature,
        metadata: Option<EventMetadata>,
    ) -> (r: Option<PolicyDecision>)
        requires
            old(self).wf(),
        ensures
            final(self).wf(),
            exists|now: nat| #[trigger]
                old(self).asks_policy(signature, opt_metadata(metadata), now, r, final(self))
                    && old(self).register().tells_time_by().tells(now),
            final(self).counts() == old(self).evictions_noted(final(self)),
            final(self).breaker() == old(self).breaker(),
    {
        let now: Instant = self.registry.now();
        self.decide_at(signature, metadata, now)
    }

    /// Turns the answer of the policy into a decision, at `now`: tells the circuit breaker how
    /// it went, and counts the event. No answer means that the policy failed; the event passes.
    pub fn finish_at(&mut self, answer: Option<PolicyDecision>, now: Instant) -> (r: LimitDecision)
        ensures
            r == outcome(answer),
            final(self).register() == old(self).register(),
            final(self).monitored_by() == old(self).monitored_by(),
            final(self).breaker() == informed(old(self).breaker(), answer, now@),
            final(self).counts() == counted(old(self).counts(), r),
            is_noted(old(self).monitored_by(), r),
    {
        if answer.is_none() {
            self.circuit_breaker.record_failure_at(now);
        }
        self.conclude(answer)
    }

    /// As [`RateLimiter::finish_at`], now.
    pub fn finish(&mut self, answer: Option<PolicyDecision>) -> (r: LimitDecision)
        ensures
            r == outcome(answer),
            final(self).register() == old(self).register(),
            final(self).monitored_by() == old(self).monitored_by(),
            exists|now: nat|
                final(self).breaker() == #[trigger] informed(old(self).breaker(), answer, now) && (
                answer is None ==> old(self).breaker().epoch.shows(now)),
            final(self).counts() == counted(old(self).counts(), r),
            is_noted(old(self).monitored_by(), r),
    {
        if answer.is_none() {
            self.circuit_breaker.record_failure();
        }
        let r: LimitDecision = self.conclude(answer);
        assert(answer is Some ==> self.breaker() == informed(old(self).breaker(), answer, 0));
        assert(answer is None ==> exists|now: nat|
            self.breaker() == #[trigger] failed(old(self).breaker(), now)
                && old(self).breaker().epoch.shows(now) && failed(old(self).breaker(), now)
                == informed(
                old(self).breaker(),
                answer,
                now,
            ));
        r
    }

    /// Notes a success, and counts the event.
    fn conclude(&mut self, answer: Option<PolicyDecision>) -> (r: LimitDecision)
        ensures
            r == outcome(answer),
            final(self).register() == old(self).register(),
            final(self).monitored_by() == old(self).monitored_by(),
            final(self).breaker() == if answer is Some {
                succeeded(old(self).breaker())
            } else {
                old(self).breaker()
            },
            final(self).counts() == counted(old(self).counts(), r),
            is_noted(old(self).monitored_by(), r),
    {
        let decision: LimitDecision = match answer {
            Some(PolicyDecision::Allow) => {
                self.circuit_breaker.record_success();
                LimitDecision::Allow
            },
            Some(PolicyDecision::Suppress) => {
                self.circuit_breaker.record_success();
                LimitDecision::Suppress
            },
            None => LimitDecision::Allow,
        };
        self.count(decision);
        decision
    }

    /// Whether `after` is what becomes of this limiter when an event is checked: the circuit
    /// breaker is asked at `asked_at`, the policy at `now`, and a failure is noted at
    /// `failed_at`.
    pub open spec fn checks(
        &self,
        signature: EventSignature,
        metadata: Option<MetadataModel>,
        asked_at: nat,
        now: nat,
        failed_at: nat,
        decision: LimitDecision,
        after: &Self,
    ) -> bool {
        is_noted(self.monitored_by(), decision) && if admits(self.breaker(), asked_at) {
            exists|answer: Option<PolicyDecision>|
                {
                    &&& #[trigger] self.asks_policy(signature, metadata, now, answer, after)
                    &&& decision == outcome(answer)
                    &&& after.breaker() == informed(
                        asked(self.breaker(), asked_at),
                        answer,
                        failed_at,
                    )
                    &&& after.counts() == counted(self.evictions_noted(after), decision)
                }
        } else {
            &&& decision == LimitDecision::Allow
            &&& after.register() == self.register()
            &&& after.monitored_by() == self.monitored_by()
            &&& after.breaker() == self.breaker()
            &&& after.counts() == counted(self.counts(), LimitDecision::Allow)
        }
    }

    /// Whether the policy, if it is asked at all, is asked at a time that the registry's clock
    /// tells.
    pub open spec fn at_clock_time(&self, asked_at: nat, now: nat) -> bool {
        admits(self.breaker(), asked_at) ==> self.register().tells_time_by().tells(now)
    }

    /// Whether the circuit breaker is asked, and told of a failure, at times that its clock shows.
    pub open spec fn at_breaker_times(&self, asked_at: nat, failed_at: nat) -> bool {
        self.breaker().epoch.shows(asked_at) && self.breaker().epoch.shows(failed_at)
    }

    /// Decides about an event. `breaker_now` is the present for the circuit breaker, `now` for
    /// the policy.
    fn check_at(
        &mut self,
        signature: EventSignature,
        metadata: Option<EventMetadata>,
        breaker_now: Instant,
        now: Instant,
    ) -> (r: LimitDecision)
        requires
            old(self).wf(),
        ensures
            final(self).wf(),
            old(self).checks(
                signature,
                opt_metadata(metadata),
                breaker_now@,
                now@,
                breaker_now@,
                r,
                final(self),
            ),
    {
        if !self.begin_at(breaker_now) {
            return LimitDecision::Allow;
        }
        let ghost begun = *self;
        let answer: Option<PolicyDecision> = self.decide_at(signature, metadata, now);
        let ghost decided = *self;
        assert(begun.asks_policy(signature, opt_metadata(metadata), now@, answer, &decided));
        let r: LimitDecision = self.finish_at(answer, breaker_now);
        assert(old(self).asks_policy(signature, opt_metadata(metadata), now@, answer, self));
        r
    }

    /// Decides about an event at a given time.
    pub fn check_event_at(
        &mut self,
        signature: EventSignature,
        breaker_now: Instant,
        now: Instant,
    ) -> (r: LimitDecision)
        requires
            old(self).wf(),
        ensures
            final(self).wf(),
            old(self).checks(
                signature,
                None,
                breaker_now@,
                now@,
                breaker_now@,
                r,
                final(self),
            ),
    {
        self.check_at(signature, None, breaker_now, now)
    }

    /// Decides about an event at a given time, and notes what is known of it.
    pub fn check_event_with_metadata_at(
        &mut self,
        signature: EventSignature,
        metadata: EventMetadata,
        breaker_now: Instant,
        now: Instant,
    ) -> (r: LimitDecision)
        requires
            old(self).wf(),
        ensures
            final(self).wf(),
            old(self).checks(
                signature,
                Some(metadata@),
                breaker_now@,
                now@,
                breaker_now@,
                r,
                final(self),
            ),
    {
        self.check_at(signature, Some(metadata), breaker_now, now)
    }

    /// Decides about an event now.
    fn check_now(
        &mut self,
        signature: EventSignature,
        metadata: Option<EventMetadata>,
    ) -> (r: LimitDecision)
        requires
            old(self).wf(),
        ensures
            final(self).wf(),
            exists|asked_at: nat, now: nat, failed_at: nat| #[trigger]
                old(self).checks(
                    signature,
                    opt_metadata(metadata),
                    asked_at,
                    now,
                    failed_at,
                    r,
                    final(self),
                ) && old(self).at_clock_time(asked_at, now) && old(self).at_breaker_times(
                    asked_at,
                    failed_at,
                ),
    {
        let ghost meta = opt_metadata(metadata);
        let go: bool = self.begin();
        let ghost begun = *self;
        let ghost asked_at = choose|now: nat|
            {
                &&& go == admits(old(self).breaker(), now)
                &&& begun.register() == old(self).register()
                &&& begun.monitored_by() == old(self).monitored_by()
                &&& begun.breaker() == #[trigger] asked(old(self).breaker(), now)
                &&& old(self).breaker().epoch.shows(now)
                &&& begun.counts() == if go {
                    old(self).counts()
                } else {
                    counted(old(self).counts(), LimitDecision::Allow)
                }
            };
        if !go {
            assert(old(self).checks(
                signature,
                meta,
                asked_at,
                0,
                asked_at,
                LimitDecision::Allow,
                self,
            ));
            return LimitDecision::Allow;
        }
        let answer: Option<PolicyDecision> = self.decide(signature, metadata);
        let ghost decided = *self;
        let ghost now = choose|now: nat| #[trigger]
            begun.asks_policy(signature, meta, now, answer, &decided)
                && begun.register().tells_time_by().tells(now);
        let r: LimitDecision = self.finish(answer);
        let ghost noted_at = choose|at: nat|
            self.breaker() == #[trigger] informed(decided.breaker(), answer, at) && (answer is None
                ==> decided.breaker().epoch.shows(at));
        let ghost failed_at = if answer is None {
            noted_at
        } else {
            asked_at
        };
        assert(old(self).asks_policy(signature, meta, now, answer, self));
        assert(old(self).checks(signature, meta, asked_at, now, failed_at, r, self));
        r
    }

    /// Decides whether an event passes or is suppressed. Where limiting itself does not work,
    /// events pass.
    pub fn check_event(&mut self, signature: EventSignature) -> (r: LimitDecision)
        requires
            old(self).wf(),
        ensures
            final(self).wf(),
            exists|asked_at: nat, now: nat, failed_at: nat| #[trigger]
                old(self).checks(signature, None, asked_at, now, failed_at, r, final(self))
                    && old(self).at_clock_time(asked_at, now) && old(self).at_breaker_times(
                    asked_at,
                    failed_at,
                ),
    {
        self.check_now(signature, None)
    }

    /// Decides whether an event passes or is suppressed, and notes what is known of the event
    /// when it first occurs.
    pub fn check_event_with_metadata(
        &mut self,
        signature: EventSignature,
        metadata: EventMetadata,
    ) -> (r: LimitDecision)
        requires
            old(self).wf(),
        ensures
            final(self).wf(),
            exists|asked_at: nat, now: nat, failed_at: nat| #[trigger]
                old(self).checks(
                    signature,
                    Some(metadata@),
                    asked_at,
                    now,
                    failed_at,
                    r,
                    final(self),
                ) && old(self).at_clock_time(asked_at, now) && old(self).at_breaker_times(
                    asked_at,
                    failed_at,
                ),
    {
        self.check_now(signature, Some(metadata))
    }

    /// Lets an event pass without asking anyone, and counts it.
    pub fn pass(&mut self)
        ensures
            final(self).register() == old(self).register(),
            final(self).monitored_by() == old(self).monitored_by(),
            final(self).breaker() == old(self).breaker(),
            final(self).counts() == counted(old(self).counts(), LimitDecision::Allow),
            is_noted(old(self).monitored_by(), LimitDecision::Allow),
    {
        self.count(LimitDecision::Allow);
    }

    /// The registry.
    pub fn registry(&self) -> (r: &SuppressionRegistry<S>)
        ensures
            *r == self.register(),
    {
        &self.registry
    }

    /// The registry, for changes.
    pub fn registry_mut(&mut self) -> (r: &mut SuppressionRegistry<S>)
        ensures
            *r == old(self).register(),
            *final(r) == final(self).register(),
            final(self).monitored_by() == old(self).monitored_by(),
            final(self).counts() == old(self).counts(),
            final(self).breaker() == old(self).breaker(),
    {
        &mut self.registry
    }

    /// The counts for monitoring. A clone of them stays up to date.
    pub fn metrics(&self) -> (r: &Metrics)
        ensures
            *r == self.monitored_by(),
    {
        &self.metrics
    }

    /// What this limiter has counted itself since it was made.
    pub fn tally(&self) -> (r: MetricsSnapshot)
        ensures
            r == self.counts(),
    {
        self.tally
    }

    /// The circuit breaker, for changes.
    pub fn circuit_breaker_mut(&mut self) -> (r: &mut CircuitBreaker)
        ensures
            r@ == old(self).breaker(),
            final(r)@ == final(self).breaker(),
            final(self).register() == old(self).register(),
            final(self).monitored_by() == old(self).monitored_by(),
            final(self).counts() == old(self).counts(),
    {
        &mut self.circuit_breaker
    }

    /// The circuit breaker.
    pub fn circuit_breaker(&self) -> (r: &CircuitBreaker)
        ensures
            r@ == self.breaker(),
    {
        &self.circuit_breaker
    }
}

} // verus!
