//! Circuit breaker for fail-safe rate limiting.
//!
//! When rate limiting itself fails too often, the circuit opens, and all events pass until the
//! recovery timeout is over. Losing the limit is better than losing the log.
use crate::time::{clamp_u64, elapsed, saturate_u64, Duration, Epoch, Instant, NANOS_PER_SEC};
use vstd::prelude::*;
use vstd::std_specs::convert::FromSpecImpl;

verus! {

/// State of a circuit breaker.
#[derive(Debug, Clone, Copy, PartialEq, Eq, Structural)]
pub enum CircuitState {
    /// Normal operation.
    Closed,
    /// Too many failures: operations are skipped.
    Open,
    /// Operations are tried again.
    HalfOpen,
}

impl From<u8> for CircuitState {
    fn from(value: u8) -> (r: Self) {
        match value {
            0 => CircuitState::Closed,
            1 => CircuitState::Open,
            2 => CircuitState::HalfOpen,
            _ => CircuitState::Closed,
        }
    }
}

impl FromSpecImpl<u8> for CircuitState {
    open spec fn obeys_from_spec() -> bool {
        true
    }

    /// One is open, two is half open, and everything else is closed.
    open spec fn from_spec(value: u8) -> Self {
        if value == 1 {
            CircuitState::Open
        } else if value == 2 {
            CircuitState::HalfOpen
        } else {
            CircuitState::Closed
        }
    }
}

/// When a circuit opens, and for how long.
#[derive(Debug, Clone, Copy, PartialEq, Eq, Structural)]
pub struct CircuitBreakerConfig {
    /// How many failures in a row open the circuit.
    pub failure_threshold: u32,
    /// How long to wait before operations are tried again.
    pub recovery_timeout: Duration,
}

impl Default for CircuitBreakerConfig {
    /// Five failures, and thirty seconds.
    fn default() -> (r: Self)
        ensures
            r.failure_threshold == 5,
            r.recovery_timeout@ == 30 * NANOS_PER_SEC,
    {
        CircuitBreakerConfig { failure_threshold: 5, recovery_timeout: Duration::from_secs(30) }
    }
}

/// Model of [`CircuitBreaker`].
pub struct BreakerModel {
    /// The state.
    pub state: CircuitState,
    /// How many failures there were in a row.
    pub failures: u64,
    /// When the last failure was.
    pub last_failure: u64,
    /// The configuration.
    pub config: CircuitBreakerConfig,
    /// The base point of the times.
    pub epoch: Epoch,
}

/// A circuit breaker that has seen nothing.
pub open spec fn fresh_breaker(config: CircuitBreakerConfig, epoch: Epoch) -> BreakerModel {
    BreakerModel { state: CircuitState::Closed, failures: 0, last_failure: 0, config, epoch }
}

/// Whether the recovery timeout is over.
pub open spec fn recovered(m: BreakerModel, now: nat) -> bool {
    elapsed(m.last_failure as nat, now) >= m.config.recovery_timeout@
}

/// Whether an operation may be tried at `now`.
pub open spec fn admits(m: BreakerModel, now: nat) -> bool {
    m.state == CircuitState::Open ==> recovered(m, now)
}

/// The circuit breaker once it has been asked at `now`.
pub open spec fn asked(m: BreakerModel, now: nat) -> BreakerModel {
    if m.state == CircuitState::Open && recovered(m, now) {
        BreakerModel { state: CircuitState::HalfOpen, ..m }
    } else {
        m
    }
}

/// The circuit breaker after a success.
pub open spec fn succeeded(m: BreakerModel) -> BreakerModel {
    if m.state == CircuitState::Open {
        m
    } else {
        BreakerModel { state: CircuitState::Closed, failures: 0, ..m }
    }
}

/// One more, up to the largest `u64`.
pub open spec fn saturating_succ(n: u64) -> u64 {
    if n < u64::MAX {
        (n + 1) as u64
    } else {
        u64::MAX
    }
}

/// The circuit breaker after a failure at `now`.
pub open spec fn failed(m: BreakerModel, now: nat) -> BreakerModel {
    let failures = saturating_succ(m.failures);
    BreakerModel {
        state: if m.state == CircuitState::Closed && failures < m.config.failure_threshold {
            CircuitState::Closed
        } else {
            CircuitState::Open
        },
        failures,
        last_failure: clamp_u64(now),
        ..m
    }
}

/// Guards an operation that may fail.
#[derive(Debug)]
pub struct CircuitBreaker {
    state: CircuitState,
    consecutive_failures: u64,
    last_failure_time_nanos: u64,
    config: CircuitBreakerConfig,
    epoch: Epoch,
}

impl View for CircuitBreaker {
    type V = BreakerModel;

    closed spec fn view(&self) -> BreakerModel {
        BreakerModel {
            state: self.state,
            failures: self.consecutive_failures,
            last_failure: self.last_failure_time_nanos,
            config: self.config,
            epoch: self.epoch,
        }
    }
}

impl Clone for CircuitBreaker {
    fn clone(&self) -> (r: Self)
        ensures
            r@ == self@,
    {
        CircuitBreaker {
            state: self.state,
            consecutive_failures: self.consecutive_failures,
            last_failure_time_nanos: self.last_failure_time_nanos,
            config: self.config,
            epoch: self.epoch,
        }
    }
}

impl Default for CircuitBreaker {
    fn default() -> (r: Self)
        ensures
            r@ == fresh_breaker(r@.config, r@.epoch),
            r@.config.failure_threshold == 5,
            r@.config.recovery_timeout@ == 30 * NANOS_PER_SEC,
    {
        CircuitBreaker::new()
    }
}

impl CircuitBreaker {
    /// A circuit breaker with the default configuration.
    pub fn new() -> (r: Self)
        ensures
            r@ == fresh_breaker(r@.config, r@.epoch),
            r@.config.failure_threshold == 5,
            r@.config.recovery_timeout@ == 30 * NANOS_PER_SEC,
    {
        CircuitBreaker::with_config(CircuitBreakerConfig::default())
    }

    /// A circuit breaker with a configuration of its own.
    pub fn with_config(config: CircuitBreakerConfig) -> (r: Self)
        ensures
            r@ == fresh_breaker(config, r@.epoch),
    {
        CircuitBreaker {
            state: CircuitState::Closed,
            consecutive_failures: 0,
            last_failure_time_nanos: 0,
            config,
            epoch: Epoch::start(),
        }
    }

    /// The present state.
    pub fn state(&self) -> (r: CircuitState)
        ensures
            r == self@.state,
    {
        self.state
    }

    /// Whether an operation may be tried now. An open circuit goes half open when its recovery
    /// timeout is over.
    pub fn allow_request(&mut self) -> (r: bool)
        ensures
            exists|now: nat|
                r == admits(old(self)@, now) && final(self)@ == #[trigger] asked(old(self)@, now)
                    && old(self)@.epoch.shows(now),
    {
        let now: Instant = self.epoch.now();
        self.allow_request_at(now)
    }

    /// Whether an operation may be tried at `now`.
    pub fn allow_request_at(&mut self, now: Instant) -> (r: bool)
        ensures
            r == admits(old(self)@, now@),
            final(self)@ == asked(old(self)@, now@),
    {
        match self.state {
            CircuitState::Closed => true,
            CircuitState::Open => {
                let last_failure: Instant = self.last_failure_time();
                let waited: u128 = now.saturating_duration_since(last_failure).as_nanos();
                if waited >= self.config.recovery_timeout.as_nanos() {
                    self.state = CircuitState::HalfOpen;
                    true
                } else {
                    false
                }
            },
            CircuitState::HalfOpen => true,
        }
    }

    /// Notes that an operation went well.
    pub fn record_success(&mut self)
        ensures
            final(self)@ == succeeded(old(self)@),
    {
        match self.state {
            CircuitState::HalfOpen => {
                self.consecutive_failures = 0;
                self.state = CircuitState::Closed;
            },
            CircuitState::Closed => {
                self.consecutive_failures = 0;
            },
            CircuitState::Open => {},
        }
    }

    /// Notes that an operation failed now.
    pub fn record_failure(&mut self)
        ensures
            exists|now: nat|
                final(self)@ == #[trigger] failed(old(self)@, now) && old(self)@.epoch.shows(now),
    {
        let now: Instant = self.epoch.now();
        self.record_failure_at(now);
    }

    /// Notes that an operation failed at `now`.
    pub fn record_failure_at(&mut self, now: Instant)
        ensures
            final(self)@ == failed(old(self)@, now@),
    {
        let failures: u64 = self.consecutive_failures.saturating_add(1);
        self.consecutive_failures = failures;
        self.last_failure_time_nanos = saturate_u64(now.as_nanos());
        match self.state {
            CircuitState::HalfOpen => {
                self.state = CircuitState::Open;
            },
            CircuitState::Closed => {
                if failures >= self.config.failure_threshold as u64 {
                    self.state = CircuitState::Open;
                }
            },
            CircuitState::Open => {},
        }
    }

    /// When the last failure was.
    fn last_failure_time(&self) -> (t: Instant)
        ensures
            t@ == self@.last_failure,
    {
        Instant::from_nanos(self.last_failure_time_nanos as u128)
    }

    /// How many failures there were in a row.
    pub fn consecutive_failures(&self) -> (n: u64)
        ensures
            n == self@.failures,
    {
        self.consecutive_failures
    }

    /// Closes the circuit and forgets the failures.
    pub fn reset(&mut self)
        ensures
            final(self)@ == (BreakerModel {
                state: CircuitState::Closed,
                failures: 0,
                ..old(self)@
            }),
    {
        self.state = CircuitState::Closed;
        self.consecutive_failures = 0;
    }
}

// ---------------------------------------------------------------------------------------------
// Laws
// ---------------------------------------------------------------------------------------------

/// The circuit breaker after failures at these times, in a row.
pub open spec fn failed_all(m: BreakerModel, times: Seq<nat>) -> BreakerModel
    decreases times.len(),
{
    if times.len() == 0 {
        m
    } else {
        failed(failed_all(m, times.drop_last()), times.last())
    }
}

/// A closed circuit opens with the failure that reaches the threshold, and not before.
pub proof fn law_threshold_opens_circuit(
    config: CircuitBreakerConfig,
    epoch: Epoch,
    times: Seq<nat>,
)
    requires
        times.len() <= u64::MAX,
    ensures
        ({
            let m = failed_all(fresh_breaker(config, epoch), times);
            &&& m.failures == times.len()
            &&& m.config == config
            &&& m.epoch == epoch
            &&& times.len() > 0 ==> (m.state == CircuitState::Open <==> times.len()
                >= config.failure_threshold)
            &&& times.len() == 0 || times.len() < config.failure_threshold ==> m.state
                == CircuitState::Closed
        }),
    decreases times.len(),
{
    if times.len() > 0 {
        law_threshold_opens_circuit(config, epoch, times.drop_last());
    }
}

/// An open circuit admits nothing before the recovery timeout is over; then it goes half open,
/// from where one success closes it and one failure opens it again.
pub proof fn law_recovery(m: BreakerModel, now: nat)
    requires
        m.state == CircuitState::Open,
    ensures
        elapsed(m.last_failure as nat, now) < m.config.recovery_timeout@ ==> !admits(m, now)
            && asked(m, now) == m,
        elapsed(m.last_failure as nat, now) >= m.config.recovery_timeout@ ==> {
            &&& admits(m, now)
            &&& asked(m, now).state == CircuitState::HalfOpen
            &&& succeeded(asked(m, now)).state == CircuitState::Closed
            &&& succeeded(asked(m, now)).failures == 0
            &&& failed(asked(m, now), now).state == CircuitState::Open
        },
{
}

/// A success in between starts the count of failures over.
pub proof fn law_success_clears_failures(m: BreakerModel)
    requires
        m.state != CircuitState::Open,
    ensures
        succeeded(m).failures == 0,
        succeeded(m).state == CircuitState::Closed,
{
}

/// After a failure, in whatever state, an open circuit admits nothing before the recovery timeout
/// has passed since that failure, and then admits operations again.
pub proof fn law_open_circuit_waits_from_the_last_failure(m: BreakerModel, at: nat, now: nat)
    requires
        at <= u64::MAX,
        failed(m, at).state == CircuitState::Open,
    ensures
        at <= now < at + m.config.recovery_timeout@ ==> !admits(failed(m, at), now),
        now < at && m.config.recovery_timeout@ > 0 ==> !admits(failed(m, at), now),
        now >= at + m.config.recovery_timeout@ ==> admits(failed(m, at), now),
{
}

/// A circuit that is not open admits everything, and does not change by it.
pub proof fn law_only_an_open_circuit_holds_back(m: BreakerModel, now: nat)
    ensures
        m.state != CircuitState::Open ==> admits(m, now) && asked(m, now) == m,
        m.state == CircuitState::Open ==> (asked(m, now).state == CircuitState::HalfOpen
            <==> admits(m, now)) && (asked(m, now).state == CircuitState::Open <==> !admits(
            m,
            now,
        )),
        asked(m, now).failures == m.failures,
        asked(m, now).last_failure == m.last_failure,
        asked(m, now).config == m.config,
        asked(m, now).epoch == m.epoch,
{
}

/// Something that happens to a circuit breaker.
pub enum BreakerStep {
    /// It is asked at a time.
    Ask(nat),
    /// An operation went well.
    Success,
    /// An operation failed at a time.
    Failure(nat),
}

/// The circuit breaker after all this, one after the other.
pub open spec fn breaker_run(m: BreakerModel, steps: Seq<BreakerStep>) -> BreakerModel
    decreases steps.len(),
{
    if steps.len() == 0 {
        m
    } else {
        let before = breaker_run(m, steps.drop_last());
        match steps.last() {
            BreakerStep::Ask(now) => asked(before, now),
            BreakerStep::Success => succeeded(before),
            BreakerStep::Failure(now) => failed(before, now),
        }
    }
}

/// When the last failure was, if there was one.
pub open spec fn last_failure_of(steps: Seq<BreakerStep>) -> Option<nat>
    decreases steps.len(),
{
    if steps.len() == 0 {
        None
    } else {
        match steps.last() {
            BreakerStep::Failure(at) => Some(at),
            _ => last_failure_of(steps.drop_last()),
        }
    }
}

/// How many failures there were since the last success that came while the circuit was not open.
pub open spec fn failures_in_a_row(m: BreakerModel, steps: Seq<BreakerStep>) -> nat
    decreases steps.len(),
{
    if steps.len() == 0 {
        0
    } else {
        let before = failures_in_a_row(m, steps.drop_last());
        match steps.last() {
            BreakerStep::Ask(_) => before,
            BreakerStep::Success => if breaker_run(m, steps.drop_last()).state
                == CircuitState::Open {
                before
            } else {
                0
            },
            BreakerStep::Failure(_) => before + 1,
        }
    }
}

/// The state that a closed circuit is in after all this, step by step: a failure opens it if it is
/// half open, or if it is closed and enough failures have come in a row; being asked once the
/// timeout has passed since the last failure makes an open circuit half open; a success closes a
/// circuit that is half open; and nothing else changes it.
pub open spec fn expected_state(m: BreakerModel, steps: Seq<BreakerStep>) -> CircuitState
    decreases steps.len(),
{
    if steps.len() == 0 {
        CircuitState::Closed
    } else {
        let before = expected_state(m, steps.drop_last());
        match steps.last() {
            BreakerStep::Ask(now) => if before == CircuitState::Open && (
            m.config.recovery_timeout@ == 0 || now >= last_failure_of(steps.drop_last())->0
                + m.config.recovery_timeout@) {
                CircuitState::HalfOpen
            } else {
                before
            },
            BreakerStep::Success => if before == CircuitState::HalfOpen {
                CircuitState::Closed
            } else {
                before
            },
            BreakerStep::Failure(_) => if before == CircuitState::Closed && failures_in_a_row(
                m,
                steps,
            ) < m.config.failure_threshold {
                CircuitState::Closed
            } else {
                CircuitState::Open
            },
        }
    }
}

/// Whether all failures were at times that can be kept.
pub open spec fn failure_times_fit(steps: Seq<BreakerStep>) -> bool {
    forall|i: int|
        0 <= i < steps.len() ==> ((#[trigger] steps[i]) matches BreakerStep::Failure(at) ==> at
            <= u64::MAX)
}

/// The whole life of a circuit breaker that starts closed and without failures: it counts the
/// failures in a row, remembers the last one, and is in the state that these call for. It admits an
/// operation unless it is open and the timeout has not passed since the last failure.
pub proof fn law_circuit_breaker_follows_failures(
    m: BreakerModel,
    steps: Seq<BreakerStep>,
    now: nat,
)
    requires
        m == fresh_breaker(m.config, m.epoch),
        steps.len() < u64::MAX,
        failure_times_fit(steps),
    ensures
        ({
            let after = breaker_run(m, steps);
            &&& after.state == expected_state(m, steps)
            &&& after.failures == failures_in_a_row(m, steps)
            &&& after.config == m.config
            &&& after.epoch == m.epoch
            &&& last_failure_of(steps) matches Some(at) ==> after.last_failure == at
            &&& after.state != CircuitState::Closed ==> last_failure_of(steps) is Some
            &&& admits(after, now) <==> (after.state == CircuitState::Open
                && m.config.recovery_timeout@ > 0 ==> now >= last_failure_of(steps)->0
                + m.config.recovery_timeout@)
        }),
        failures_in_a_row(m, steps) <= steps.len(),
    decreases steps.len(),
{
    if steps.len() > 0 {
        let before = steps.drop_last();
        assert forall|i: int| 0 <= i < before.len() implies ((#[trigger] before[i]) matches
            BreakerStep::Failure(at) ==> at <= u64::MAX) by {
            assert(steps[i] == before[i]);
        }
        assert(steps[steps.len() - 1] == steps.last());
        law_circuit_breaker_follows_failures(m, before, now);
        if let BreakerStep::Ask(at) = steps.last() {
            law_circuit_breaker_follows_failures(m, before, at);
        }
    }
}

/// A circuit breaker is made closed, and has seen no failure.
pub proof fn law_circuit_breaker_is_made_closed(
    config: CircuitBreakerConfig,
    epoch: Epoch,
    now: nat,
)
    ensures
        ({
            let m = fresh_breaker(config, epoch);
            &&& m.state == CircuitState::Closed
            &&& m.failures == 0
            &&& m.config == config
            &&& m.epoch == epoch
            &&& admits(m, now)
        }),
{
}

/// A success while the circuit is open, which can only belong to an operation that began before,
/// changes nothing; a failure always counts.
pub proof fn law_late_results_of_an_open_circuit(m: BreakerModel, at: nat)
    requires
        m.state == CircuitState::Open,
    ensures
        succeeded(m) == m,
        failed(m, at).state == CircuitState::Open,
        m.failures < u64::MAX ==> failed(m, at).failures == m.failures + 1,
        m.failures == u64::MAX ==> failed(m, at).failures == u64::MAX,
{
}

/// Every failure is counted and remembered with its time, cut off at the largest number, in
/// whatever state the circuit is.
pub proof fn law_every_failure_is_remembered(m: BreakerModel, at: nat)
    ensures
        at <= u64::MAX ==> failed(m, at).last_failure == at,
        at > u64::MAX ==> failed(m, at).last_failure == u64::MAX,
        m.failures < u64::MAX ==> failed(m, at).failures == m.failures + 1,
        m.failures == u64::MAX ==> failed(m, at).failures == u64::MAX,
        failed(m, at).config == m.config,
        failed(m, at).epoch == m.epoch,
        succeeded(m).last_failure == m.last_failure,
        succeeded(m).config == m.config,
        succeeded(m).epoch == m.epoch,
{
}

} // verus!
