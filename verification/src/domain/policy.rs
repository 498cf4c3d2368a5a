//! Rate limiting policies.
//!
//! A policy looks at the events of one signature, one after the other, and decides of each
//! whether it is emitted or suppressed. Every policy is described by a small model (what its
//! `view` gives) and by two functions on that model: the decision that it takes on the next
//! event, and the state that it is in afterwards.
use crate::time::{elapsed, Duration, Instant};
use std::collections::VecDeque;
use vstd::prelude::*;

verus! {

/// Why a policy cannot be built from the given parameters.
#[derive(Debug, Clone, Copy, PartialEq, Eq, Structural)]
pub enum PolicyError {
    /// The maximum count must be greater than zero.
    ZeroMaxCount,
    /// The maximum number of events must be greater than zero.
    ZeroMaxEvents,
    /// The time window must be longer than zero.
    ZeroWindowDuration,
    /// The bucket must hold at least one token.
    ZeroCapacity,
    /// At least one token must be refilled per second.
    ZeroRefillRate,
}

/// The text of a [`PolicyError`].
pub open spec fn policy_error_text(error: PolicyError) -> Seq<char> {
    match error {
        PolicyError::ZeroMaxCount => "max_count must be greater than 0"@,
        PolicyError::ZeroMaxEvents => "max_events must be greater than 0"@,
        PolicyError::ZeroWindowDuration => "window duration must be greater than 0"@,
        PolicyError::ZeroCapacity => "capacity must be greater than 0"@,
        PolicyError::ZeroRefillRate => "refill_rate must be greater than 0"@,
    }
}

impl PolicyError {
    /// The error as a sentence for people.
    pub fn to_string(&self) -> (text: String)
        ensures
            text@ == policy_error_text(*self),
    {
        match self {
            PolicyError::ZeroMaxCount => "max_count must be greater than 0".to_owned(),
            PolicyError::ZeroMaxEvents => "max_events must be greater than 0".to_owned(),
            PolicyError::ZeroWindowDuration => "window duration must be greater than 0".to_owned(),
            PolicyError::ZeroCapacity => "capacity must be greater than 0".to_owned(),
            PolicyError::ZeroRefillRate => "refill_rate must be greater than 0".to_owned(),
        }
    }
}

/// What a policy decides about one event.
#[derive(Debug, Clone, Copy, PartialEq, Eq, Structural)]
pub enum PolicyDecision {
    /// The event is emitted.
    Allow,
    /// The event is not emitted.
    Suppress,
}

impl PolicyDecision {
    /// Whether the event is emitted.
    pub fn is_allow(&self) -> (r: bool)
        ensures
            r == (*self == PolicyDecision::Allow),
    {
        matches!(self, PolicyDecision::Allow)
    }

    /// Whether the event is suppressed.
    pub fn is_suppress(&self) -> (r: bool)
        ensures
            r == (*self == PolicyDecision::Suppress),
    {
        matches!(self, PolicyDecision::Suppress)
    }
}

/// A decision, from whether the event may pass.
pub open spec fn allow_if(may_pass: bool) -> PolicyDecision {
    if may_pass {
        PolicyDecision::Allow
    } else {
        PolicyDecision::Suppress
    }
}

/// A rule that decides event by event whether to emit.
///
/// The rule is given by functions on the policy's model: an implementation says what it decides
/// and how its state moves on, and its executable methods are held to that.
pub trait RateLimitPolicy: Sized + Send + Sync {
    /// The model.
    type State;

    /// The model of the present state.
    open spec fn state(&self) -> Self::State {
        arbitrary()
    }

    /// Whether one more event can be registered at all. A policy that counts events has an end
    /// to its counter.
    open spec fn has_room(state: Self::State) -> bool {
        true
    }

    /// What is decided about an event at `now`.
    open spec fn decision(state: Self::State, now: nat) -> PolicyDecision {
        arbitrary()
    }

    /// The state once an event at `now` has been registered.
    open spec fn advanced(state: Self::State, now: nat) -> Self::State {
        arbitrary()
    }

    /// The state after a reset.
    open spec fn cleared(state: Self::State) -> Self::State {
        arbitrary()
    }

    /// Whether [`RateLimitPolicy::register_event`] may be called.
    fn can_register(&self) -> (r: bool)
        ensures
            r == Self::has_room(self.state()),
    ;

    /// Registers an event and decides whether it is emitted.
    fn register_event(&mut self, timestamp: Instant) -> (decision: PolicyDecision)
        requires
            Self::has_room(old(self).state()),
        ensures
            decision == Self::decision(old(self).state(), timestamp@),
            final(self).state() == Self::advanced(old(self).state(), timestamp@),
    ;

    /// Forgets all registered events.
    fn reset(&mut self)
        ensures
            final(self).state() == Self::cleared(old(self).state()),
    ;
}

// ---------------------------------------------------------------------------------------------
// Count based
// ---------------------------------------------------------------------------------------------

/// Model of [`CountBasedPolicy`].
pub struct CountModel {
    /// How many events are allowed.
    pub max_count: usize,
    /// How many events have been registered.
    pub registered: usize,
}

/// Allows the first `max_count` events and suppresses all that follow.
#[derive(Debug, PartialEq, Eq)]
pub struct CountBasedPolicy {
    max_count: usize,
    current_count: usize,
}

impl View for CountBasedPolicy {
    type V = CountModel;

    closed spec fn view(&self) -> CountModel {
        CountModel { max_count: self.max_count, registered: self.current_count }
    }
}

impl Clone for CountBasedPolicy {
    fn clone(&self) -> (r: Self)
        ensures
            r@ == self@,
    {
        CountBasedPolicy { max_count: self.max_count, current_count: self.current_count }
    }
}

impl CountBasedPolicy {
    /// A policy that allows `max_count` events, which must not be zero.
    pub fn new(max_count: usize) -> (r: Result<Self, PolicyError>)
        ensures
            max_count == 0 ==> r == Err::<Self, PolicyError>(PolicyError::ZeroMaxCount),
            max_count != 0 ==> r is Ok && r->Ok_0@ == (CountModel { max_count, registered: 0 }),
    {
        if max_count == 0 {
            return Err(PolicyError::ZeroMaxCount);
        }
        Ok(CountBasedPolicy { max_count, current_count: 0 })
    }

    /// A policy in the middle of its work: of `max_count` events, `current_count` have already
    /// been registered.
    pub fn from_parts(max_count: usize, current_count: usize) -> (r: Self)
        ensures
            r@ == (CountModel { max_count, registered: current_count }),
    {
        CountBasedPolicy { max_count, current_count }
    }

    /// How many events are allowed.
    pub fn max_count(&self) -> (n: usize)
        ensures
            n == self@.max_count,
    {
        self.max_count
    }

    /// How many events have been registered.
    pub fn current_count(&self) -> (n: usize)
        ensures
            n == self@.registered,
    {
        self.current_count
    }
}

impl RateLimitPolicy for CountBasedPolicy {
    type State = CountModel;

    open spec fn state(&self) -> CountModel {
        self@
    }

    open spec fn has_room(state: CountModel) -> bool {
        state.registered < usize::MAX
    }

    open spec fn decision(state: CountModel, now: nat) -> PolicyDecision {
        allow_if(state.registered < state.max_count)
    }

    open spec fn advanced(state: CountModel, now: nat) -> CountModel {
        CountModel { registered: (state.registered + 1) as usize, ..state }
    }

    open spec fn cleared(state: CountModel) -> CountModel {
        CountModel { registered: 0, ..state }
    }

    fn can_register(&self) -> (r: bool) {
        self.current_count < usize::MAX
    }

    fn register_event(&mut self, timestamp: Instant) -> (decision: PolicyDecision) {
        self.current_count = self.current_count + 1;
        if self.current_count <= self.max_count {
            PolicyDecision::Allow
        } else {
            PolicyDecision::Suppress
        }
    }

    fn reset(&mut self) {
        self.current_count = 0;
    }
}

// ---------------------------------------------------------------------------------------------
// Time window
// ---------------------------------------------------------------------------------------------

/// Model of [`TimeWindowPolicy`].
#[verifier::ext_equal]
pub struct WindowModel {
    /// How many events are allowed within one window.
    pub max_events: usize,
    /// Length of the window in nanoseconds.
    pub window: nat,
    /// When the events that still count were allowed, oldest first.
    pub times: Seq<nat>,
}

/// The times that are left once all that lie more than `window` before `now` have been taken
/// off the front.
pub open spec fn unexpired(times: Seq<nat>, window: nat, now: nat) -> Seq<nat>
    decreases times.len(),
{
    if times.len() > 0 && elapsed(times[0], now) > window {
        unexpired(times.drop_first(), window, now)
    } else {
        times
    }
}

/// Instants by their distance from the base point.
pub open spec fn instants_view(instants: Seq<Instant>) -> Seq<nat> {
    instants.map_values(|t: Instant| t@)
}

/// Allows up to `max_events` events within a sliding window of time.
#[derive(Debug, PartialEq, Eq)]
pub struct TimeWindowPolicy {
    max_events: usize,
    window_duration: Duration,
    event_timestamps: VecDeque<Instant>,
}

impl View for TimeWindowPolicy {
    type V = WindowModel;

    closed spec fn view(&self) -> WindowModel {
        WindowModel {
            max_events: self.max_events,
            window: self.window_duration@,
            times: instants_view(self.event_timestamps@),
        }
    }
}

impl Clone for TimeWindowPolicy {
    fn clone(&self) -> (r: Self)
        ensures
            r@ == self@,
    {
        let mut event_timestamps: VecDeque<Instant> = VecDeque::new();
        let mut i: usize = 0;
        while i < self.event_timestamps.len()
            invariant
                i <= self.event_timestamps@.len(),
                event_timestamps@ == self.event_timestamps@.take(i as int),
            decreases self.event_timestamps@.len() - i,
        {
            event_timestamps.push_back(self.event_timestamps[i]);
            assert(event_timestamps@ =~= self.event_timestamps@.take(i + 1));
            i = i + 1;
        }
        assert(event_timestamps@ =~= self.event_timestamps@);
        TimeWindowPolicy {
            max_events: self.max_events,
            window_duration: self.window_duration,
            event_timestamps,
        }
    }
}

impl TimeWindowPolicy {
    /// A policy that allows `max_events` events, which must not be zero, within any span of
    /// `window_duration`, which must not be empty.
    pub fn new(max_events: usize, window_duration: Duration) -> (r: Result<Self, PolicyError>)
        ensures
            max_events == 0 ==> r == Err::<Self, PolicyError>(PolicyError::ZeroMaxEvents),
            max_events != 0 && window_duration@ == 0 ==> r == Err::<Self, PolicyError>(
                PolicyError::ZeroWindowDuration,
            ),
            max_events != 0 && window_duration@ != 0 ==> r is Ok && r->Ok_0@ == (WindowModel {
                max_events,
                window: window_duration@,
                times: Seq::empty(),
            }),
    {
        if max_events == 0 {
            return Err(PolicyError::ZeroMaxEvents);
        }
        if window_duration.is_zero() {
            return Err(PolicyError::ZeroWindowDuration);
        }
        let r = TimeWindowPolicy { max_events, window_duration, event_timestamps: VecDeque::new() };
        assert(r@.times =~= Seq::empty());
        Ok(r)
    }

    /// A policy that has already allowed events, of which those at `event_timestamps` still
    /// count.
    pub fn from_parts(
        max_events: usize,
        window_duration: Duration,
        event_timestamps: VecDeque<Instant>,
    ) -> (r: Self)
        ensures
            r@ == (WindowModel {
                max_events,
                window: window_duration@,
                times: instants_view(event_timestamps@),
            }),
    {
        TimeWindowPolicy { max_events, window_duration, event_timestamps }
    }

    /// How many events are allowed within one window.
    pub fn max_events(&self) -> (n: usize)
        ensures
            n == self@.max_events,
    {
        self.max_events
    }

    /// The length of the window.
    pub fn window_duration(&self) -> (d: Duration)
        ensures
            d@ == self@.window,
    {
        self.window_duration
    }

    /// When the events that still count were allowed, oldest first.
    pub fn event_timestamps(&self) -> (times: &VecDeque<Instant>)
        ensures
            instants_view(times@) == self@.times,
    {
        &self.event_timestamps
    }

    /// Takes the events that have left the window off the front.
    fn expire_old_events(&mut self, current_time: Instant)
        ensures
            final(self)@ == (WindowModel {
                times: unexpired(old(self)@.times, old(self)@.window, current_time@),
                ..old(self)@
            }),
    {
        let ghost start = self@;
        while self.event_timestamps.len() > 0
            invariant
                self@.max_events == start.max_events,
                self@.window == start.window,
                unexpired(self@.times, start.window, current_time@) == unexpired(
                    start.times,
                    start.window,
                    current_time@,
                ),
            ensures
                self@.times == unexpired(start.times, start.window, current_time@),
            decreases self.event_timestamps@.len(),
        {
            let oldest: Instant = self.event_timestamps[0];
            let age: u128 = current_time.saturating_duration_since(oldest).as_nanos();
            if age > self.window_duration.as_nanos() {
                let ghost before = self@.times;
                self.event_timestamps.pop_front();
                assert(self@.times =~= before.drop_first());
            } else {
                break;
            }
        }
    }
}

impl RateLimitPolicy for TimeWindowPolicy {
    type State = WindowModel;

    open spec fn state(&self) -> WindowModel {
        self@
    }

    open spec fn has_room(state: WindowModel) -> bool {
        true
    }

    open spec fn decision(state: WindowModel, now: nat) -> PolicyDecision {
        allow_if(unexpired(state.times, state.window, now).len() < state.max_events)
    }

    open spec fn advanced(state: WindowModel, now: nat) -> WindowModel {
        let kept = unexpired(state.times, state.window, now);
        WindowModel {
            times: if kept.len() < state.max_events {
                kept.push(now)
            } else {
                kept
            },
            ..state
        }
    }

    open spec fn cleared(state: WindowModel) -> WindowModel {
        WindowModel { times: Seq::empty(), ..state }
    }

    fn can_register(&self) -> (r: bool) {
        true
    }

    fn register_event(&mut self, timestamp: Instant) -> (decision: PolicyDecision) {
        self.expire_old_events(timestamp);
        if self.event_timestamps.len() < self.max_events {
            let ghost kept = self@.times;
            self.event_timestamps.push_back(timestamp);
            assert(self@.times =~= kept.push(timestamp@));
            PolicyDecision::Allow
        } else {
            PolicyDecision::Suppress
        }
    }

    fn reset(&mut self) {
        self.event_timestamps.clear();
        assert(self@.times =~= Seq::empty());
    }
}

// ---------------------------------------------------------------------------------------------
// Exponential backoff
// ---------------------------------------------------------------------------------------------

/// Model of [`ExponentialBackoffPolicy`].
pub struct BackoffModel {
    /// How many events have been registered.
    pub registered: u64,
    /// The number of the next event that is allowed, counting from one.
    pub next_allowed: u64,
}

/// Twice `n`, cut off at the largest `u64`.
pub open spec fn saturating_double(n: u64) -> u64 {
    if 2 * n <= u64::MAX {
        (2 * n) as u64
    } else {
        u64::MAX
    }
}

/// Allows the 1st, 2nd, 4th, 8th, 16th event and so on.
#[derive(Debug, PartialEq, Eq)]
pub struct ExponentialBackoffPolicy {
    event_count: u64,
    next_allowed: u64,
}

impl View for ExponentialBackoffPolicy {
    type V = BackoffModel;

    closed spec fn view(&self) -> BackoffModel {
        BackoffModel { registered: self.event_count, next_allowed: self.next_allowed }
    }
}

impl Clone for ExponentialBackoffPolicy {
    fn clone(&self) -> (r: Self)
        ensures
            r@ == self@,
    {
        ExponentialBackoffPolicy { event_count: self.event_count, next_allowed: self.next_allowed }
    }
}

impl Default for ExponentialBackoffPolicy {
    fn default() -> (r: Self)
        ensures
            r@ == (BackoffModel { registered: 0, next_allowed: 1 }),
    {
        ExponentialBackoffPolicy::new()
    }
}

impl ExponentialBackoffPolicy {
    /// A policy that has seen no event.
    pub fn new() -> (r: Self)
        ensures
            r@ == (BackoffModel { registered: 0, next_allowed: 1 }),
    {
        ExponentialBackoffPolicy { event_count: 0, next_allowed: 1 }
    }

    /// A policy in the middle of its work.
    pub fn from_parts(event_count: u64, next_allowed: u64) -> (r: Self)
        ensures
            r@ == (BackoffModel { registered: event_count, next_allowed }),
    {
        ExponentialBackoffPolicy { event_count, next_allowed }
    }

    /// How many events have been registered.
    pub fn event_count(&self) -> (n: u64)
        ensures
            n == self@.registered,
    {
        self.event_count
    }

    /// The number of the next event that is allowed, counting from one.
    pub fn next_allowed(&self) -> (n: u64)
        ensures
            n == self@.next_allowed,
    {
        self.next_allowed
    }
}

impl RateLimitPolicy for ExponentialBackoffPolicy {
    type State = BackoffModel;

    open spec fn state(&self) -> BackoffModel {
        self@
    }

    open spec fn has_room(state: BackoffModel) -> bool {
        state.registered < u64::MAX
    }

    open spec fn decision(state: BackoffModel, now: nat) -> PolicyDecision {
        allow_if(state.registered + 1 == state.next_allowed)
    }

    open spec fn advanced(state: BackoffModel, now: nat) -> BackoffModel {
        BackoffModel {
            registered: (state.registered + 1) as u64,
            next_allowed: if state.registered + 1 == state.next_allowed {
                saturating_double(state.next_allowed)
            } else {
                state.next_allowed
            },
        }
    }

    open spec fn cleared(state: BackoffModel) -> BackoffModel {
        BackoffModel { registered: 0, next_allowed: 1 }
    }

    fn can_register(&self) -> (r: bool) {
        self.event_count < u64::MAX
    }

    fn register_event(&mut self, timestamp: Instant) -> (decision: PolicyDecision) {
        self.event_count = self.event_count + 1;
        if self.event_count == self.next_allowed {
            self.next_allowed = match self.next_allowed.checked_mul(2) {
                Some(n) => n,
                None => u64::MAX,
            };
            PolicyDecision::Allow
        } else {
            PolicyDecision::Suppress
        }
    }

    fn reset(&mut self) {
        self.event_count = 0;
        self.next_allowed = 1;
    }
}

// ---------------------------------------------------------------------------------------------
// Token bucket
// ---------------------------------------------------------------------------------------------

/// A billionth of a token, in the unit in which a bucket is filled. A refill of one billionth per
/// second is one unit per nanosecond.
pub const BILLIONTH: u128 = 1_000_000_000;

/// One token, in the unit in which a bucket is filled.
pub const TOKEN: u128 = 1_000_000_000_000_000_000;

/// How many billionths a token has.
pub const BILLIONTHS_PER_TOKEN: u128 = 1_000_000_000;

/// Model of [`TokenBucketPolicy`].
pub struct BucketModel {
    /// What the bucket holds when it is full, in billionths of a token.
    pub capacity: u128,
    /// What is refilled per second, in billionths of a token.
    pub refill_rate: u128,
    /// What is in the bucket. A token is [`TOKEN`] units.
    pub level: nat,
    /// When the bucket was last refilled: never before the first event.
    pub last_refill: Option<nat>,
}

/// The later of the last refill and `now`: where time runs backwards, nothing is refilled twice.
pub open spec fn refilled_at(state: BucketModel, now: nat) -> nat {
    match state.last_refill {
        Some(last) => if last >= now {
            last
        } else {
            now
        },
        None => now,
    }
}

/// What is in a full bucket, as far as it can be counted.
pub open spec fn full_level(capacity: u128) -> nat {
    if capacity * BILLIONTH <= u128::MAX {
        (capacity * BILLIONTH) as nat
    } else {
        u128::MAX as nat
    }
}

/// What is in the bucket at `now`, once it has been refilled.
pub open spec fn refilled(state: BucketModel, now: nat) -> nat {
    let gained = match state.last_refill {
        Some(last) => elapsed(last, now) * state.refill_rate as nat,
        None => 0,
    };
    if state.level + gained <= full_level(state.capacity) {
        state.level + gained
    } else {
        full_level(state.capacity)
    }
}

/// Allows events as long as there are tokens in a bucket that is refilled at a steady rate.
///
/// Each allowed event takes one token. A full bucket lets a burst of `capacity` events pass.
#[derive(Debug, PartialEq, Eq)]
pub struct TokenBucketPolicy {
    capacity: u128,
    refill_rate: u128,
    level: u128,
    last_refill: Option<Instant>,
}

impl View for TokenBucketPolicy {
    type V = BucketModel;

    closed spec fn view(&self) -> BucketModel {
        BucketModel {
            capacity: self.capacity,
            refill_rate: self.refill_rate,
            level: self.level as nat,
            last_refill: match self.last_refill {
                Some(t) => Some(t@),
                None => None,
            },
        }
    }
}

impl Clone for TokenBucketPolicy {
    fn clone(&self) -> (r: Self)
        ensures
            r@ == self@,
    {
        TokenBucketPolicy {
            capacity: self.capacity,
            refill_rate: self.refill_rate,
            level: self.level,
            last_refill: self.last_refill,
        }
    }
}

impl TokenBucketPolicy {
    /// A full bucket of `capacity` tokens that gains `refill_rate` tokens per second. Neither
    /// may be zero.
    pub fn new(capacity: u64, refill_rate: u64) -> (r: Result<Self, PolicyError>)
        ensures
            capacity == 0 ==> r == Err::<Self, PolicyError>(PolicyError::ZeroCapacity),
            capacity != 0 && refill_rate == 0 ==> r == Err::<Self, PolicyError>(
                PolicyError::ZeroRefillRate,
            ),
            capacity != 0 && refill_rate != 0 ==> r is Ok && r->Ok_0@ == (BucketModel {
                capacity: (capacity * BILLIONTHS_PER_TOKEN) as u128,
                refill_rate: (refill_rate * BILLIONTHS_PER_TOKEN) as u128,
                level: (capacity * TOKEN) as nat,
                last_refill: None,
            }),
    {
        TokenBucketPolicy::of_billionths(
            (capacity as u128) * BILLIONTHS_PER_TOKEN,
            (refill_rate as u128) * BILLIONTHS_PER_TOKEN,
        )
    }

    /// The level of a full bucket.
    fn full(capacity: u128) -> (level: u128)
        ensures
            level == full_level(capacity),
    {
        match capacity.checked_mul(BILLIONTH) {
            Some(level) => level,
            None => u128::MAX,
        }
    }

    /// A full bucket of `capacity` billionths of a token that gains `refill_rate` billionths of a
    /// token per second. Neither may be zero.
    pub fn of_billionths(capacity: u128, refill_rate: u128) -> (r: Result<Self, PolicyError>)
        ensures
            capacity == 0 ==> r == Err::<Self, PolicyError>(PolicyError::ZeroCapacity),
            capacity != 0 && refill_rate == 0 ==> r == Err::<Self, PolicyError>(
                PolicyError::ZeroRefillRate,
            ),
            capacity != 0 && refill_rate != 0 ==> r is Ok && r->Ok_0@ == (BucketModel {
                capacity,
                refill_rate,
                level: full_level(capacity),
                last_refill: None,
            }),
    {
        if capacity == 0 {
            return Err(PolicyError::ZeroCapacity);
        }
        if refill_rate == 0 {
            return Err(PolicyError::ZeroRefillRate);
        }
        Ok(
            TokenBucketPolicy {
                capacity,
                refill_rate,
                level: Self::full(capacity),
                last_refill: None,
            },
        )
    }

    /// A bucket in the middle of its work. When it was last refilled is not known.
    pub fn from_parts(capacity: u128, refill_rate: u128, level: u128) -> (r: Self)
        ensures
            r@ == (BucketModel {
                capacity,
                refill_rate,
                level: level as nat,
                last_refill: None,
            }),
    {
        TokenBucketPolicy { capacity, refill_rate, level, last_refill: None }
    }

    /// What the bucket holds when it is full, in billionths of a token.
    pub fn capacity(&self) -> (n: u128)
        ensures
            n == self@.capacity,
    {
        self.capacity
    }

    /// What is refilled per second, in billionths of a token.
    pub fn refill_rate(&self) -> (n: u128)
        ensures
            n == self@.refill_rate,
    {
        self.refill_rate
    }

    /// What is in the bucket. A token is [`TOKEN`] units.
    pub fn level(&self) -> (n: u128)
        ensures
            n == self@.level,
    {
        self.level
    }

    /// Refills the bucket with what has come in since the last time.
    fn refill(&mut self, now: Instant)
        ensures
            final(self)@ == (BucketModel {
                level: refilled(old(self)@, now@),
                last_refill: Some(refilled_at(old(self)@, now@)),
                ..old(self)@
            }),
    {
        let gained: u128 = match self.last_refill {
            Some(last) => {
                let span: u128 = now.saturating_duration_since(last).as_nanos();
                assert(elapsed(last@, now@) * self.refill_rate as nat == span
                    * self.refill_rate);
                match span.checked_mul(self.refill_rate) {
                    Some(gained) => gained,
                    None => u128::MAX,
                }
            },
            None => 0,
        };
        let full: u128 = Self::full(self.capacity);
        let level: u128 = self.level.saturating_add(gained);
        self.level = if level <= full {
            level
        } else {
            full
        };
        let refilled_at: Instant = match self.last_refill {
            Some(last) => {
                if last.as_nanos() >= now.as_nanos() {
                    last
                } else {
                    now
                }
            },
            None => now,
        };
        self.last_refill = Some(refilled_at);
    }
}

impl RateLimitPolicy for TokenBucketPolicy {
    type State = BucketModel;

    open spec fn state(&self) -> BucketModel {
        self@
    }

    open spec fn has_room(state: BucketModel) -> bool {
        true
    }

    open spec fn decision(state: BucketModel, now: nat) -> PolicyDecision {
        allow_if(refilled(state, now) >= TOKEN)
    }

    open spec fn advanced(state: BucketModel, now: nat) -> BucketModel {
        let level = refilled(state, now);
        BucketModel {
            level: if level >= TOKEN {
                (level - TOKEN) as nat
            } else {
                level
            },
            last_refill: Some(refilled_at(state, now)),
            ..state
        }
    }

    open spec fn cleared(state: BucketModel) -> BucketModel {
        BucketModel { level: full_level(state.capacity), last_refill: None, ..state }
    }

    fn can_register(&self) -> (r: bool) {
        true
    }

    fn register_event(&mut self, timestamp: Instant) -> (decision: PolicyDecision) {
        self.refill(timestamp);
        if self.level >= TOKEN {
            self.level = self.level - TOKEN;
            PolicyDecision::Allow
        } else {
            PolicyDecision::Suppress
        }
    }

    fn reset(&mut self) {
        self.level = Self::full(self.capacity);
        self.last_refill = None;
    }
}

// ---------------------------------------------------------------------------------------------
// All of them
// ---------------------------------------------------------------------------------------------

/// Model of [`Policy`].
pub enum PolicyModel {
    /// Count based.
    CountBased(CountModel),
    /// Time window.
    TimeWindow(WindowModel),
    /// Exponential backoff.
    ExponentialBackoff(BackoffModel),
    /// Token bucket.
    TokenBucket(BucketModel),
}

/// One of the policies that come with the library.
#[derive(Debug, PartialEq, Eq)]
pub enum Policy {
    /// Count based.
    CountBased(CountBasedPolicy),
    /// Time window.
    TimeWindow(TimeWindowPolicy),
    /// Exponential backoff.
    ExponentialBackoff(ExponentialBackoffPolicy),
    /// Token bucket.
    TokenBucket(TokenBucketPolicy),
}

impl View for Policy {
    type V = PolicyModel;

    open spec fn view(&self) -> PolicyModel {
        match self {
            Policy::CountBased(p) => PolicyModel::CountBased(p@),
            Policy::TimeWindow(p) => PolicyModel::TimeWindow(p@),
            Policy::ExponentialBackoff(p) => PolicyModel::ExponentialBackoff(p@),
            Policy::TokenBucket(p) => PolicyModel::TokenBucket(p@),
        }
    }
}

impl Clone for Policy {
    fn clone(&self) -> (r: Self)
        ensures
            r@ == self@,
    {
        match self {
            Policy::CountBased(p) => Policy::CountBased(p.clone()),
            Policy::TimeWindow(p) => Policy::TimeWindow(p.clone()),
            Policy::ExponentialBackoff(p) => Policy::ExponentialBackoff(p.clone()),
            Policy::TokenBucket(p) => Policy::TokenBucket(p.clone()),
        }
    }
}

impl Policy {
    /// A count-based policy. See [`CountBasedPolicy::new`].
    pub fn count_based(max_count: usize) -> (r: Result<Self, PolicyError>)
        ensures
            max_count == 0 ==> r == Err::<Self, PolicyError>(PolicyError::ZeroMaxCount),
            max_count != 0 ==> r is Ok && r->Ok_0@ == PolicyModel::CountBased(
                CountModel { max_count, registered: 0 },
            ),
    {
        match CountBasedPolicy::new(max_count) {
            Ok(p) => Ok(Policy::CountBased(p)),
            Err(e) => Err(e),
        }
    }

    /// A time-window policy. See [`TimeWindowPolicy::new`].
    pub fn time_window(max_events: usize, window: Duration) -> (r: Result<Self, PolicyError>)
        ensures
            max_events == 0 ==> r == Err::<Self, PolicyError>(PolicyError::ZeroMaxEvents),
            max_events != 0 && window@ == 0 ==> r == Err::<Self, PolicyError>(
                PolicyError::ZeroWindowDuration,
            ),
            max_events != 0 && window@ != 0 ==> r is Ok && r->Ok_0@ == PolicyModel::TimeWindow(
                WindowModel { max_events, window: window@, times: Seq::empty() },
            ),
    {
        match TimeWindowPolicy::new(max_events, window) {
            Ok(p) => Ok(Policy::TimeWindow(p)),
            Err(e) => Err(e),
        }
    }

    /// An exponential backoff policy. It has no parameters and always succeeds.
    pub fn exponential_backoff() -> (r: Self)
        ensures
            r@ == PolicyModel::ExponentialBackoff(BackoffModel { registered: 0, next_allowed: 1 }),
    {
        Policy::ExponentialBackoff(ExponentialBackoffPolicy::new())
    }

    /// A token bucket policy. See [`TokenBucketPolicy::new`].
    pub fn token_bucket(capacity: u64, refill_rate: u64) -> (r: Result<Self, PolicyError>)
        ensures
            capacity == 0 ==> r == Err::<Self, PolicyError>(PolicyError::ZeroCapacity),
            capacity != 0 && refill_rate == 0 ==> r == Err::<Self, PolicyError>(
                PolicyError::ZeroRefillRate,
            ),
            capacity != 0 && refill_rate != 0 ==> r is Ok && r->Ok_0@ == PolicyModel::TokenBucket(
                BucketModel {
                    capacity: (capacity * BILLIONTHS_PER_TOKEN) as u128,
                    refill_rate: (refill_rate * BILLIONTHS_PER_TOKEN) as u128,
                    level: (capacity * TOKEN) as nat,
                    last_refill: None,
                },
            ),
    {
        match TokenBucketPolicy::new(capacity, refill_rate) {
            Ok(p) => Ok(Policy::TokenBucket(p)),
            Err(e) => Err(e),
        }
    }

    /// A token bucket policy for fractions of tokens. See [`TokenBucketPolicy::of_billionths`].
    pub fn token_bucket_of_billionths(capacity: u128, refill_rate: u128) -> (r: Result<
        Self,
        PolicyError,
    >)
        ensures
            capacity == 0 ==> r == Err::<Self, PolicyError>(PolicyError::ZeroCapacity),
            capacity != 0 && refill_rate == 0 ==> r == Err::<Self, PolicyError>(
                PolicyError::ZeroRefillRate,
            ),
            capacity != 0 && refill_rate != 0 ==> r is Ok && r->Ok_0@ == PolicyModel::TokenBucket(
                BucketModel {
                    capacity,
                    refill_rate,
                    level: full_level(capacity),
                    last_refill: None,
                },
            ),
    {
        match TokenBucketPolicy::of_billionths(capacity, refill_rate) {
            Ok(p) => Ok(Policy::TokenBucket(p)),
            Err(e) => Err(e),
        }
    }
}

impl RateLimitPolicy for Policy {
    type State = PolicyModel;

    open spec fn state(&self) -> PolicyModel {
        self@
    }

    open spec fn has_room(state: PolicyModel) -> bool {
        match state {
            PolicyModel::CountBased(m) => CountBasedPolicy::has_room(m),
            PolicyModel::TimeWindow(m) => TimeWindowPolicy::has_room(m),
            PolicyModel::ExponentialBackoff(m) => ExponentialBackoffPolicy::has_room(m),
            PolicyModel::TokenBucket(m) => TokenBucketPolicy::has_room(m),
        }
    }

    open spec fn decision(state: PolicyModel, now: nat) -> PolicyDecision {
        match state {
            PolicyModel::CountBased(m) => CountBasedPolicy::decision(m, now),
            PolicyModel::TimeWindow(m) => TimeWindowPolicy::decision(m, now),
            PolicyModel::ExponentialBackoff(m) => ExponentialBackoffPolicy::decision(m, now),
            PolicyModel::TokenBucket(m) => TokenBucketPolicy::decision(m, now),
        }
    }

    open spec fn advanced(state: PolicyModel, now: nat) -> PolicyModel {
        match state {
            PolicyModel::CountBased(m) => PolicyModel::CountBased(
                CountBasedPolicy::advanced(m, now),
            ),
            PolicyModel::TimeWindow(m) => PolicyModel::TimeWindow(
                TimeWindowPolicy::advanced(m, now),
            ),
            PolicyModel::ExponentialBackoff(m) => PolicyModel::ExponentialBackoff(
                ExponentialBackoffPolicy::advanced(m, now),
            ),
            PolicyModel::TokenBucket(m) => PolicyModel::TokenBucket(
                TokenBucketPolicy::advanced(m, now),
            ),
        }
    }

    open spec fn cleared(state: PolicyModel) -> PolicyModel {
        match state {
            PolicyModel::CountBased(m) => PolicyModel::CountBased(CountBasedPolicy::cleared(m)),
            PolicyModel::TimeWindow(m) => PolicyModel::TimeWindow(TimeWindowPolicy::cleared(m)),
            PolicyModel::ExponentialBackoff(m) => PolicyModel::ExponentialBackoff(
                ExponentialBackoffPolicy::cleared(m),
            ),
            PolicyModel::TokenBucket(m) => PolicyModel::TokenBucket(TokenBucketPolicy::cleared(m)),
        }
    }

    fn can_register(&self) -> (r: bool) {
        match self {
            Policy::CountBased(p) => p.can_register(),
            Policy::TimeWindow(p) => p.can_register(),
            Policy::ExponentialBackoff(p) => p.can_register(),
            Policy::TokenBucket(p) => p.can_register(),
        }
    }

    fn register_event(&mut self, timestamp: Instant) -> (decision: PolicyDecision) {
        match self {
            Policy::CountBased(p) => p.register_event(timestamp),
            Policy::TimeWindow(p) => p.register_event(timestamp),
            Policy::ExponentialBackoff(p) => p.register_event(timestamp),
            Policy::TokenBucket(p) => p.register_event(timestamp),
        }
    }

    fn reset(&mut self) {
        match self {
            Policy::CountBased(p) => p.reset(),
            Policy::TimeWindow(p) => p.reset(),
            Policy::ExponentialBackoff(p) => p.reset(),
            Policy::TokenBucket(p) => p.reset(),
        }
    }
}

} // verus!
