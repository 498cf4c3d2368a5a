//! Keeping states in Redis: keys, stored forms, and what to do with the replies.
//!
//! The connection itself lives outside. Here is how keys are made and read, what of a state is
//! stored, and which command follows which reply.
use crate::application::registry::{EventState, StateModel};
use crate::domain::policy::{
    instants_view, BackoffModel, BucketModel, CountBasedPolicy, CountModel,
    ExponentialBackoffPolicy, Policy, PolicyModel, TimeWindowPolicy, TokenBucketPolicy,
    WindowModel,
};
use crate::domain::signature::EventSignature;
use crate::domain::summary::{restored, SuppressionSnapshot};
use crate::text::{hex16, lemma_hex16_injective, parse_hex16};
use crate::time::{elapsed, Duration, Instant, MAX_NANOS, NANOS_PER_SEC};
use std::collections::VecDeque;
use vstd::prelude::*;

verus! {

// ---------------------------------------------------------------------------------------------
// Configuration and keys
// ---------------------------------------------------------------------------------------------

/// How states are kept in Redis.
#[derive(Debug, PartialEq, Eq)]
pub struct RedisStorageConfig {
    /// How long a signature is kept after its last use.
    pub ttl: Duration,
    /// What every key begins with.
    pub key_prefix: String,
}

impl Clone for RedisStorageConfig {
    fn clone(&self) -> (r: Self)
        ensures
            r.ttl == self.ttl,
            r.key_prefix@ == self.key_prefix@,
    {
        RedisStorageConfig { ttl: self.ttl, key_prefix: self.key_prefix.clone() }
    }
}

impl Default for RedisStorageConfig {
    /// One hour, and `tracing-throttle:`.
    fn default() -> (r: Self)
        ensures
            r.ttl@ == 3600 * NANOS_PER_SEC,
            r.key_prefix@ == "tracing-throttle:"@,
    {
        RedisStorageConfig {
            ttl: Duration::from_secs(3600),
            key_prefix: "tracing-throttle:".to_owned(),
        }
    }
}

/// The key of a signature: the prefix, and the signature in hexadecimal digits.
pub open spec fn redis_key(prefix: Seq<char>, signature: u64) -> Seq<char> {
    prefix + hex16(signature)
}

impl RedisStorageConfig {
    /// The key of a signature.
    pub fn key(&self, signature: &EventSignature) -> (key: String)
        ensures
            key@ == redis_key(self.key_prefix@, signature@),
    {
        let mut key: String = self.key_prefix.clone();
        key.append(signature.to_string().as_str());
        key
    }

    /// The signature that has this key, if there is one.
    pub fn parse_key(&self, key: &str) -> (r: Option<EventSignature>)
        ensures
            r matches Some(signature) ==> key@ == redis_key(self.key_prefix@, signature@),
            r is None ==> forall|signature: u64|
                key@ != #[trigger] redis_key(self.key_prefix@, signature),
    {
        let prefix: &str = self.key_prefix.as_str();
        let n: usize = prefix.unicode_len();
        let total: usize = key.unicode_len();
        if total < n {
            assert forall|signature: u64| key@ != #[trigger] redis_key(prefix@, signature) by {
                assert(redis_key(prefix@, signature).len() >= prefix@.len());
            }
            return None;
        }
        let head: &str = key.substring_char(0, n);
        let tail: &str = key.substring_char(n, total);
        assert(key@ =~= head@ + tail@);
        if !crate::text::same_text(head, prefix) {
            assert forall|signature: u64| key@ != #[trigger] redis_key(prefix@, signature) by {
                if key@ == redis_key(prefix@, signature) {
                    assert(key@.subrange(0, n as int) =~= prefix@);
                }
            }
            return None;
        }
        match parse_hex16(tail) {
            Some(hash) => Some(EventSignature::from_hash(hash)),
            None => {
                assert forall|signature: u64| key@ != #[trigger] redis_key(prefix@, signature) by {
                    if key@ == redis_key(prefix@, signature) {
                        assert(key@.subrange(n as int, total as int) =~= hex16(signature));
                    }
                }
                None
            },
        }
    }

    /// The pattern that matches all keys with the prefix.
    pub fn pattern(&self) -> (pattern: String)
        ensures
            pattern@ == self.key_prefix@ + "*"@,
    {
        let mut pattern: String = self.key_prefix.clone();
        pattern.append("*");
        pattern
    }

    /// How long a signature is kept, in whole seconds.
    pub fn ttl_secs(&self) -> (secs: u64)
        ensures
            secs == self.ttl@ / NANOS_PER_SEC as nat,
    {
        self.ttl.as_secs()
    }
}

/// Different signatures have different keys.
pub proof fn law_keys_are_unique(prefix: Seq<char>, a: u64, b: u64)
    requires
        redis_key(prefix, a) == redis_key(prefix, b),
    ensures
        a == b,
{
    let n = prefix.len() as int;
    let x = redis_key(prefix, a);
    let y = redis_key(prefix, b);
    assert(x.skip(n) =~= hex16(a));
    assert(y.skip(n) =~= hex16(b));
    lemma_hex16_injective(a, b);
}

// ---------------------------------------------------------------------------------------------
// Stored forms
// ---------------------------------------------------------------------------------------------

/// What is stored of a policy: plain numbers.
///
/// Times are not stored. A time window counts its events as of the moment it is loaded, and a
/// token bucket starts refilling then. So a window or a bucket that is loaded and stored again with
/// every event does not recover while events go on coming: the time between them is not counted.
#[derive(Debug, Clone, Copy, PartialEq, Eq, Structural)]
pub enum StoredPolicy {
    /// Count based.
    CountBased {
        /// How many events are allowed.
        max_count: usize,
        /// How many events have been registered.
        current_count: usize,
    },
    /// Time window.
    TimeWindow {
        /// How many events are allowed within one window.
        max_events: usize,
        /// Length of the window: whole seconds.
        window_secs: u64,
        /// Length of the window: nanoseconds besides.
        window_nanos: u32,
        /// How many events still count.
        recent_events: usize,
    },
    /// Exponential backoff.
    ExponentialBackoff {
        /// How many events have been registered.
        event_count: u64,
        /// Number of the next event that is allowed.
        next_allowed: u64,
    },
    /// Token bucket.
    TokenBucket {
        /// What the bucket holds when it is full, in billionths of a token.
        capacity: u128,
        /// What is refilled per second, in billionths of a token.
        refill_rate: u128,
        /// What is in the bucket, in billionths of a billionth of a token.
        level: u128,
    },
}

/// The stored form of a policy.
pub open spec fn stored_policy(m: PolicyModel) -> StoredPolicy {
    match m {
        PolicyModel::CountBased(m) => StoredPolicy::CountBased {
            max_count: m.max_count,
            current_count: m.registered,
        },
        PolicyModel::TimeWindow(m) => StoredPolicy::TimeWindow {
            max_events: m.max_events,
            window_secs: (m.window / NANOS_PER_SEC as nat) as u64,
            window_nanos: (m.window % NANOS_PER_SEC as nat) as u32,
            recent_events: m.times.len() as usize,
        },
        PolicyModel::ExponentialBackoff(m) => StoredPolicy::ExponentialBackoff {
            event_count: m.registered,
            next_allowed: m.next_allowed,
        },
        PolicyModel::TokenBucket(m) => StoredPolicy::TokenBucket {
            capacity: m.capacity,
            refill_rate: m.refill_rate,
            level: m.level as u128,
        },
    }
}

/// Seconds and nanoseconds in nanoseconds.
pub open spec fn total_nanos(secs: u64, nanos: u32) -> nat {
    (secs * NANOS_PER_SEC + nanos) as nat
}

/// The policy that a stored form gives when it is loaded at `now`.
pub open spec fn loaded_policy(p: StoredPolicy, now: nat) -> PolicyModel {
    match p {
        StoredPolicy::CountBased { max_count, current_count } => PolicyModel::CountBased(
            CountModel { max_count, registered: current_count },
        ),
        StoredPolicy::TimeWindow { max_events, window_secs, window_nanos, recent_events } => {
            PolicyModel::TimeWindow(
                WindowModel {
                    max_events,
                    window: total_nanos(window_secs, window_nanos),
                    times: Seq::new(recent_events as nat, |i: int| now),
                },
            )
        },
        StoredPolicy::ExponentialBackoff { event_count, next_allowed } => {
            PolicyModel::ExponentialBackoff(
                BackoffModel { registered: event_count, next_allowed },
            )
        },
        StoredPolicy::TokenBucket { capacity, refill_rate, level } => PolicyModel::TokenBucket(
            BucketModel { capacity, refill_rate, level: level as nat, last_refill: None },
        ),
    }
}

/// Whether a stored form can be loaded: a time window must fit into a [`Duration`].
pub open spec fn is_loadable(p: StoredPolicy) -> bool {
    match p {
        StoredPolicy::TimeWindow { max_events, window_secs, window_nanos, recent_events } => {
            total_nanos(window_secs, window_nanos) <= MAX_NANOS
        },
        _ => true,
    }
}

/// Whether `secs` seconds and `nanos` nanoseconds fit into a [`Duration`].
fn fits(secs: u64, nanos: u32) -> (r: bool)
    ensures
        r == (total_nanos(secs, nanos) <= MAX_NANOS),
{
    (secs as u128) * NANOS_PER_SEC + (nanos as u128) <= MAX_NANOS
}

impl StoredPolicy {
    /// The stored form of a policy.
    pub fn from_policy(policy: &Policy) -> (r: StoredPolicy)
        ensures
            r == stored_policy(policy@),
    {
        match policy {
            Policy::CountBased(p) => StoredPolicy::CountBased {
                max_count: p.max_count(),
                current_count: p.current_count(),
            },
            Policy::TimeWindow(p) => {
                let window: Duration = p.window_duration();
                StoredPolicy::TimeWindow {
                    max_events: p.max_events(),
                    window_secs: window.as_secs(),
                    window_nanos: window.subsec_nanos(),
                    recent_events: p.event_timestamps().len(),
                }
            },
            Policy::ExponentialBackoff(p) => StoredPolicy::ExponentialBackoff {
                event_count: p.event_count(),
                next_allowed: p.next_allowed(),
            },
            Policy::TokenBucket(p) => StoredPolicy::TokenBucket {
                capacity: p.capacity(),
                refill_rate: p.refill_rate(),
                level: p.level(),
            },
        }
    }

    /// Whether this can be loaded.
    pub fn can_load(&self) -> (r: bool)
        ensures
            r == is_loadable(*self),
    {
        match self {
            StoredPolicy::TimeWindow { window_secs, window_nanos, .. } => fits(
                *window_secs,
                *window_nanos,
            ),
            _ => true,
        }
    }

    /// The policy, loaded at `now`.
    pub fn to_policy(&self, now: Instant) -> (r: Policy)
        requires
            is_loadable(*self),
        ensures
            r@ == loaded_policy(*self, now@),
    {
        match self {
            StoredPolicy::CountBased { max_count, current_count } => Policy::CountBased(
                CountBasedPolicy::from_parts(*max_count, *current_count),
            ),
            StoredPolicy::TimeWindow { max_events, window_secs, window_nanos, recent_events } => {
                let n: usize = *recent_events;
                let mut times: VecDeque<Instant> = VecDeque::new();
                let mut i: usize = 0;
                while i < n
                    invariant
                        i <= n,
                        times@.len() == i,
                        forall|j: int| 0 <= j < i ==> #[trigger] times@[j] == now,
                    decreases n - i,
                {
                    times.push_back(now);
                    i = i + 1;
                }
                assert(instants_view(times@) =~= Seq::new(n as nat, |i: int| now@));
                Policy::TimeWindow(
                    TimeWindowPolicy::from_parts(
                        *max_events,
                        Duration::new(*window_secs, *window_nanos),
                        times,
                    ),
                )
            },
            StoredPolicy::ExponentialBackoff { event_count, next_allowed } => {
                Policy::ExponentialBackoff(
                    ExponentialBackoffPolicy::from_parts(*event_count, *next_allowed),
                )
            },
            StoredPolicy::TokenBucket { capacity, refill_rate, level } => Policy::TokenBucket(
                TokenBucketPolicy::from_parts(*capacity, *refill_rate, *level),
            ),
        }
    }
}

/// What is stored of a state: plain numbers.
#[derive(Debug, Clone, Copy, PartialEq, Eq, Structural)]
pub struct SerializableEventState {
    /// The policy.
    pub policy: StoredPolicy,
    /// How many suppressions there were.
    pub suppressed_count: usize,
    /// When the first one was: whole seconds after the base.
    pub first_suppressed_secs: u64,
    /// When the first one was: nanoseconds besides.
    pub first_suppressed_nanos: u32,
    /// When the last one was: whole seconds after the base.
    pub last_suppressed_secs: u64,
    /// When the last one was: nanoseconds besides.
    pub last_suppressed_nanos: u32,
}

/// The stored form of a state, with times counted from `base`.
pub open spec fn stored_state(m: StateModel, base: nat) -> SerializableEventState {
    let first = elapsed(base, m.counter.first as nat);
    let last = elapsed(base, m.counter.last as nat);
    SerializableEventState {
        policy: stored_policy(m.policy),
        suppressed_count: m.counter.suppressed,
        first_suppressed_secs: (first / NANOS_PER_SEC as nat) as u64,
        first_suppressed_nanos: (first % NANOS_PER_SEC as nat) as u32,
        last_suppressed_secs: (last / NANOS_PER_SEC as nat) as u64,
        last_suppressed_nanos: (last % NANOS_PER_SEC as nat) as u32,
    }
}

/// The state that a stored form gives when it is loaded at `now`: nothing has been reported, and
/// nothing is known of the event.
pub open spec fn loaded_state(s: SerializableEventState, base: nat, now: nat) -> StateModel {
    let first = base + total_nanos(s.first_suppressed_secs, s.first_suppressed_nanos);
    let last = base + total_nanos(s.last_suppressed_secs, s.last_suppressed_nanos);
    StateModel {
        policy: loaded_policy(s.policy, now),
        counter: restored(s.suppressed_count, 0, first, last, first, first),
        metadata: None,
    }
}

/// Whether a stored form can be loaded: its times must be instants.
pub open spec fn is_state_loadable(s: SerializableEventState, base: nat) -> bool {
    &&& is_loadable(s.policy)
    &&& base + total_nanos(s.first_suppressed_secs, s.first_suppressed_nanos) <= MAX_NANOS
    &&& base + total_nanos(s.last_suppressed_secs, s.last_suppressed_nanos) <= MAX_NANOS
}

/// The instant `secs` seconds and `nanos` nanoseconds after `base`, if there is one.
fn instant_after(base: Instant, secs: u64, nanos: u32) -> (r: Option<Instant>)
    ensures
        r is Some <==> base@ + total_nanos(secs, nanos) <= MAX_NANOS,
        r matches Some(t) ==> t@ == base@ + total_nanos(secs, nanos),
{
    if fits(secs, nanos) {
        base.checked_add(Duration::new(secs, nanos))
    } else {
        None
    }
}

impl SerializableEventState {
    /// The stored form of a state, with times counted from `base_instant`.
    pub fn from_event_state(state: &EventState, base_instant: Instant) -> (r: Self)
        ensures
            r == stored_state(state@, base_instant@),
    {
        let counter: SuppressionSnapshot = state.counter.snapshot();
        let first: Duration = counter.first_suppressed.saturating_duration_since(base_instant);
        let last: Duration = counter.last_suppressed.saturating_duration_since(base_instant);
        SerializableEventState {
            policy: StoredPolicy::from_policy(&state.policy),
            suppressed_count: counter.suppressed_count,
            first_suppressed_secs: first.as_secs(),
            first_suppressed_nanos: first.subsec_nanos(),
            last_suppressed_secs: last.as_secs(),
            last_suppressed_nanos: last.subsec_nanos(),
        }
    }

    /// The state, loaded at `now`. There is none where the stored times cannot be instants.
    pub fn to_event_state(&self, base_instant: Instant, now: Instant) -> (r: Option<EventState>)
        ensures
            r is Some <==> is_state_loadable(*self, base_instant@),
            r matches Some(state) ==> state@ == loaded_state(*self, base_instant@, now@),
    {
        if !self.policy.can_load() {
            return None;
        }
        let first: Instant = match instant_after(
            base_instant,
            self.first_suppressed_secs,
            self.first_suppressed_nanos,
        ) {
            Some(t) => t,
            None => {
                return None;
            },
        };
        let last: Instant = match instant_after(
            base_instant,
            self.last_suppressed_secs,
            self.last_suppressed_nanos,
        ) {
            Some(t) => t,
            None => {
                return None;
            },
        };
        Some(
            EventState::from_snapshot(
                self.policy.to_policy(now),
                self.suppressed_count,
                first,
                last,
            ),
        )
    }
}

/// A state that is stored and loaded again still has its count, the times of its first and last
/// suppression, and a policy with the same parameters that has registered as much.
pub proof fn law_stored_state_round_trip(m: StateModel, base: nat, now: nat)
    requires
        base <= m.counter.first,
        base <= m.counter.last,
        m.policy matches PolicyModel::TimeWindow(w) ==> w.window <= MAX_NANOS && w.times.len()
            <= usize::MAX,
        m.policy matches PolicyModel::TokenBucket(b) ==> b.level <= u128::MAX,
    ensures
        is_state_loadable(stored_state(m, base), base),
        ({
            let back = loaded_state(stored_state(m, base), base, now);
            &&& back.counter.suppressed == m.counter.suppressed
            &&& back.counter.first == m.counter.first
            &&& back.counter.last == m.counter.last
            &&& back.counter.reported == 0
            &&& m.policy is CountBased ==> back.policy == m.policy
            &&& m.policy is ExponentialBackoff ==> back.policy == m.policy
            &&& m.policy matches PolicyModel::TimeWindow(w) ==> {
                &&& back.policy matches PolicyModel::TimeWindow(v)
                &&& v.max_events == w.max_events
                &&& v.window == w.window
                &&& v.times.len() == w.times.len()
            }
            &&& m.policy matches PolicyModel::TokenBucket(b) ==> back.policy
                == PolicyModel::TokenBucket(BucketModel { last_refill: None, ..b })
        }),
{
}

// ---------------------------------------------------------------------------------------------
// One entry
// ---------------------------------------------------------------------------------------------

/// What a reply to a request for a key amounts to.
pub enum Loaded {
    /// There is nothing under the key.
    Missing,
    /// There is a state.
    Found(EventState),
    /// There is something else. It is to be deleted.
    Corrupted,
}

/// What a reply amounts to, given what was found under the key (nothing, something that could
/// not be decoded, or a stored state).
pub open spec fn is_loaded_as(
    reply: Option<Option<SerializableEventState>>,
    base: nat,
    now: nat,
    loaded: Loaded,
) -> bool {
    match reply {
        None => loaded is Missing,
        Some(None) => loaded is Corrupted,
        Some(Some(stored)) => if is_state_loadable(stored, base) {
            loaded matches Loaded::Found(state) && state@ == loaded_state(stored, base, now)
        } else {
            loaded is Corrupted
        },
    }
}

/// Tells what a reply amounts to: `None` if there was nothing under the key, `Some(None)` if what
/// was there could not be decoded.
pub fn load(
    reply: Option<Option<SerializableEventState>>,
    base_instant: Instant,
    now: Instant,
) -> (r: Loaded)
    ensures
        is_loaded_as(reply, base_instant@, now@, r),
{
    match reply {
        None => Loaded::Missing,
        Some(None) => Loaded::Corrupted,
        Some(Some(stored)) => match stored.to_event_state(base_instant, now) {
            Some(state) => Loaded::Found(state),
            None => Loaded::Corrupted,
        },
    }
}

/// What an access to a state gives.
pub struct Accessed<R> {
    /// What the accessor gave.
    pub result: R,
    /// The state as the accessor left it.
    pub state: EventState,
}

/// Gives access to a state that was fetched, or to a fresh one where there was none or it could
/// not be had. The changed state is to be stored.
pub fn access<R, G: FnOnce() -> EventState, F: FnOnce(&mut EventState) -> R>(
    fetched: Option<EventState>,
    factory: G,
    accessor: F,
) -> (r: Accessed<R>)
    requires
        fetched is None ==> factory.requires(()),
        forall|v: &mut EventState|
            (fetched is Some ==> *v == fetched->0) && (fetched is None ==> factory.ensures(
                (),
                *v,
            )) ==> #[trigger] accessor.requires((v,)),
    ensures
        exists|v: &mut EventState|
            {
                &&& fetched is Some ==> *v == fetched->0
                &&& fetched is None ==> factory.ensures((), *v)
                &&& #[trigger] accessor.ensures((v,), r.result)
                &&& r.state == *final(v)
            },
{
    let mut state: EventState = match fetched {
        Some(found) => found,
        None => factory(),
    };
    let ghost first = state;
    let result = accessor(&mut state);
    let r = Accessed { result, state };
    assert(r.result == result);
    assert(exists|v: &mut EventState|
        *v == first && #[trigger] accessor.ensures((v,), r.result) && r.state == *final(v));
    r
}

/// What becomes of an entry when entries are sorted out.
pub enum RetainAction {
    /// It is deleted.
    Delete,
    /// It is stored again with this state.
    Store(EventState),
}

/// Asks the predicate about an entry.
pub fn retain_entry<F: FnMut(&EventSignature, &mut EventState) -> bool>(
    signature: &EventSignature,
    state: EventState,
    predicate: F,
) -> (r: RetainAction)
    requires
        forall|v: &mut EventState| *v == state ==> #[trigger] predicate.requires((signature, v)),
    ensures
        exists|v: &mut EventState, keep: bool|
            {
                &&& *v == state
                &&& #[trigger] predicate.ensures((signature, v), keep)
                &&& r == (if keep {
                    RetainAction::Store(*final(v))
                } else {
                    RetainAction::Delete
                })
            },
{
    let mut predicate = predicate;
    let mut state: EventState = state;
    let keep: bool = predicate(signature, &mut state);
    if keep {
        RetainAction::Store(state)
    } else {
        RetainAction::Delete
    }
}

// ---------------------------------------------------------------------------------------------
// All entries
// ---------------------------------------------------------------------------------------------

/// How many keys one page of a scan should have.
pub const SCAN_COUNT: u64 = 100;

/// Goes over all keys, page by page.
#[derive(Debug)]
pub struct KeyScan {
    next: Option<u64>,
    pending: VecDeque<String>,
}

/// What to do next in a scan.
#[derive(Debug)]
pub enum ScanStep {
    /// Fetch the page at this cursor.
    Fetch(u64),
    /// Look at this key.
    Visit(String),
    /// Nothing: all keys have been seen.
    Done,
}

/// Model of [`KeyScan`].
pub struct ScanModel {
    /// Cursor of the page that comes next, if there is one.
    pub next: Option<u64>,
    /// Keys that have come but have not been looked at.
    pub pending: Seq<Seq<char>>,
}

/// The cursor after a page: a scan that is back at zero is over.
pub open spec fn next_cursor(cursor: u64) -> Option<u64> {
    if cursor == 0 {
        None
    } else {
        Some(cursor)
    }
}

/// Strings by their characters.
pub open spec fn keys_view(keys: Seq<String>) -> Seq<Seq<char>> {
    keys.map_values(|k: String| k@)
}

/// The scan after a reply. Where a page could not be had, the scan is over.
pub open spec fn page_received(m: ScanModel, reply: Option<(u64, Seq<Seq<char>>)>) -> ScanModel {
    match reply {
        Some((cursor, keys)) => ScanModel {
            next: next_cursor(cursor),
            pending: m.pending + keys,
        },
        None => ScanModel { next: None, ..m },
    }
}

impl View for KeyScan {
    type V = ScanModel;

    closed spec fn view(&self) -> ScanModel {
        ScanModel { next: self.next, pending: keys_view(self.pending@) }
    }
}

impl KeyScan {
    /// A scan that begins with the first page.
    pub fn start() -> (r: Self)
        ensures
            r@ == (ScanModel { next: Some(0u64), pending: Seq::empty() }),
    {
        let r = KeyScan { next: Some(0), pending: VecDeque::new() };
        assert(r@.pending =~= Seq::empty());
        r
    }

    /// What to do next: keys that have come are looked at first, then the next page is fetched.
    pub fn step(&mut self) -> (r: ScanStep)
        ensures
            old(self)@.pending.len() > 0 ==> {
                &&& r matches ScanStep::Visit(key) && key@ == old(self)@.pending[0]
                &&& final(self)@ == (ScanModel {
                    pending: old(self)@.pending.drop_first(),
                    ..old(self)@
                })
            },
            old(self)@.pending.len() == 0 ==> final(self)@ == old(self)@ && r == (match old(
                self
            )@.next {
                Some(cursor) => ScanStep::Fetch(cursor),
                None => ScanStep::Done,
            }),
    {
        match self.pending.pop_front() {
            Some(key) => {
                assert(self@.pending =~= old(self)@.pending.drop_first());
                ScanStep::Visit(key)
            },
            None => match self.next {
                Some(cursor) => ScanStep::Fetch(cursor),
                None => ScanStep::Done,
            },
        }
    }

    /// Takes a page in: the cursor that came with it and its keys, or nothing where the page
    /// could not be had.
    pub fn receive(&mut self, reply: Option<(u64, Vec<String>)>)
        ensures
            final(self)@ == page_received(
                old(self)@,
                match reply {
                    Some((cursor, keys)) => Some((cursor, keys_view(keys@))),
                    None => None,
                },
            ),
    {
        match reply {
            Some((cursor, keys)) => {
                self.next = if cursor == 0 {
                    None
                } else {
                    Some(cursor)
                };
                let ghost start = self@.pending;
                let ghost all = keys_view(keys@);
                let mut keys: Vec<String> = keys;
                let mut i: usize = 0;
                assert(start + all.take(0) =~= start);
                while i < keys.len()
                    invariant
                        i <= keys@.len(),
                        all == keys_view(keys@),
                        self@.next == next_cursor(cursor),
                        self@.pending == start + all.take(i as int),
                    decreases keys@.len() - i,
                {
                    let ghost before = self@.pending;
                    self.pending.push_back(keys[i].clone());
                    assert(self@.pending =~= before.push(all[i as int]));
                    assert(start + all.take(i + 1) =~= (start + all.take(i as int)).push(
                        all[i as int],
                    ));
                    i = i + 1;
                }
                assert(all.take(i as int) =~= all);
            },
            None => {
                self.next = None;
            },
        }
    }

    /// All keys that have come but have not been looked at, to be dealt with at once.
    pub fn take_pending(&mut self) -> (keys: Vec<String>)
        ensures
            keys_view(keys@) == old(self)@.pending,
            final(self)@ == (ScanModel { pending: Seq::empty(), ..old(self)@ }),
    {
        let mut keys: Vec<String> = Vec::new();
        let ghost all = self@.pending;
        assert(keys_view(keys@) + all =~= all);
        while self.pending.len() > 0
            invariant
                self@.next == old(self)@.next,
                keys_view(keys@) + self@.pending == all,
            ensures
                self@.next == old(self)@.next,
                keys_view(keys@) + self@.pending == all,
                self.pending@.len() == 0,
            decreases self.pending@.len(),
        {
            let ghost before = self@.pending;
            let ghost got = keys_view(keys@);
            match self.pending.pop_front() {
                Some(key) => {
                    keys.push(key);
                    assert(self@.pending =~= before.drop_first());
                    assert(keys_view(keys@) =~= got.push(before[0]));
                    assert(got + before =~= got.push(before[0]) + before.drop_first());
                },
                None => {},
            }
        }
        assert(self@.pending =~= Seq::empty());
        assert(keys_view(keys@) =~= all);
        keys
    }
}

/// What to do next when entries are gone over.
#[derive(Debug)]
pub enum EntryStep {
    /// Fetch the page at this cursor.
    Fetch(u64),
    /// Look at the entry of this signature.
    Visit(EventSignature),
    /// Nothing: all entries have been seen.
    Done,
}

/// Whether a key is that of a signature.
pub open spec fn is_own_key(prefix: Seq<char>, key: Seq<char>) -> bool {
    exists|signature: u64| key == #[trigger] redis_key(prefix, signature)
}

/// Those of the keys that are those of signatures.
pub open spec fn own_keys(prefix: Seq<char>, keys: Seq<Seq<char>>) -> Seq<Seq<char>> {
    keys.filter(|key: Seq<char>| is_own_key(prefix, key))
}

/// The keys from the first one on that is that of a signature.
pub open spec fn from_own_key(prefix: Seq<char>, keys: Seq<Seq<char>>) -> Seq<Seq<char>>
    decreases keys.len(),
{
    if keys.len() > 0 && !is_own_key(prefix, keys[0]) {
        from_own_key(prefix, keys.drop_first())
    } else {
        keys
    }
}

impl KeyScan {
    /// What to do next: entries whose keys have come are looked at first, then the next page is
    /// fetched. Keys that are not those of signatures are passed over.
    pub fn next_entry(&mut self, config: &RedisStorageConfig) -> (r: EntryStep)
        ensures
            ({
                let rest = from_own_key(config.key_prefix@, old(self)@.pending);
                &&& rest.len() > 0 ==> {
                    &&& r matches EntryStep::Visit(signature) && rest[0] == redis_key(
                        config.key_prefix@,
                        signature@,
                    )
                    &&& final(self)@ == (ScanModel { pending: rest.drop_first(), ..old(self)@ })
                }
                &&& rest.len() == 0 ==> {
                    &&& final(self)@ == (ScanModel { pending: Seq::empty(), ..old(self)@ })
                    &&& r == (match old(self)@.next {
                        Some(cursor) => EntryStep::Fetch(cursor),
                        None => EntryStep::Done,
                    })
                }
            }),
    {
        let ghost prefix = config.key_prefix@;
        let ghost start = self@;
        loop
            invariant
                prefix == config.key_prefix@,
                start == old(self)@,
                self@.next == start.next,
                from_own_key(prefix, self@.pending) == from_own_key(prefix, start.pending),
            decreases self@.pending.len(),
        {
            let ghost before = self@.pending;
            match self.step() {
                ScanStep::Fetch(cursor) => {
                    assert(self@.pending =~= Seq::empty());
                    return EntryStep::Fetch(cursor);
                },
                ScanStep::Done => {
                    assert(self@.pending =~= Seq::empty());
                    return EntryStep::Done;
                },
                ScanStep::Visit(key) => {
                    match config.parse_key(key.as_str()) {
                        Some(signature) => {
                            assert(is_own_key(prefix, before[0]));
                            return EntryStep::Visit(signature);
                        },
                        None => {
                            assert(!is_own_key(prefix, before[0]));
                        },
                    }
                },
            }
        }
    }
}

/// The keys that are looked at when the entries of these keys are gone over one by one.
pub open spec fn visited_keys(prefix: Seq<char>, keys: Seq<Seq<char>>) -> Seq<Seq<char>>
    decreases keys.len(),
    via visited_keys_decreases
{
    let rest = from_own_key(prefix, keys);
    if rest.len() == 0 {
        Seq::empty()
    } else {
        seq![rest[0]] + visited_keys(prefix, rest.drop_first())
    }
}

#[via_fn]
proof fn visited_keys_decreases(prefix: Seq<char>, keys: Seq<Seq<char>>) {
    lemma_from_own_key(prefix, keys);
}

/// Every key that is that of a signature is looked at, once and in its turn, and no other.
pub proof fn law_every_entry_is_visited(prefix: Seq<char>, keys: Seq<Seq<char>>)
    ensures
        visited_keys(prefix, keys) == own_keys(prefix, keys),
    decreases keys.len(),
{
    let own = |key: Seq<char>| is_own_key(prefix, key);
    lemma_from_own_key(prefix, keys);
    let rest = from_own_key(prefix, keys);
    if rest.len() == 0 {
        assert(rest.filter(own) =~= Seq::empty()) by {
            reveal(Seq::filter);
        }
    } else {
        law_every_entry_is_visited(prefix, rest.drop_first());
        assert(rest =~= seq![rest[0]] + rest.drop_first());
        Seq::filter_distributes_over_add(seq![rest[0]], rest.drop_first(), own);
        assert(seq![rest[0]].filter(own) =~= seq![rest[0]]) by {
            reveal_with_fuel(Seq::filter, 2);
            assert(seq![rest[0]].drop_last() =~= Seq::empty());
        }
    }
}

/// The keys that are passed over are not those of signatures.
pub(crate) proof fn lemma_from_own_key(prefix: Seq<char>, keys: Seq<Seq<char>>)
    ensures
        from_own_key(prefix, keys).len() <= keys.len(),
        from_own_key(prefix, keys).len() > 0 ==> is_own_key(prefix, from_own_key(prefix, keys)[0]),
        own_keys(prefix, from_own_key(prefix, keys)) == own_keys(prefix, keys),
    decreases keys.len(),
{
    let own = |key: Seq<char>| is_own_key(prefix, key);
    if keys.len() > 0 && !is_own_key(prefix, keys[0]) {
        lemma_from_own_key(prefix, keys.drop_first());
        assert(keys =~= seq![keys[0]] + keys.drop_first());
        Seq::filter_distributes_over_add(seq![keys[0]], keys.drop_first(), own);
        assert(seq![keys[0]].filter(own) =~= Seq::empty()) by {
            reveal_with_fuel(Seq::filter, 2);
            assert(seq![keys[0]].drop_last() =~= Seq::empty());
        }
        assert(Seq::<Seq<char>>::empty() + keys.drop_first().filter(own)
            =~= keys.drop_first().filter(own));
    }
}

/// The keys of some pages, one after the other.
pub open spec fn page_keys(pages: Seq<(u64, Seq<Seq<char>>)>) -> Seq<Seq<char>>
    decreases pages.len(),
{
    if pages.len() == 0 {
        Seq::empty()
    } else {
        page_keys(pages.drop_last()) + pages.last().1
    }
}

/// The scan after some pages, where no key has been looked at.
pub open spec fn after_pages(pages: Seq<(u64, Seq<Seq<char>>)>) -> ScanModel
    decreases pages.len(),
{
    if pages.len() == 0 {
        ScanModel { next: Some(0u64), pending: Seq::empty() }
    } else {
        page_received(after_pages(pages.drop_last()), Some(pages.last()))
    }
}

/// A scan leaves no key out: it has every key of every page, and is over exactly when a page came
/// with the cursor zero.
pub proof fn law_scan_sees_every_key(pages: Seq<(u64, Seq<Seq<char>>)>)
    ensures
        after_pages(pages).pending == page_keys(pages),
        after_pages(pages).next is None <==> pages.len() > 0 && pages.last().0 == 0,
    decreases pages.len(),
{
    if pages.len() > 0 {
        law_scan_sees_every_key(pages.drop_last());
    }
}

} // verus!
