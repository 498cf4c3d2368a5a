//! The registry: for each signature a policy, a counter and what is known of the event.
use crate::application::ports::{
    is_listed, lists, none_dropped, others_unchanged, Clock, Storage, StorageKey,
};
use crate::domain::metadata::{EventMetadata, MetadataModel};
use crate::domain::policy::{Policy, PolicyDecision, PolicyModel, RateLimitPolicy};
use crate::domain::signature::EventSignature;
use crate::domain::summary::{
    fresh_counter, opt_metadata, recorded, restored, CounterModel, SuppressionCounter,
};
use crate::infrastructure::clock::AnyClock;
use crate::time::Instant;
use vstd::prelude::*;

verus! {

/// Model of [`EventState`].
pub struct StateModel {
    /// The policy.
    pub policy: PolicyModel,
    /// The counter.
    pub counter: CounterModel,
    /// What is known of the event.
    pub metadata: Option<MetadataModel>,
}

/// The state of a signature that is seen for the first time. The counter begins at one: the
/// occurrence that brings the state about counts.
pub open spec fn fresh_state(policy: PolicyModel, now: nat) -> StateModel {
    StateModel { policy, counter: recorded(fresh_counter(now), now), metadata: None }
}

/// The state once something is known of the event: what was known first stays.
pub open spec fn described(m: StateModel, metadata: MetadataModel) -> StateModel {
    StateModel {
        metadata: match m.metadata {
            Some(known) => Some(known),
            None => Some(metadata),
        },
        ..m
    }
}

/// What the policy says about an event at `now`; nothing where it cannot register any more.
pub open spec fn verdict(m: StateModel, now: nat) -> Option<PolicyDecision> {
    if Policy::has_room(m.policy) {
        Some(Policy::decision(m.policy, now))
    } else {
        None
    }
}

/// The state once an event at `now` has been registered: a suppression is counted.
pub open spec fn registered(m: StateModel, now: nat) -> StateModel {
    match verdict(m, now) {
        Some(PolicyDecision::Allow) => StateModel {
            policy: Policy::advanced(m.policy, now),
            ..m
        },
        Some(PolicyDecision::Suppress) => StateModel {
            policy: Policy::advanced(m.policy, now),
            counter: recorded(m.counter, now),
            ..m
        },
        None => m,
    }
}

/// What is kept for one signature.
pub struct EventState {
    /// Decides about the events.
    pub policy: Policy,
    /// Counts those that are suppressed.
    pub counter: SuppressionCounter,
    /// What is known of the event.
    pub metadata: Option<EventMetadata>,
}

impl View for EventState {
    type V = StateModel;

    open spec fn view(&self) -> StateModel {
        StateModel {
            policy: self.policy@,
            counter: self.counter@,
            metadata: opt_metadata(self.metadata),
        }
    }
}

impl Clone for EventState {
    fn clone(&self) -> (r: Self)
        ensures
            r@ == self@,
    {
        EventState {
            policy: self.policy.clone(),
            counter: self.counter.clone(),
            metadata: match &self.metadata {
                Some(m) => Some(m.clone()),
                None => None,
            },
        }
    }
}

impl EventState {
    /// The state of a signature that is seen for the first time. Its counter begins at one.
    pub fn new(policy: Policy, initial_timestamp: Instant) -> (r: Self)
        ensures
            r@ == fresh_state(policy@, initial_timestamp@),
    {
        let mut counter: SuppressionCounter = SuppressionCounter::new(initial_timestamp);
        counter.record_suppression(initial_timestamp);
        EventState { policy, counter, metadata: None }
    }

    /// A state put together from its parts, of which nothing has been reported.
    pub fn from_snapshot(
        policy: Policy,
        suppressed_count: usize,
        first_suppressed: Instant,
        last_suppressed: Instant,
    ) -> (r: Self)
        ensures
            r@ == (StateModel {
                policy: policy@,
                counter: restored(
                    suppressed_count,
                    0,
                    first_suppressed@,
                    last_suppressed@,
                    first_suppressed@,
                    first_suppressed@,
                ),
                metadata: None,
            }),
    {
        EventState {
            policy,
            counter: SuppressionCounter::from_snapshot(
                suppressed_count,
                first_suppressed,
                last_suppressed,
            ),
            metadata: None,
        }
    }

    /// Notes what is known of the event, unless something is known already.
    pub fn set_metadata(&mut self, metadata: EventMetadata)
        ensures
            final(self)@ == described(old(self)@, metadata@),
    {
        if self.metadata.is_none() {
            self.metadata = Some(metadata);
        }
    }

    /// Asks the policy about an event at `now`, and counts it if it is suppressed. Where the
    /// policy cannot register any more, there is no answer and nothing changes.
    pub fn register(&mut self, now: Instant) -> (r: Option<PolicyDecision>)
        ensures
            r == verdict(old(self)@, now@),
            final(self)@ == registered(old(self)@, now@),
    {
        if !self.policy.can_register() {
            return None;
        }
        let decision: PolicyDecision = self.policy.register_event(now);
        match decision {
            PolicyDecision::Allow => {},
            PolicyDecision::Suppress => {
                self.counter.record_suppression(now);
            },
        }
        Some(decision)
    }
}

/// Keeps the state of every signature.
pub struct SuppressionRegistry<S: Storage<EventSignature, EventState>> {
    storage: S,
    clock: AnyClock,
    policy: Policy,
}

impl<S: Storage<EventSignature, EventState>> SuppressionRegistry<S> {
    /// Where the states are kept.
    pub closed spec fn kept_in(&self) -> S {
        self.storage
    }

    /// Whether the storage is in order.
    pub open spec fn wf(&self) -> bool {
        self.kept_in().wf()
    }

    /// The states, by the text of their signatures.
    pub open spec fn states(&self) -> Map<Seq<char>, EventState> {
        self.kept_in().contents()
    }

    /// Whether the storage can be relied on: see [`Storage::is_exact`].
    pub open spec fn is_exact(&self) -> bool {
        self.kept_in().is_exact()
    }

    /// Whether no state is ever dropped to make room for another.
    pub open spec fn keeps_all(&self) -> bool {
        self.kept_in().keeps_all()
    }

    /// The clock.
    pub closed spec fn tells_time_by(&self) -> AnyClock {
        self.clock
    }

    /// The policy that a new signature starts with.
    pub closed spec fn initial_policy(&self) -> PolicyModel {
        self.policy@
    }

    /// Whether an access to a signature at `now` starts from `state`: the one that is kept, or
    /// a fresh one where there is none. From a storage that is not exact, any state may come.
    pub open spec fn begins(
        &self,
        signature: EventSignature,
        now: nat,
        state: EventState,
    ) -> bool {
        self.is_exact() ==> if self.states().contains_key(signature.id()) {
            state == self.states()[signature.id()]
        } else {
            state@ == fresh_state(self.initial_policy(), now)
        }
    }

    /// Whether `after` is the registry once the state of a signature has been used, and has changed
    /// from `first` to `last`. Of a storage that is not exact nothing is known.
    pub open spec fn becomes(
        &self,
        signature: EventSignature,
        first: EventState,
        last: EventState,
        after: &Self,
    ) -> bool {
        let id = signature.id();
        self.is_exact() ==> {
            &&& after.states().contains_key(id)
            &&& after.states()[id] == last
            &&& self.kept_in().becomes(id, first, last, &after.kept_in())
            &&& others_unchanged(self.states(), after.states(), id)
            &&& self.states().contains_key(id) || self.keeps_all() ==> none_dropped(
                self.states(),
                after.states(),
            )
        }
    }

    /// Puts the parts together.
    pub fn new(storage: S, clock: AnyClock, policy: Policy) -> (r: Self)
        ensures
            r.kept_in() == storage,
            r.initial_policy() == policy@,
            r.tells_time_by() == clock,
    {
        SuppressionRegistry { storage, clock, policy }
    }

    /// The present, by the registry's clock.
    pub fn now(&self) -> (now: Instant)
        ensures
            self.tells_time_by().tells(now@),
    {
        self.clock.now()
    }

    /// The storage.
    pub fn storage(&self) -> (r: &S)
        ensures
            *r == self.kept_in(),
    {
        &self.storage
    }

    /// Gives access to the state of a signature, which starts afresh where there is none.
    pub fn with_event_state<R, F: FnOnce(&mut EventState, Instant) -> R>(
        &mut self,
        signature: EventSignature,
        f: F,
    ) -> (r: R)
        requires
            old(self).wf(),
            forall|state: &mut EventState, now: Instant|
                old(self).begins(signature, now@, *state) ==> #[trigger] f.requires((state, now)),
        ensures
            final(self).wf(),
            final(self).is_exact() == old(self).is_exact(),
            final(self).keeps_all() == old(self).keeps_all(),
            final(self).initial_policy() == old(self).initial_policy(),
            final(self).tells_time_by() == old(self).tells_time_by(),
            exists|state: &mut EventState, now: Instant|
                {
                    &&& old(self).tells_time_by().tells(now@)
                    &&& old(self).begins(signature, now@, *state)
                    &&& #[trigger] f.ensures((state, now), r)
                    &&& old(self).becomes(signature, *state, *final(state), final(self))
                },
    {
        let now: Instant = self.clock.now();
        self.with_event_state_at(now, signature, f)
    }

    /// As [`SuppressionRegistry::with_event_state`], at a given time.
    pub fn with_event_state_at<R, F: FnOnce(&mut EventState, Instant) -> R>(
        &mut self,
        now: Instant,
        signature: EventSignature,
        f: F,
    ) -> (r: R)
        requires
            old(self).wf(),
            forall|state: &mut EventState|
                old(self).begins(signature, now@, *state) ==> #[trigger] f.requires((state, now)),
        ensures
            final(self).wf(),
            final(self).is_exact() == old(self).is_exact(),
            final(self).keeps_all() == old(self).keeps_all(),
            final(self).initial_policy() == old(self).initial_policy(),
            final(self).tells_time_by() == old(self).tells_time_by(),
            exists|state: &mut EventState|
                {
                    &&& old(self).begins(signature, now@, *state)
                    &&& #[trigger] f.ensures((state, now), r)
                    &&& old(self).becomes(signature, *state, *final(state), final(self))
                },
    {
        let policy: Policy = self.policy.clone();
        let factory = || -> (state: EventState)
            ensures
                state@ == fresh_state(policy@, now@),
            { EventState::new(policy.clone(), now) };
        let accessor = |state: &mut EventState| -> (r: R)
            requires
                forall|s: &mut EventState| *s == *state ==> #[trigger] f.requires((s, now)),
            ensures
                exists|s: &mut EventState|
                    *s == *old(state) && *final(s) == *final(state) && #[trigger] f.ensures(
                        (s, now),
                        r,
                    ),
            { f(state, now) };
        self.storage.with_entry_mut(signature, factory, accessor)
    }

    /// Calls a function on each signature and its state, in no particular order, and returns what
    /// it gave.
    pub fn for_each<R, F: FnMut(&EventSignature, &EventState) -> R>(
        &self,
        f: F,
    ) -> (results: Vec<R>)
        requires
            self.wf(),
            forall|signature: &EventSignature, state: &EventState|
                (self.is_exact() ==> self.states().contains_key(signature.id()) && *state
                    == self.states()[signature.id()]) ==> #[trigger] f.requires((signature, state)),
        ensures
            exists|signatures: Seq<EventSignature>, found: Seq<EventState>|
                {
                    &&& #[trigger] lists(signatures, found)
                    &&& self.is_exact() ==> is_listed(signatures, found, self.states())
                    &&& results@.len() == signatures.len()
                    &&& forall|i: int|
                        0 <= i < signatures.len() ==> f.ensures(
                            (&signatures[i], &found[i]),
                            #[trigger] results@[i],
                        )
                },
    {
        self.storage.for_each(f)
    }

    /// How many signatures there are.
    pub fn len(&self) -> (n: usize)
        requires
            self.wf(),
        ensures
            self.is_exact() ==> n == self.states().dom().len(),
    {
        self.storage.len()
    }

    /// Whether there are no signatures.
    pub fn is_empty(&self) -> (r: bool)
        requires
            self.wf(),
        ensures
            self.is_exact() ==> r == (self.states() == Map::<Seq<char>, EventState>::empty()),
    {
        self.storage.is_empty()
    }

    /// Forgets all signatures.
    pub fn clear(&mut self)
        requires
            old(self).wf(),
        ensures
            final(self).wf(),
            final(self).is_exact() == old(self).is_exact(),
            final(self).keeps_all() == old(self).keeps_all(),
            final(self).initial_policy() == old(self).initial_policy(),
            final(self).tells_time_by() == old(self).tells_time_by(),
            old(self).is_exact() ==> final(self).states() == Map::<
                Seq<char>,
                EventState,
            >::empty(),
    {
        self.storage.clear();
    }
}

/// A signature that is seen for the first time starts with the policy of the registry as it is,
/// with a count of one for the occurrence that brought it about, and with nothing known of it.
pub proof fn law_new_signature_starts_afresh<S: Storage<EventSignature, EventState>>(
    registry: SuppressionRegistry<S>,
    signature: EventSignature,
    now: nat,
    state: EventState,
)
    requires
        registry.is_exact(),
        registry.begins(signature, now, state),
    ensures
        registry.states().contains_key(signature.id()) ==> state
            == registry.states()[signature.id()],
        !registry.states().contains_key(signature.id()) ==> {
            &&& state@.policy == registry.initial_policy()
            &&& state@.counter.suppressed == 1
            &&& state@.counter.reported == 0
            &&& now <= u64::MAX ==> state@.counter.first == now && state@.counter.last == now
            &&& state@.metadata is None
        },
{
}

/// What an access leaves of a state is what is kept, and no other signature is touched by it.
pub proof fn law_registry_keeps_what_it_is_given<S: Storage<EventSignature, EventState>>(
    before: SuppressionRegistry<S>,
    signature: EventSignature,
    first: EventState,
    last: EventState,
    after: SuppressionRegistry<S>,
    other: Seq<char>,
)
    requires
        before.is_exact(),
        before.becomes(signature, first, last, &after),
    ensures
        after.states().contains_key(signature.id()),
        after.states()[signature.id()] == last,
        other != signature.id() && after.states().contains_key(other)
            ==> before.states().contains_key(other) && after.states()[other]
            == before.states()[other],
        (before.keeps_all() || before.states().contains_key(signature.id()))
            && before.states().contains_key(other) ==> after.states().contains_key(other),
{
}

/// What is known of an event first stays; policy and counter have no part in it.
pub proof fn law_first_description_stays(m: StateModel, metadata: MetadataModel)
    ensures
        m.metadata is Some ==> described(m, metadata) == m,
        m.metadata is None ==> described(m, metadata).metadata == Some(metadata),
        described(m, metadata).policy == m.policy,
        described(m, metadata).counter == m.counter,
{
}

/// Registering an event: where the policy cannot register any more there is no answer and nothing
/// changes; else the answer is that of the policy, which moves on. Exactly a suppressed event is
/// counted, with its time. What is known of the event stays.
pub proof fn law_registering_counts_exactly_suppressed_events(m: StateModel, now: nat)
    ensures
        ({
            let next = registered(m, now);
            &&& !Policy::has_room(m.policy) ==> verdict(m, now) is None && next == m
            &&& Policy::has_room(m.policy) ==> {
                &&& verdict(m, now) == Some(Policy::decision(m.policy, now))
                &&& next.policy == Policy::advanced(m.policy, now)
            }
            &&& verdict(m, now) == Some(PolicyDecision::Suppress) ==> {
                &&& m.counter.suppressed < usize::MAX ==> next.counter.suppressed
                    == m.counter.suppressed + 1
                &&& now <= u64::MAX ==> next.counter.last == now
                &&& next.counter.reported == m.counter.reported
                &&& m.counter.suppressed > 0 ==> next.counter.first == m.counter.first
            }
            &&& verdict(m, now) != Some(PolicyDecision::Suppress) ==> next.counter == m.counter
            &&& next.metadata == m.metadata
        }),
{
}

} // verus!
