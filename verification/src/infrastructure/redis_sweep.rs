//! Going over all states in Redis: which command follows which reply.
//!
//! A sweep says what to ask of Redis next. Whoever holds the connection carries the command out
//! and hands the reply back, until the sweep is finished.
use crate::application::registry::EventState;
use crate::domain::signature::EventSignature;
use crate::infrastructure::redis_storage::{
    access, from_own_key, is_state_loadable, keys_view, law_keys_are_unique, load, loaded_state,
    page_received, redis_key, retain_entry, stored_state, EntryStep, KeyScan, Loaded,
    RedisStorageConfig, RetainAction, ScanModel, SerializableEventState,
};
use crate::time::{Instant, NANOS_PER_SEC};
use vstd::prelude::*;

verus! {

/// Something to ask of Redis.
#[derive(Debug)]
pub enum Command {
    /// Fetch the page of keys at this cursor.
    Scan(u64),
    /// Get what is stored under this key.
    Get(String),
    /// Delete these keys.
    Delete(Vec<String>),
    /// Store a state under a key, for a number of seconds.
    Store {
        /// The key.
        key: String,
        /// The state.
        state: SerializableEventState,
        /// How long to keep it.
        ttl_secs: u64,
    },
    /// Nothing any more.
    Finished,
}

/// Model of [`Command`].
pub enum CommandModel {
    /// Fetch a page.
    Scan(u64),
    /// Get a value.
    Get(Seq<char>),
    /// Delete keys.
    Delete(Seq<Seq<char>>),
    /// Store a state.
    Store(Seq<char>, SerializableEventState, u64),
    /// Nothing any more.
    Finished,
}

impl View for Command {
    type V = CommandModel;

    open spec fn view(&self) -> CommandModel {
        match self {
            Command::Scan(cursor) => CommandModel::Scan(*cursor),
            Command::Get(key) => CommandModel::Get(key@),
            Command::Delete(keys) => CommandModel::Delete(keys_view(keys@)),
            Command::Store { key, state, ttl_secs } => CommandModel::Store(
                key@,
                *state,
                *ttl_secs,
            ),
            Command::Finished => CommandModel::Finished,
        }
    }
}

/// The command that stores a state.
pub open spec fn store_model(
    prefix: Seq<char>,
    ttl: nat,
    signature: u64,
    state: EventState,
    base: nat,
) -> CommandModel {
    CommandModel::Store(
        redis_key(prefix, signature),
        stored_state(state@, base),
        (ttl / NANOS_PER_SEC as nat) as u64,
    )
}

/// The command that stores the state of a signature, with times counted from `base_instant`.
pub fn store_command(
    config: &RedisStorageConfig,
    signature: &EventSignature,
    state: &EventState,
    base_instant: Instant,
) -> (r: Command)
    ensures
        r@ == store_model(config.key_prefix@, config.ttl@, signature@, *state, base_instant@),
{
    Command::Store {
        key: config.key(signature),
        state: SerializableEventState::from_event_state(state, base_instant),
        ttl_secs: config.ttl_secs(),
    }
}

/// The reply to a request for a value: `None` where the request failed; else whether there was
/// something, and what it was if it could be decoded.
pub type ValueReply = Option<Option<Option<SerializableEventState>>>;

/// Model of [`Sweep`].
pub struct SweepModel {
    /// What every key begins with.
    pub prefix: Seq<char>,
    /// How long states are kept, in nanoseconds.
    pub ttl: nat,
    /// From when times are counted.
    pub base: nat,
    /// The scan.
    pub scan: ScanModel,
    /// The signature whose value has been asked for.
    pub current: Option<u64>,
}

/// The signature that has this key.
pub open spec fn signature_of_key(prefix: Seq<char>, key: Seq<char>) -> u64 {
    choose|signature: u64| key == #[trigger] redis_key(prefix, signature)
}

/// What comes next when nothing is left to be done about the present entry: the next entry among
/// the keys that have come, else the next page, else the end.
pub open spec fn next_command(m: SweepModel) -> CommandModel {
    let rest = from_own_key(m.prefix, m.scan.pending);
    if rest.len() > 0 {
        CommandModel::Get(rest[0])
    } else {
        match m.scan.next {
            Some(cursor) => CommandModel::Scan(cursor),
            None => CommandModel::Finished,
        }
    }
}

/// The sweep once it has gone on to what comes next.
pub open spec fn moved_on(m: SweepModel) -> SweepModel {
    let rest = from_own_key(m.prefix, m.scan.pending);
    if rest.len() > 0 {
        SweepModel {
            scan: ScanModel { pending: rest.drop_first(), ..m.scan },
            current: Some(signature_of_key(m.prefix, rest[0])),
            ..m
        }
    } else {
        SweepModel {
            scan: ScanModel { pending: Seq::empty(), ..m.scan },
            current: None,
            ..m
        }
    }
}

/// The sweep once a page has come.
pub open spec fn with_page(m: SweepModel, reply: Option<(u64, Seq<Seq<char>>)>) -> SweepModel {
    SweepModel { scan: page_received(m.scan, reply), ..m }
}

/// A page by its characters.
pub open spec fn page_view(reply: Option<(u64, Vec<String>)>) -> Option<(u64, Seq<Seq<char>>)> {
    match reply {
        Some((cursor, keys)) => Some((cursor, keys_view(keys@))),
        None => None,
    }
}

/// Whether a reply holds a state.
pub open spec fn is_found(reply: ValueReply, base: nat) -> bool {
    reply matches Some(Some(Some(stored))) && is_state_loadable(stored, base)
}

/// Whether a reply holds something that is not a state.
pub open spec fn is_corrupted(reply: ValueReply, base: nat) -> bool {
    reply matches Some(Some(_)) && !is_found(reply, base)
}

/// The commands that follow an access to a state: what is no state is deleted first, then the state
/// is stored as the accessor left it.
pub open spec fn entry_commands(
    prefix: Seq<char>,
    ttl: nat,
    signature: u64,
    base: nat,
    corrupted: bool,
    state: EventState,
) -> Seq<CommandModel> {
    let store = seq![store_model(prefix, ttl, signature, state, base)];
    if corrupted {
        seq![CommandModel::Delete(seq![redis_key(prefix, signature)])] + store
    } else {
        store
    }
}

/// The models of some commands.
pub open spec fn commands_view(commands: Seq<Command>) -> Seq<CommandModel> {
    commands.map_values(|c: Command| c@)
}

/// What an access to a state in Redis gives.
pub struct EntryAccess<R> {
    /// What the accessor gave.
    pub result: R,
    /// What is to be asked of Redis, in this order.
    pub commands: Vec<Command>,
}

/// Gives access to the state of a signature, given the reply to the request for its value. Where
/// there is no state, or the request failed, the access starts from a fresh state. Either way the
/// state is to be stored as the accessor left it; what was found but is no state is deleted first.
pub fn access_entry<R, G: FnOnce() -> EventState, F: FnOnce(&mut EventState) -> R>(
    config: &RedisStorageConfig,
    signature: &EventSignature,
    reply: ValueReply,
    base_instant: Instant,
    now: Instant,
    factory: G,
    accessor: F,
) -> (r: EntryAccess<R>)
    requires
        !is_found(reply, base_instant@) ==> factory.requires(()),
        forall|v: &mut EventState|
            (is_found(reply, base_instant@) ==> v@ == loaded_state(
                reply->0->0->0,
                base_instant@,
                now@,
            )) && (!is_found(reply, base_instant@) ==> factory.ensures((), *v))
                ==> #[trigger] accessor.requires((v,)),
    ensures
        exists|v: &mut EventState|
            {
                &&& is_found(reply, base_instant@) ==> v@ == loaded_state(
                    reply->0->0->0,
                    base_instant@,
                    now@,
                )
                &&& !is_found(reply, base_instant@) ==> factory.ensures((), *v)
                &&& #[trigger] accessor.ensures((v,), r.result)
                &&& commands_view(r.commands@) == entry_commands(
                    config.key_prefix@,
                    config.ttl@,
                    signature@,
                    base_instant@,
                    is_corrupted(reply, base_instant@),
                    *final(v),
                )
            },
{
    let mut commands: Vec<Command> = Vec::new();
    assert(commands_view(commands@) =~= Seq::empty());
    let value: Option<Option<SerializableEventState>> = match reply {
        Some(value) => value,
        None => None,
    };
    let fetched: Option<EventState> = match load(value, base_instant, now) {
        Loaded::Found(state) => Some(state),
        Loaded::Missing => None,
        Loaded::Corrupted => {
            let mut keys: Vec<String> = Vec::new();
            keys.push(config.key(signature));
            assert(keys_view(keys@) =~= seq![redis_key(config.key_prefix@, signature@)]);
            commands.push(Command::Delete(keys));
            None
        },
    };
    assert(fetched is Some <==> is_found(reply, base_instant@));
    let accessed = access(fetched, factory, accessor);
    let ghost before = commands_view(commands@);
    let store: Command = store_command(config, signature, &accessed.state, base_instant);
    commands.push(store);
    let r = EntryAccess { result: accessed.result, commands };
    proof {
        assert(commands_view(r.commands@) =~= before.push(store@));
        assert(commands_view(r.commands@) =~= entry_commands(
            config.key_prefix@,
            config.ttl@,
            signature@,
            base_instant@,
            is_corrupted(reply, base_instant@),
            accessed.state,
        ));
        assert(r.result == accessed.result);
    }
    r
}

/// What came of a value that was asked for.
pub enum Judged {
    /// There was none, or it could not be had.
    Nothing,
    /// It was no state.
    Corrupted,
    /// It was a state, which was looked at.
    Seen,
    /// It was a state that is to be kept, as it is now.
    Kept(EventState),
    /// It was a state that is to go.
    Dropped,
}

/// What follows when a value has come: what is to be kept is stored again, what is to go or is no
/// state is deleted, and otherwise the sweep goes on.
pub open spec fn value_command(m: SweepModel, judged: Judged) -> CommandModel {
    match judged {
        Judged::Kept(state) => store_model(m.prefix, m.ttl, m.current->0, state, m.base),
        Judged::Dropped | Judged::Corrupted => CommandModel::Delete(
            seq![redis_key(m.prefix, m.current->0)],
        ),
        Judged::Nothing | Judged::Seen => next_command(m),
    }
}

/// The sweep when a value has come.
pub open spec fn after_value(m: SweepModel, judged: Judged) -> SweepModel {
    match judged {
        Judged::Nothing | Judged::Seen => moved_on(m),
        _ => m,
    }
}

/// The sweep once a page has come whose keys are all to be deleted.
pub open spec fn emptied(m: SweepModel, reply: Option<(u64, Seq<Seq<char>>)>) -> SweepModel {
    SweepModel {
        scan: ScanModel { pending: Seq::empty(), ..page_received(m.scan, reply) },
        ..m
    }
}

/// What follows when a page has come whose keys are all to be deleted.
pub open spec fn clear_command(
    m: SweepModel,
    reply: Option<(u64, Seq<Seq<char>>)>,
) -> CommandModel {
    let pending = with_page(m, reply).scan.pending;
    if pending.len() > 0 {
        CommandModel::Delete(pending)
    } else {
        next_command(emptied(m, reply))
    }
}

/// The sweep when a page has come whose keys are all to be deleted.
pub open spec fn after_clear(
    m: SweepModel,
    reply: Option<(u64, Seq<Seq<char>>)>,
) -> SweepModel {
    if with_page(m, reply).scan.pending.len() > 0 {
        emptied(m, reply)
    } else {
        moved_on(emptied(m, reply))
    }
}

/// Goes over all states in Redis.
#[derive(Debug)]
pub struct Sweep {
    config: RedisStorageConfig,
    base_instant: Instant,
    scan: KeyScan,
    current: Option<EventSignature>,
}

impl View for Sweep {
    type V = SweepModel;

    closed spec fn view(&self) -> SweepModel {
        SweepModel {
            prefix: self.config.key_prefix@,
            ttl: self.config.ttl@,
            base: self.base_instant@,
            scan: self.scan@,
            current: match self.current {
                Some(signature) => Some(signature@),
                None => None,
            },
        }
    }
}

impl Sweep {
    /// A sweep that has not begun, with times counted from `base_instant`.
    pub fn new(config: &RedisStorageConfig, base_instant: Instant) -> (r: Self)
        ensures
            r@ == (SweepModel {
                prefix: config.key_prefix@,
                ttl: config.ttl@,
                base: base_instant@,
                scan: ScanModel { next: Some(0u64), pending: Seq::empty() },
                current: None,
            }),
    {
        Sweep { config: config.clone(), base_instant, scan: KeyScan::start(), current: None }
    }

    /// Goes on: at the beginning, and after something has been stored or deleted.
    pub fn proceed(&mut self) -> (r: Command)
        ensures
            r@ == next_command(old(self)@),
            final(self)@ == moved_on(old(self)@),
    {
        match self.scan.next_entry(&self.config) {
            EntryStep::Visit(signature) => {
                let key: String = self.config.key(&signature);
                proof {
                    let prefix = self.config.key_prefix@;
                    let chosen = signature_of_key(prefix, key@);
                    assert(key@ == redis_key(prefix, signature@));
                    assert(key@ == redis_key(prefix, chosen));
                    law_keys_are_unique(prefix, chosen, signature@);
                }
                self.current = Some(signature);
                Command::Get(key)
            },
            EntryStep::Fetch(cursor) => {
                self.current = None;
                Command::Scan(cursor)
            },
            EntryStep::Done => {
                self.current = None;
                Command::Finished
            },
        }
    }

    /// Takes a page in, and goes on.
    pub fn on_page(&mut self, reply: Option<(u64, Vec<String>)>) -> (r: Command)
        ensures
            r@ == next_command(with_page(old(self)@, page_view(reply))),
            final(self)@ == moved_on(with_page(old(self)@, page_view(reply))),
    {
        self.scan.receive(reply);
        self.proceed()
    }

    /// Takes a page in when everything is to be deleted: all its keys go at once.
    pub fn on_page_clear(&mut self, reply: Option<(u64, Vec<String>)>) -> (r: Command)
        ensures
            r@ == clear_command(old(self)@, page_view(reply)),
            final(self)@ == after_clear(old(self)@, page_view(reply)),
    {
        self.scan.receive(reply);
        let keys: Vec<String> = self.scan.take_pending();
        assert(keys_view(keys@).len() == keys@.len());
        if keys.len() > 0 {
            Command::Delete(keys)
        } else {
            self.proceed()
        }
    }

    /// The command that deletes what is stored for a signature.
    fn delete_command(&self, signature: &EventSignature) -> (r: Command)
        ensures
            r@ == CommandModel::Delete(seq![redis_key(self@.prefix, signature@)]),
    {
        let mut keys: Vec<String> = Vec::new();
        keys.push(self.config.key(signature));
        assert(keys_view(keys@) =~= seq![redis_key(self@.prefix, signature@)]);
        Command::Delete(keys)
    }

    /// Takes a value in when each entry is to be looked at: `f` is called on the state, if there
    /// is one. What is no state is deleted.
    pub fn on_value_each<R, F: FnMut(&EventSignature, &EventState) -> R>(
        &mut self,
        reply: ValueReply,
        now: Instant,
        f: F,
    ) -> (r: (Option<R>, Command))
        requires
            old(self)@.current is Some,
            forall|signature: &EventSignature, state: &EventState|
                signature@ == old(self)@.current->0 && is_found(reply, old(self)@.base) && state@
                    == loaded_state(reply->0->0->0, old(self)@.base, now@)
                    ==> #[trigger] f.requires((signature, state)),
        ensures
            r.0 is Some <==> is_found(reply, old(self)@.base),
            r.0 matches Some(result) ==> exists|signature: &EventSignature, state: &EventState|
                signature@ == old(self)@.current->0 && state@ == loaded_state(
                    reply->0->0->0,
                    old(self)@.base,
                    now@,
                ) && #[trigger] f.ensures((signature, state), result),
            ({
                let judged = if is_found(reply, old(self)@.base) {
                    Judged::Seen
                } else if is_corrupted(reply, old(self)@.base) {
                    Judged::Corrupted
                } else {
                    Judged::Nothing
                };
                &&& r.1@ == value_command(old(self)@, judged)
                &&& final(self)@ == after_value(old(self)@, judged)
            }),
    {
        let mut f = f;
        match (self.current, reply) {
            (Some(signature), Some(value)) => match load(value, self.base_instant, now) {
                Loaded::Found(state) => {
                    let result = f(&signature, &state);
                    let r: (Option<R>, Command) = (Some(result), self.proceed());
                    assert(r.0->0 == result);
                    assert(f.ensures((&signature, &state), r.0->0));
                    r
                },
                Loaded::Missing => {
                    let command = self.proceed();
                    (None, command)
                },
                Loaded::Corrupted => {
                    let command = self.delete_command(&signature);
                    (None, command)
                },
            },
            _ => {
                let command = self.proceed();
                (None, command)
            },
        }
    }

    /// Takes a value in when entries are to be sorted out: the predicate is asked about the state,
    /// if there is one, and the state is stored again or deleted. What is no state is deleted.
    pub fn on_value_retain<F: FnMut(&EventSignature, &mut EventState) -> bool>(
        &mut self,
        reply: ValueReply,
        now: Instant,
        predicate: F,
    ) -> (r: Command)
        requires
            old(self)@.current is Some,
            forall|signature: &EventSignature, state: &mut EventState|
                signature@ == old(self)@.current->0 && is_found(reply, old(self)@.base) && state@
                    == loaded_state(reply->0->0->0, old(self)@.base, now@)
                    ==> #[trigger] predicate.requires((signature, state)),
        ensures
            is_found(reply, old(self)@.base) ==> exists|
                signature: &EventSignature,
                state: &mut EventState,
                keep: bool,
            |
                {
                    let judged = if keep {
                        Judged::Kept(*final(state))
                    } else {
                        Judged::Dropped
                    };
                    &&& signature@ == old(self)@.current->0
                    &&& state@ == loaded_state(reply->0->0->0, old(self)@.base, now@)
                    &&& #[trigger] predicate.ensures((signature, state), keep)
                    &&& r@ == value_command(old(self)@, judged)
                    &&& final(self)@ == after_value(old(self)@, judged)
                },
            !is_found(reply, old(self)@.base) ==> ({
                let judged = if is_corrupted(reply, old(self)@.base) {
                    Judged::Corrupted
                } else {
                    Judged::Nothing
                };
                &&& r@ == value_command(old(self)@, judged)
                &&& final(self)@ == after_value(old(self)@, judged)
            }),
    {
        match (self.current, reply) {
            (Some(signature), Some(value)) => match load(value, self.base_instant, now) {
                Loaded::Found(state) => match retain_entry(&signature, state, predicate) {
                    RetainAction::Delete => self.delete_command(&signature),
                    RetainAction::Store(state) => store_command(
                        &self.config,
                        &signature,
                        &state,
                        self.base_instant,
                    ),
                },
                Loaded::Missing => self.proceed(),
                Loaded::Corrupted => self.delete_command(&signature),
            },
            _ => self.proceed(),
        }
    }
}

} // verus!
