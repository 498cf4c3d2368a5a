//! What a sweep over all states in Redis promises from its beginning to its end.
use crate::application::registry::{EventState, StateModel};
use crate::domain::policy::{BackoffModel, BucketModel, CountModel, PolicyModel};
use crate::infrastructure::redis_storage::{
    from_own_key, is_loaded_as, is_own_key, is_state_loadable, keys_view, lemma_from_own_key,
    loaded_state, own_keys, redis_key, stored_policy, stored_state, total_nanos, Loaded, ScanModel,
    SerializableEventState, StoredPolicy,
};
use crate::infrastructure::redis_sweep::{
    after_clear, after_value, clear_command, commands_view, emptied, entry_commands, is_corrupted,
    is_found, moved_on, next_command, page_view, signature_of_key, value_command, with_page,
    Command, CommandModel, Judged, SweepModel,
};
use crate::text::hex16;
use crate::text_laws::{digit_value, law_hexadecimal_can_be_read_again, value_of};
use crate::time::NANOS_PER_SEC;
use vstd::prelude::*;

verus! {

/// What a sweep is told when a command has been carried out.
pub enum Reply {
    /// A page of keys whose entries are to be gone over, unless it could not be had.
    Page(Option<(u64, Seq<Seq<char>>)>),
    /// A page of keys that are all to be deleted, unless it could not be had.
    PageToClear(Option<(u64, Seq<Seq<char>>)>),
    /// What came of a value.
    Value(Judged),
    /// Something has been stored or deleted.
    Done,
}

/// Whether a reply is one to this command.
pub open spec fn answers(command: CommandModel, reply: Reply) -> bool {
    match command {
        CommandModel::Scan(_) => reply is Page || reply is PageToClear,
        CommandModel::Get(_) => reply is Value,
        CommandModel::Delete(_) | CommandModel::Store(_, _, _) => reply is Done,
        CommandModel::Finished => false,
    }
}

/// The sweep after some replies.
pub open spec fn sweep_after(start: SweepModel, replies: Seq<Reply>) -> SweepModel
    decreases replies.len(),
{
    if replies.len() == 0 {
        moved_on(start)
    } else {
        let m = sweep_after(start, replies.drop_last());
        match replies.last() {
            Reply::Page(page) => moved_on(with_page(m, page)),
            Reply::PageToClear(page) => after_clear(m, page),
            Reply::Value(judged) => after_value(m, judged),
            Reply::Done => moved_on(m),
        }
    }
}

/// What a sweep asks for after some replies.
pub open spec fn command_after(start: SweepModel, replies: Seq<Reply>) -> CommandModel {
    if replies.len() == 0 {
        next_command(start)
    } else {
        let m = sweep_after(start, replies.drop_last());
        match replies.last() {
            Reply::Page(page) => next_command(with_page(m, page)),
            Reply::PageToClear(page) => clear_command(m, page),
            Reply::Value(judged) => value_command(m, judged),
            Reply::Done => next_command(m),
        }
    }
}

/// Whether every reply is one to what the sweep asked for at that time.
pub open spec fn is_sweep(start: SweepModel, replies: Seq<Reply>) -> bool
    decreases replies.len(),
{
    replies.len() == 0 || {
        &&& is_sweep(start, replies.drop_last())
        &&& answers(command_after(start, replies.drop_last()), replies.last())
    }
}

/// Whether a sweep has not begun.
pub open spec fn is_fresh(start: SweepModel) -> bool {
    start.scan == (ScanModel { next: Some(0u64), pending: Seq::empty() }) && start.current is None
}

/// The keys of a page.
pub open spec fn keys_of(page: Option<(u64, Seq<Seq<char>>)>) -> Seq<Seq<char>> {
    match page {
        Some((_, keys)) => keys,
        None => Seq::empty(),
    }
}

/// The keys of all pages whose entries were to be gone over, one page after the other.
pub open spec fn keys_to_visit(replies: Seq<Reply>) -> Seq<Seq<char>>
    decreases replies.len(),
{
    if replies.len() == 0 {
        Seq::empty()
    } else {
        let before = keys_to_visit(replies.drop_last());
        match replies.last() {
            Reply::Page(page) => before + keys_of(page),
            _ => before,
        }
    }
}

/// The keys of all pages that were to be deleted, one page after the other.
pub open spec fn keys_to_clear(replies: Seq<Reply>) -> Seq<Seq<char>>
    decreases replies.len(),
{
    if replies.len() == 0 {
        Seq::empty()
    } else {
        let before = keys_to_clear(replies.drop_last());
        match replies.last() {
            Reply::PageToClear(page) => before + keys_of(page),
            _ => before,
        }
    }
}

/// The keys whose values a sweep has asked for, in their order.
pub open spec fn asked_keys(start: SweepModel, replies: Seq<Reply>) -> Seq<Seq<char>>
    decreases replies.len(),
{
    let before = if replies.len() == 0 {
        Seq::empty()
    } else {
        asked_keys(start, replies.drop_last())
    };
    match command_after(start, replies) {
        CommandModel::Get(key) => before.push(key),
        _ => before,
    }
}

/// The keys that a sweep has had deleted, in their order.
pub open spec fn deleted_keys(start: SweepModel, replies: Seq<Reply>) -> Seq<Seq<char>>
    decreases replies.len(),
{
    let before = if replies.len() == 0 {
        Seq::empty()
    } else {
        deleted_keys(start, replies.drop_last())
    };
    match command_after(start, replies) {
        CommandModel::Delete(keys) => before + keys,
        _ => before,
    }
}

/// Own keys of two lists, one after the other.
proof fn lemma_own_keys_add(prefix: Seq<char>, a: Seq<Seq<char>>, b: Seq<Seq<char>>)
    ensures
        own_keys(prefix, a + b) == own_keys(prefix, a) + own_keys(prefix, b),
{
    Seq::filter_distributes_over_add(a, b, |key: Seq<char>| is_own_key(prefix, key));
}

/// Going on takes the next own key, or finds that there is none.
proof fn lemma_move(m: SweepModel)
    ensures
        ({
            let rest = own_keys(m.prefix, moved_on(m).scan.pending);
            match next_command(m) {
                CommandModel::Get(key) => {
                    &&& own_keys(m.prefix, m.scan.pending) == seq![key] + rest
                    &&& moved_on(m).current is Some
                    &&& key == redis_key(m.prefix, moved_on(m).current->0)
                },
                CommandModel::Scan(_) | CommandModel::Finished => {
                    &&& own_keys(m.prefix, m.scan.pending) == Seq::<Seq<char>>::empty()
                    &&& moved_on(m).scan.pending == Seq::<Seq<char>>::empty()
                    &&& rest == Seq::<Seq<char>>::empty()
                },
                _ => false,
            }
        }),
        moved_on(m).prefix == m.prefix,
        moved_on(m).ttl == m.ttl,
        moved_on(m).base == m.base,
{
    let rest = from_own_key(m.prefix, m.scan.pending);
    lemma_from_own_key(m.prefix, m.scan.pending);
    let own = |key: Seq<char>| is_own_key(m.prefix, key);
    assert(own_keys(m.prefix, Seq::empty()) =~= Seq::empty()) by {
        reveal(Seq::filter);
    }
    if rest.len() > 0 {
        assert(rest =~= seq![rest[0]] + rest.drop_first());
        lemma_own_keys_add(m.prefix, seq![rest[0]], rest.drop_first());
        assert(seq![rest[0]].filter(own) =~= seq![rest[0]]) by {
            reveal_with_fuel(Seq::filter, 2);
            assert(seq![rest[0]].drop_last() =~= Seq::empty());
        }
        let signature = choose|signature: u64|
            rest[0] == #[trigger] redis_key(m.prefix, signature);
        assert(rest[0] == redis_key(m.prefix, signature_of_key(m.prefix, rest[0])));
    } else {
        assert(rest =~= Seq::empty());
    }
}

/// What has been asked for and what is still to be asked for is all that has come.
proof fn lemma_sweep(start: SweepModel, replies: Seq<Reply>)
    requires
        is_fresh(start),
        is_sweep(start, replies),
    ensures
        ({
            let m = sweep_after(start, replies);
            &&& m.prefix == start.prefix
            &&& m.ttl == start.ttl
            &&& m.base == start.base
            &&& asked_keys(start, replies) + own_keys(start.prefix, m.scan.pending) == own_keys(
                start.prefix,
                keys_to_visit(replies),
            )
            &&& command_after(start, replies) matches CommandModel::Get(key) ==> m.current is Some
                && key == redis_key(start.prefix, m.current->0)
            &&& command_after(start, replies) is Finished || command_after(start, replies) is Scan
                ==> m.scan.pending == Seq::<Seq<char>>::empty()
        }),
    decreases replies.len(),
{
    let prefix = start.prefix;
    let m = sweep_after(start, replies);
    assert(own_keys(prefix, Seq::empty()) =~= Seq::empty()) by {
        reveal(Seq::filter);
    }
    if replies.len() == 0 {
        lemma_move(start);
        assert(asked_keys(start, replies) + own_keys(prefix, m.scan.pending) =~= Seq::empty());
    } else {
        let earlier = replies.drop_last();
        lemma_sweep(start, earlier);
        let was = sweep_after(start, earlier);
        let asked = asked_keys(start, earlier);
        let visit = keys_to_visit(earlier);
        match replies.last() {
            Reply::Page(page) => {
                let paged = with_page(was, page);
                assert(paged.scan.pending =~= was.scan.pending + keys_of(page));
                lemma_own_keys_add(prefix, was.scan.pending, keys_of(page));
                lemma_own_keys_add(prefix, visit, keys_of(page));
                lemma_move(paged);
                assert(asked + (own_keys(prefix, was.scan.pending) + own_keys(
                    prefix,
                    keys_of(page),
                )) =~= own_keys(prefix, visit) + own_keys(prefix, keys_of(page)));
                assert(asked_keys(start, replies) + own_keys(prefix, m.scan.pending) =~= asked
                    + own_keys(prefix, paged.scan.pending));
            },
            Reply::PageToClear(page) => {
                assert(was.scan.pending =~= Seq::empty());
                let cleared = emptied(was, page);
                lemma_move(cleared);
                assert(asked_keys(start, replies) =~= asked);
            },
            Reply::Value(judged) => {
                lemma_move(was);
                assert(asked_keys(start, replies) + own_keys(prefix, m.scan.pending) =~= asked
                    + own_keys(prefix, was.scan.pending));
            },
            Reply::Done => {
                lemma_move(was);
                assert(asked_keys(start, replies) + own_keys(prefix, m.scan.pending) =~= asked
                    + own_keys(prefix, was.scan.pending));
            },
        }
    }
}

/// A sweep that is finished has asked for the value of every key of a signature on every page, each
/// once for each time that it came, in their order, and for no other.
pub proof fn law_sweep_asks_about_every_key_once(start: SweepModel, replies: Seq<Reply>)
    requires
        is_fresh(start),
        is_sweep(start, replies),
        command_after(start, replies) is Finished,
    ensures
        asked_keys(start, replies) == own_keys(start.prefix, keys_to_visit(replies)),
{
    lemma_sweep(start, replies);
    assert(own_keys(start.prefix, Seq::empty()) =~= Seq::empty()) by {
        reveal(Seq::filter);
    }
    assert(asked_keys(start, replies) + Seq::<Seq<char>>::empty() =~= asked_keys(start, replies));
}

/// While a sweep goes on, it has asked about the first of the keys that have come.
pub proof fn law_sweep_asks_in_order(start: SweepModel, replies: Seq<Reply>)
    requires
        is_fresh(start),
        is_sweep(start, replies),
    ensures
        asked_keys(start, replies).is_prefix_of(
            own_keys(start.prefix, keys_to_visit(replies)),
        ),
{
    lemma_sweep(start, replies);
    let m = sweep_after(start, replies);
    let asked = asked_keys(start, replies);
    let all = asked + own_keys(start.prefix, m.scan.pending);
    assert(all.subrange(0, asked.len() as int) =~= asked);
}

/// An entry is kept exactly if it is judged so. Whatever came for a key that a sweep has asked
/// about: a state that is to be kept is stored again under that key, with its present content and
/// for the full time; a state that is to go, or something that is no state, is deleted; and nothing
/// else is stored or deleted.
pub proof fn law_sweep_keeps_what_is_judged_so(
    start: SweepModel,
    replies: Seq<Reply>,
    judged: Judged,
)
    requires
        is_fresh(start),
        is_sweep(start, replies.push(Reply::Value(judged))),
    ensures
        command_after(start, replies) is Get,
        ({
            let key = command_after(start, replies)->Get_0;
            let command = command_after(start, replies.push(Reply::Value(judged)));
            match judged {
                Judged::Kept(state) => command == CommandModel::Store(
                    key,
                    stored_state(state@, start.base),
                    (start.ttl / NANOS_PER_SEC as nat) as u64,
                ),
                Judged::Dropped | Judged::Corrupted => command == CommandModel::Delete(seq![key]),
                Judged::Nothing | Judged::Seen => command is Get || command is Scan
                    || command is Finished,
            }
        }),
{
    assert(replies.push(Reply::Value(judged)).drop_last() =~= replies);
    lemma_sweep(start, replies);
    lemma_move(sweep_after(start, replies));
}

/// Something is stored only where a state was judged to be kept.
pub proof fn law_sweep_stores_only_what_is_kept(start: SweepModel, replies: Seq<Reply>)
    requires
        is_sweep(start, replies),
        command_after(start, replies) is Store,
    ensures
        replies.len() > 0,
        replies.last() matches Reply::Value(Judged::Kept(_)),
{
    if replies.len() == 0 {
        lemma_move(start);
    } else {
        let was = sweep_after(start, replies.drop_last());
        match replies.last() {
            Reply::Page(page) => lemma_move(with_page(was, page)),
            Reply::PageToClear(page) => lemma_move(emptied(was, page)),
            _ => lemma_move(was),
        }
    }
}

/// Whether a sweep is one that deletes everything.
pub open spec fn clears(replies: Seq<Reply>) -> bool {
    forall|i: int|
        0 <= i < replies.len() ==> (#[trigger] replies[i]) is PageToClear || replies[i] is Done
}

/// A sweep that clears has every key on every page deleted, and no other.
pub proof fn law_clear_deletes_every_key(start: SweepModel, replies: Seq<Reply>)
    requires
        is_fresh(start),
        is_sweep(start, replies),
        clears(replies),
    ensures
        deleted_keys(start, replies) == keys_to_clear(replies),
        asked_keys(start, replies) == Seq::<Seq<char>>::empty(),
        sweep_after(start, replies).scan.pending == Seq::<Seq<char>>::empty(),
    decreases replies.len(),
{
    let nothing = Seq::<Seq<char>>::empty();
    if replies.len() == 0 {
        lemma_move(start);
        assert(own_keys(start.prefix, nothing) =~= nothing) by {
            reveal(Seq::filter);
        }
    } else {
        let earlier = replies.drop_last();
        assert forall|i: int| 0 <= i < earlier.len() implies (#[trigger] earlier[i]) is PageToClear
            || earlier[i] is Done by {
            assert(replies[i] == earlier[i]);
        }
        law_clear_deletes_every_key(start, earlier);
        let was = sweep_after(start, earlier);
        assert(own_keys(was.prefix, nothing) =~= nothing) by {
            reveal(Seq::filter);
        }
        assert(replies.last() == replies[replies.len() - 1]);
        match replies.last() {
            Reply::PageToClear(page) => {
                lemma_move(emptied(was, page));
                assert(with_page(was, page).scan.pending =~= keys_of(page));
                if keys_of(page).len() == 0 {
                    assert(keys_to_clear(earlier) + keys_of(page) =~= keys_to_clear(earlier));
                }
            },
            _ => {
                lemma_move(was);
            },
        }
    }
}

/// The page that came last, if one was asked for.
pub open spec fn last_page(replies: Seq<Reply>) -> Option<Option<(u64, Seq<Seq<char>>)>>
    decreases replies.len(),
{
    if replies.len() == 0 {
        None
    } else {
        match replies.last() {
            Reply::Page(page) => Some(page),
            Reply::PageToClear(page) => Some(page),
            _ => last_page(replies.drop_last()),
        }
    }
}

/// The cursor at which a sweep goes on: zero at the beginning, then the one that came with the last
/// page, and none once that was zero or a page could not be had.
pub open spec fn cursor_to_follow(replies: Seq<Reply>) -> Option<u64> {
    match last_page(replies) {
        None => Some(0u64),
        Some(None) => None,
        Some(Some((cursor, _))) => if cursor == 0 {
            None
        } else {
            Some(cursor)
        },
    }
}

proof fn lemma_cursor(start: SweepModel, replies: Seq<Reply>)
    requires
        is_fresh(start),
        is_sweep(start, replies),
    ensures
        sweep_after(start, replies).scan.next == cursor_to_follow(replies),
    decreases replies.len(),
{
    if replies.len() > 0 {
        lemma_cursor(start, replies.drop_last());
    }
}

/// A sweep goes over all pages: it asks for the first page with the cursor zero, then for the page
/// at the cursor that came with the one before, and is finished only when that was zero or a page
/// could not be had.
pub proof fn law_sweep_follows_the_cursor(start: SweepModel, replies: Seq<Reply>)
    requires
        is_fresh(start),
        is_sweep(start, replies),
    ensures
        command_after(start, replies) matches CommandModel::Scan(cursor) ==> cursor_to_follow(
            replies,
        ) == Some(cursor),
        command_after(start, replies) is Finished ==> cursor_to_follow(replies) is None,
{
    lemma_cursor(start, replies);
    if replies.len() > 0 {
        lemma_cursor(start, replies.drop_last());
    }
}

/// A key is the prefix, followed by the signature in sixteen hexadecimal digits.
pub proof fn law_key_is_prefix_and_signature(prefix: Seq<char>, signature: u64)
    ensures
        ({
            let key = redis_key(prefix, signature);
            &&& key.len() == prefix.len() + 16
            &&& key.take(prefix.len() as int) == prefix
            &&& forall|i: int| 0 <= i < 16 ==> digit_value(#[trigger] key[prefix.len() + i]) < 16
            &&& value_of(key.skip(prefix.len() as int), 16) == signature
        }),
{
    let key = redis_key(prefix, signature);
    law_hexadecimal_can_be_read_again(signature);
    assert(key.skip(prefix.len() as int) =~= hex16(signature));
    assert(key.take(prefix.len() as int) =~= prefix);
    assert forall|i: int| 0 <= i < 16 implies digit_value(#[trigger] key[prefix.len() + i])
        < 16 by {
        assert(key[prefix.len() + i] == hex16(signature)[i]);
    }
}

/// A span of seconds and nanoseconds is as long as both together.
pub proof fn law_stored_spans_are_seconds_and_nanoseconds(secs: u64, nanos: u32)
    ensures
        total_nanos(secs, nanos) == secs * 1_000_000_000 + nanos,
{
}

/// What is stored of a state: how often it was suppressed, and how long after the base point the
/// first and the last suppression were.
pub proof fn law_stored_state_has_count_and_times(m: StateModel, base: nat)
    requires
        base <= m.counter.first,
        base <= m.counter.last,
    ensures
        ({
            let s = stored_state(m, base);
            &&& s.suppressed_count == m.counter.suppressed
            &&& base + s.first_suppressed_secs * 1_000_000_000 + s.first_suppressed_nanos
                == m.counter.first
            &&& s.first_suppressed_nanos < 1_000_000_000
            &&& base + s.last_suppressed_secs * 1_000_000_000 + s.last_suppressed_nanos
                == m.counter.last
            &&& s.last_suppressed_nanos < 1_000_000_000
            &&& s.policy == stored_policy(m.policy)
        }),
{
}

/// What is stored of a policy: its parameters, and how far it is. Of a time window that is how many
/// events still count, of a token bucket what is in it.
pub proof fn law_stored_policy_has_parameters_and_progress(p: PolicyModel)
    ensures
        p matches PolicyModel::CountBased(m) ==> stored_policy(p) == (StoredPolicy::CountBased {
            max_count: m.max_count,
            current_count: m.registered,
        }),
        p matches PolicyModel::TimeWindow(m) ==> (stored_policy(p) matches
            StoredPolicy::TimeWindow { max_events, window_secs, window_nanos, recent_events }
            && max_events == m.max_events && (m.window
            <= 18_446_744_073_709_551_615_999_999_999 ==> window_secs * 1_000_000_000
            + window_nanos == m.window && window_nanos < 1_000_000_000) && (m.times.len()
            <= usize::MAX ==> recent_events == m.times.len())),
        p matches PolicyModel::ExponentialBackoff(m) ==> stored_policy(p) == (
        StoredPolicy::ExponentialBackoff {
            event_count: m.registered,
            next_allowed: m.next_allowed,
        }),
        p matches PolicyModel::TokenBucket(m) ==> m.level <= u128::MAX ==> stored_policy(p) == (
        StoredPolicy::TokenBucket {
            capacity: m.capacity,
            refill_rate: m.refill_rate,
            level: m.level as u128,
        }),
{
}

/// What is loaded from a stored state: its count, of which nothing has been reported; its times, as
/// distances from the base point; a policy with the same parameters, as far as it was, for which
/// time begins now; and nothing known of the event.
pub proof fn law_loaded_state_is_what_was_stored(
    s: SerializableEventState,
    base: nat,
    now: nat,
    i: int,
)
    requires
        base + s.first_suppressed_secs * 1_000_000_000 + s.first_suppressed_nanos <= u64::MAX,
        base + s.last_suppressed_secs * 1_000_000_000 + s.last_suppressed_nanos <= u64::MAX,
    ensures
        ({
            let m = loaded_state(s, base, now);
            let first = base + s.first_suppressed_secs * 1_000_000_000 + s.first_suppressed_nanos;
            let last = base + s.last_suppressed_secs * 1_000_000_000 + s.last_suppressed_nanos;
            &&& m.counter.suppressed == s.suppressed_count
            &&& m.counter.reported == 0
            &&& m.counter.first == first
            &&& m.counter.last == last
            &&& m.counter.first_unreported == first
            &&& m.counter.last_reported == first
            &&& m.metadata is None
            &&& s.policy matches StoredPolicy::CountBased { max_count, current_count } ==> m.policy
                == PolicyModel::CountBased(CountModel { max_count, registered: current_count })
            &&& s.policy matches StoredPolicy::ExponentialBackoff { event_count, next_allowed }
                ==> m.policy == PolicyModel::ExponentialBackoff(
                BackoffModel { registered: event_count, next_allowed },
            )
            &&& s.policy matches StoredPolicy::TokenBucket { capacity, refill_rate, level }
                ==> m.policy == PolicyModel::TokenBucket(
                BucketModel { capacity, refill_rate, level: level as nat, last_refill: None },
            )
            &&& s.policy matches StoredPolicy::TimeWindow {
                max_events,
                window_secs,
                window_nanos,
                recent_events,
            } ==> (m.policy matches PolicyModel::TimeWindow(w) && w.max_events == max_events
                && w.window == window_secs * 1_000_000_000 + window_nanos && w.times.len()
                == recent_events && (0 <= i < recent_events ==> w.times[i] == now))
        }),
{
}

/// A stored state can be loaded exactly if its times, and the window of its policy, can be
/// represented.
pub proof fn law_only_impossible_times_cannot_be_loaded(s: SerializableEventState, base: nat)
    ensures
        is_state_loadable(s, base) <==> {
            let max: int = 18_446_744_073_709_551_615_999_999_999;
            &&& base + s.first_suppressed_secs * 1_000_000_000 + s.first_suppressed_nanos <= max
            &&& base + s.last_suppressed_secs * 1_000_000_000 + s.last_suppressed_nanos <= max
            &&& s.policy matches StoredPolicy::TimeWindow {
                max_events,
                window_secs,
                window_nanos,
                recent_events,
            } ==> window_secs * 1_000_000_000 + window_nanos <= max
        },
{
}

/// What a reply amounts to: no value is no state; a value that cannot be decoded, or not be loaded,
/// is corrupted; any other is a state.
pub proof fn law_replies_are_told_apart(
    reply: Option<Option<SerializableEventState>>,
    base: nat,
    now: nat,
    loaded: Loaded,
)
    requires
        is_loaded_as(reply, base, now, loaded),
    ensures
        loaded is Missing <==> reply is None,
        loaded is Corrupted <==> reply is Some && (reply->0 is Some ==> !is_state_loadable(
            reply->0->0,
            base,
        )),
        loaded matches Loaded::Found(state) ==> reply is Some && reply->0 is Some && state@
            == loaded_state(reply->0->0, base, now),
        is_found(Some(reply), base) <==> loaded is Found,
        is_corrupted(Some(reply), base) <==> loaded is Corrupted,
        !is_found(None, base),
        !is_corrupted(None, base),
{
}

/// What follows an access: the state is stored under the key of its signature, for the full time,
/// as the last thing; before that, exactly where something was found that is no state, that is
/// deleted.
pub proof fn law_access_stores_the_state_last(
    prefix: Seq<char>,
    ttl: nat,
    signature: u64,
    base: nat,
    corrupted: bool,
    state: EventState,
)
    requires
        ttl <= 18_446_744_073_709_551_615_999_999_999,
    ensures
        ({
            let commands = entry_commands(prefix, ttl, signature, base, corrupted, state);
            let key = redis_key(prefix, signature);
            &&& commands.len() == if corrupted {
                2int
            } else {
                1int
            }
            &&& corrupted ==> commands[0] == CommandModel::Delete(seq![key])
            &&& commands.last() matches CommandModel::Store(k, s, secs) && k == key && s
                == stored_state(state@, base) && secs * 1_000_000_000 <= ttl < secs * 1_000_000_000
                + 1_000_000_000
        }),
{
}

/// Commands and keys are taken as they are, in their order.
pub proof fn law_commands_are_taken_as_they_are(commands: Seq<Command>, keys: Seq<String>, i: int)
    ensures
        commands_view(commands).len() == commands.len(),
        0 <= i < commands.len() ==> commands_view(commands)[i] == commands[i]@,
        keys_view(keys).len() == keys.len(),
        0 <= i < keys.len() ==> keys_view(keys)[i] == keys[i]@,
{
}

/// The model of a command says all that the command says.
pub proof fn law_command_model_says_it_all(
    cursor: u64,
    key: String,
    keys: Vec<String>,
    state: SerializableEventState,
    ttl_secs: u64,
)
    ensures
        (Command::Scan(cursor))@ == CommandModel::Scan(cursor),
        (Command::Get(key))@ == CommandModel::Get(key@),
        (Command::Delete(keys))@ == CommandModel::Delete(keys_view(keys@)),
        (Command::Store { key, state, ttl_secs })@ == CommandModel::Store(key@, state, ttl_secs),
        (Command::Finished)@ == CommandModel::Finished,
        page_view(Some((cursor, keys))) == Some((cursor, keys_view(keys@))),
        page_view(None) is None,
{
}

/// A value that is asked for is judged as that of the signature whose key was asked for.
pub proof fn law_sweep_judges_the_signature_of_the_key(start: SweepModel, replies: Seq<Reply>)
    requires
        is_fresh(start),
        is_sweep(start, replies),
        command_after(start, replies) is Get,
    ensures
        sweep_after(start, replies).current is Some,
        command_after(start, replies)->Get_0 == redis_key(
            start.prefix,
            sweep_after(start, replies).current->0,
        ),
        sweep_after(start, replies).base == start.base,
{
    lemma_sweep(start, replies);
}

/// Times that lie before the base point are stored as the base point, and times that are too large
/// when they are loaded are cut off.
pub proof fn law_times_out_of_range_are_cut_off(
    m: StateModel,
    s: SerializableEventState,
    base: nat,
    now: nat,
)
    ensures
        base > m.counter.first ==> stored_state(m, base).first_suppressed_secs == 0
            && stored_state(m, base).first_suppressed_nanos == 0,
        base > m.counter.last ==> stored_state(m, base).last_suppressed_secs == 0 && stored_state(
            m,
            base,
        ).last_suppressed_nanos == 0,
        base + s.first_suppressed_secs * 1_000_000_000 + s.first_suppressed_nanos > u64::MAX
            ==> loaded_state(s, base, now).counter.first == u64::MAX,
        base + s.last_suppressed_secs * 1_000_000_000 + s.last_suppressed_nanos > u64::MAX
            ==> loaded_state(s, base, now).counter.last == u64::MAX,
{
}

/// A sweep never asks to delete nothing: every list of keys that is to be deleted holds one at
/// least.
pub proof fn law_sweep_deletes_something_or_nothing_at_all(start: SweepModel, replies: Seq<Reply>)
    requires
        is_sweep(start, replies),
    ensures
        command_after(start, replies) matches CommandModel::Delete(keys) ==> keys.len() > 0,
{
    if replies.len() == 0 {
        lemma_move(start);
    } else {
        let was = sweep_after(start, replies.drop_last());
        match replies.last() {
            Reply::Page(page) => lemma_move(with_page(was, page)),
            Reply::PageToClear(page) => lemma_move(emptied(was, page)),
            _ => lemma_move(was),
        }
    }
}

} // verus!
