//! What the policies promise over a whole run of events.
use crate::domain::policy::{
    allow_if, full_level, refilled, unexpired, BackoffModel, BucketModel, CountBasedPolicy,
    CountModel, ExponentialBackoffPolicy, Policy, PolicyDecision, PolicyModel, RateLimitPolicy,
    TimeWindowPolicy, TokenBucketPolicy, WindowModel, BILLIONTH, BILLIONTHS_PER_TOKEN, TOKEN,
};
use crate::time::elapsed;
use vstd::arithmetic::power2::pow2;
use vstd::prelude::*;

verus! {

/// The state of a policy that has registered events at all of `times`, one after the other.
pub open spec fn after<P: RateLimitPolicy>(start: P::State, times: Seq<nat>) -> P::State
    decreases times.len(),
{
    if times.len() == 0 {
        start
    } else {
        P::advanced(after::<P>(start, times.drop_last()), times.last())
    }
}

/// What a policy decides about the event at index `i` of a run.
pub open spec fn nth_decision<P: RateLimitPolicy>(
    start: P::State,
    times: Seq<nat>,
    i: int,
) -> PolicyDecision {
    P::decision(after::<P>(start, times.take(i)), times[i])
}

/// Whether no time in the sequence lies before an earlier one.
pub open spec fn in_order(times: Seq<nat>) -> bool {
    forall|i: int, j: int| 0 <= i <= j < times.len() ==> times[i] <= times[j]
}

/// The state after one more event, in terms of the state before it.
proof fn lemma_after_step<P: RateLimitPolicy>(start: P::State, times: Seq<nat>, i: int)
    requires
        0 <= i < times.len(),
    ensures
        after::<P>(start, times.take(i + 1)) == P::advanced(
            after::<P>(start, times.take(i)),
            times[i],
        ),
{
    assert(times.take(i + 1).drop_last() =~= times.take(i));
    assert(times.take(i + 1).last() == times[i]);
}

proof fn lemma_count_after(start: CountModel, times: Seq<nat>, n: nat)
    requires
        start.registered == 0,
        n <= times.len() <= usize::MAX,
    ensures
        after::<CountBasedPolicy>(start, times.take(n as int)) == (CountModel {
            registered: n as usize,
            ..start
        }),
    decreases n,
{
    if n == 0 {
        assert(times.take(0).len() == 0);
    } else {
        lemma_count_after(start, times, (n - 1) as nat);
        lemma_after_step::<CountBasedPolicy>(start, times, n - 1);
    }
}

/// A count-based policy allows exactly the first `max_count` events, whenever they come.
pub proof fn law_count_based_allows_first_events(start: CountModel, times: Seq<nat>, i: int)
    requires
        start.registered == 0,
        0 <= i < times.len() <= usize::MAX,
    ensures
        nth_decision::<CountBasedPolicy>(start, times, i) == allow_if(i < start.max_count),
{
    lemma_count_after(start, times, i as nat);
}

/// Whether a number is a power of two.
pub open spec fn is_power_of_two(n: nat) -> bool {
    exists|k: nat| n == #[trigger] pow2(k)
}

/// `next` is the first power of two above `registered`, or `u64::MAX` where that is too large.
spec fn backoff_inv(m: BackoffModel, k: nat) -> bool {
    &&& m.registered < pow2(k)
    &&& k > 0 ==> pow2((k - 1) as nat) <= m.registered
    &&& k < 64 ==> m.next_allowed == pow2(k)
    &&& k == 64 ==> m.next_allowed == u64::MAX
    &&& k <= 64
}

proof fn lemma_pow2_values()
    ensures
        pow2(0) == 1,
        pow2(63) == 0x8000_0000_0000_0000,
        pow2(64) == u64::MAX + 1,
{
    vstd::arithmetic::power2::lemma2_to64();
    vstd::arithmetic::power2::lemma2_to64_rest();
}

proof fn lemma_backoff_after(start: BackoffModel, times: Seq<nat>, n: nat) -> (k: nat)
    requires
        start.registered == 0,
        start.next_allowed == 1,
        n <= times.len() < u64::MAX,
    ensures
        after::<ExponentialBackoffPolicy>(start, times.take(n as int)).registered == n,
        backoff_inv(after::<ExponentialBackoffPolicy>(start, times.take(n as int)), k),
    decreases n,
{
    lemma_pow2_values();
    if n == 0 {
        assert(times.take(0).len() == 0);
        0
    } else {
        let k = lemma_backoff_after(start, times, (n - 1) as nat);
        lemma_after_step::<ExponentialBackoffPolicy>(start, times, n - 1);
        vstd::arithmetic::power2::lemma_pow2_unfold(k + 1);
        if n == pow2(k) {
            if k < 63 {
                vstd::arithmetic::power2::lemma_pow2_strictly_increases(k + 1, 64);
            }
            k + 1
        } else {
            k
        }
    }
}

/// An exponential backoff policy allows exactly the events whose number, counting from one, is
/// a power of two.
pub proof fn law_backoff_allows_powers_of_two(start: BackoffModel, times: Seq<nat>, i: int)
    requires
        start.registered == 0,
        start.next_allowed == 1,
        0 <= i < times.len() < u64::MAX,
    ensures
        nth_decision::<ExponentialBackoffPolicy>(start, times, i) == allow_if(
            is_power_of_two((i + 1) as nat),
        ),
{
    lemma_pow2_values();
    let k = lemma_backoff_after(start, times, i as nat);
    let m = after::<ExponentialBackoffPolicy>(start, times.take(i));
    if i + 1 == pow2(k) {
        assert(is_power_of_two((i + 1) as nat));
        if k == 64 {
            assert(false);
        }
    } else if is_power_of_two((i + 1) as nat) {
        let j = choose|j: nat| (i + 1) as nat == #[trigger] pow2(j);
        if j > k {
            vstd::arithmetic::power2::lemma_pow2_strictly_increases(k, j);
        } else if k > 0 && j <= k - 1 {
            if j < k - 1 {
                vstd::arithmetic::power2::lemma_pow2_strictly_increases(j, (k - 1) as nat);
            }
        }
        assert(false);
    }
}

/// The times of the events that a policy has allowed in a run.
pub open spec fn allowed_times<P: RateLimitPolicy>(start: P::State, times: Seq<nat>) -> Seq<nat>
    decreases times.len(),
{
    if times.len() == 0 {
        Seq::empty()
    } else {
        let before = allowed_times::<P>(start, times.drop_last());
        if P::decision(after::<P>(start, times.drop_last()), times.last())
            == PolicyDecision::Allow {
            before.push(times.last())
        } else {
            before
        }
    }
}

/// Those of `times` that lie no more than `window` before `now`.
pub open spec fn within(times: Seq<nat>, window: nat, now: nat) -> Seq<nat> {
    times.filter(|t: nat| elapsed(t, now) <= window)
}

proof fn lemma_filter_all<A>(s: Seq<A>, p: spec_fn(A) -> bool)
    requires
        forall|i: int| 0 <= i < s.len() ==> p(#[trigger] s[i]),
    ensures
        s.filter(p) == s,
    decreases s.len(),
{
    reveal(Seq::filter);
    if s.len() > 0 {
        lemma_filter_all(s.drop_last(), p);
        assert(s.drop_last().push(s.last()) =~= s);
    }
}

proof fn lemma_filter_drop_first<A>(s: Seq<A>, p: spec_fn(A) -> bool)
    requires
        s.len() > 0,
        !p(s[0]),
    ensures
        s.filter(p) == s.drop_first().filter(p),
    decreases s.len(),
{
    reveal_with_fuel(Seq::filter, 2);
    if s.len() == 1 {
        assert(s.drop_last().len() == 0);
        assert(s.drop_first().len() == 0);
    } else {
        lemma_filter_drop_first(s.drop_last(), p);
        assert(s.drop_last().drop_first() =~= s.drop_first().drop_last());
    }
}

/// Taking expired events off the front of ordered times leaves those within the window.
proof fn lemma_unexpired_is_within(times: Seq<nat>, window: nat, now: nat)
    requires
        in_order(times),
    ensures
        unexpired(times, window, now) == within(times, window, now),
    decreases times.len(),
{
    let p = |t: nat| elapsed(t, now) <= window;
    if times.len() > 0 && elapsed(times[0], now) > window {
        assert(!p(times[0]));
        lemma_filter_drop_first(times, p);
        lemma_unexpired_is_within(times.drop_first(), window, now);
    } else {
        assert forall|i: int| 0 <= i < times.len() implies p(#[trigger] times[i]) by {
            assert(times[0] <= times[i]);
        }
        lemma_filter_all(times, p);
    }
}

proof fn lemma_filter_of_filter<A>(s: Seq<A>, p: spec_fn(A) -> bool, q: spec_fn(A) -> bool)
    requires
        forall|a: A| q(a) ==> #[trigger] p(a),
    ensures
        s.filter(p).filter(q) == s.filter(q),
    decreases s.len(),
{
    reveal(Seq::filter);
    if s.len() > 0 {
        lemma_filter_of_filter(s.drop_last(), p, q);
        let inner = s.drop_last().filter(p);
        assert(inner.push(s.last()).drop_last() =~= inner);
    }
}

proof fn lemma_filter_push<A>(s: Seq<A>, a: A, p: spec_fn(A) -> bool)
    ensures
        s.push(a).filter(p) == if p(a) {
            s.filter(p).push(a)
        } else {
            s.filter(p)
        },
{
    reveal(Seq::filter);
    assert(s.push(a).drop_last() =~= s);
}

proof fn lemma_allowed_step<P: RateLimitPolicy>(start: P::State, times: Seq<nat>, i: int)
    requires
        0 <= i < times.len(),
    ensures
        allowed_times::<P>(start, times.take(i + 1)) == if nth_decision::<P>(start, times, i)
            == PolicyDecision::Allow {
            allowed_times::<P>(start, times.take(i)).push(times[i])
        } else {
            allowed_times::<P>(start, times.take(i))
        },
{
    assert(times.take(i + 1).drop_last() =~= times.take(i));
    assert(times.take(i + 1).last() == times[i]);
}

/// What a time-window policy holds after `n` events: its parameters, and the allowed events
/// that were still within the window when the last one came.
proof fn lemma_window_after(start: WindowModel, times: Seq<nat>, n: nat)
    requires
        start.times.len() == 0,
        n <= times.len(),
        in_order(times),
    ensures
        ({
            let m = after::<TimeWindowPolicy>(start, times.take(n as int));
            let allowed = allowed_times::<TimeWindowPolicy>(start, times.take(n as int));
            &&& m.max_events == start.max_events
            &&& m.window == start.window
            &&& in_order(m.times)
            &&& forall|i: int| 0 <= i < m.times.len() ==> #[trigger] m.times[i] <= times[n - 1]
            &&& n > 0 ==> m.times == within(allowed, start.window, times[n - 1])
            &&& n == 0 ==> m.times.len() == 0 && allowed.len() == 0
        }),
    decreases n, 0nat,
{
    if n == 0 {
        assert(times.take(0).len() == 0);
    } else {
        let last = (n - 1) as nat;
        lemma_window_after(start, times, last);
        lemma_after_step::<TimeWindowPolicy>(start, times, last as int);
        lemma_allowed_step::<TimeWindowPolicy>(start, times, last as int);
        let before = after::<TimeWindowPolicy>(start, times.take(last as int));
        let allowed = allowed_times::<TimeWindowPolicy>(start, times.take(last as int));
        let now = times[last as int];
        lemma_window_kept(start, times, last as int);
        let kept = unexpired(before.times, start.window, now);
        assert(kept == within(allowed, start.window, now));
        lemma_filter_push(allowed, now, |t: nat| elapsed(t, now) <= start.window);
        lemma_unexpired_bounds(before.times, start.window, now);
        assert forall|i: int| 0 <= i < kept.len() implies #[trigger] kept[i] <= now by {
            if last > 0 {
                assert(times[last - 1] <= times[last as int]);
            }
        }
    }
}

/// The tail that is left after expiry keeps the order and holds nothing new.
proof fn lemma_unexpired_bounds(times: Seq<nat>, window: nat, now: nat)
    requires
        in_order(times),
    ensures
        in_order(unexpired(times, window, now)),
        unexpired(times, window, now).len() <= times.len(),
        forall|i: int|
            0 <= i < unexpired(times, window, now).len() ==> times.contains(
                #[trigger] unexpired(times, window, now)[i],
            ),
    decreases times.len(),
{
    if times.len() > 0 && elapsed(times[0], now) > window {
        lemma_unexpired_bounds(times.drop_first(), window, now);
        let rest = times.drop_first();
        let kept = unexpired(rest, window, now);
        assert forall|i: int| 0 <= i < kept.len() implies times.contains(#[trigger] kept[i]) by {
            assert(rest.contains(kept[i]));
            let j = choose|j: int| 0 <= j < rest.len() && rest[j] == kept[i];
            assert(times[j + 1] == kept[i]);
        }
    }
}

/// What a time-window policy counts when it decides about event `i`: the events that it has
/// allowed within the window.
proof fn lemma_window_kept(start: WindowModel, times: Seq<nat>, i: int)
    requires
        start.times.len() == 0,
        0 <= i < times.len(),
        in_order(times),
    ensures
        unexpired(
            after::<TimeWindowPolicy>(start, times.take(i)).times,
            start.window,
            times[i],
        ) == within(
            allowed_times::<TimeWindowPolicy>(start, times.take(i)),
            start.window,
            times[i],
        ),
    decreases i, 1nat,
{
    lemma_window_after(start, times, i as nat);
    let before = after::<TimeWindowPolicy>(start, times.take(i));
    let allowed = allowed_times::<TimeWindowPolicy>(start, times.take(i));
    lemma_unexpired_is_within(before.times, start.window, times[i]);
    if i > 0 {
        let p = |t: nat| elapsed(t, times[i - 1]) <= start.window;
        let q = |t: nat| elapsed(t, times[i]) <= start.window;
        assert(times[i - 1] <= times[i]);
        lemma_filter_of_filter(allowed, p, q);
    } else {
        reveal(Seq::filter);
        assert(before.times =~= allowed);
    }
}

/// As long as time does not run backwards, a time-window policy allows an event exactly if it
/// has allowed fewer than `max_events` within the window that ends with the event.
pub proof fn law_time_window_counts_allowed_events(start: WindowModel, times: Seq<nat>, i: int)
    requires
        start.times.len() == 0,
        in_order(times),
        0 <= i < times.len(),
    ensures
        nth_decision::<TimeWindowPolicy>(start, times, i) == allow_if(
            within(
                allowed_times::<TimeWindowPolicy>(start, times.take(i)),
                start.window,
                times[i],
            ).len() < start.max_events,
        ),
{
    lemma_window_after(start, times, i as nat);
    lemma_window_kept(start, times, i);
}

/// Once all that it has allowed has left the window, a time-window policy allows events again.
pub proof fn law_time_window_recovers(start: WindowModel, times: Seq<nat>, i: int)
    requires
        start.times.len() == 0,
        start.max_events > 0,
        in_order(times),
        0 <= i < times.len(),
        forall|j: int| 0 <= j < i ==> elapsed(#[trigger] times[j], times[i]) > start.window,
    ensures
        nth_decision::<TimeWindowPolicy>(start, times, i) == PolicyDecision::Allow,
{
    law_time_window_counts_allowed_events(start, times, i);
    let allowed = allowed_times::<TimeWindowPolicy>(start, times.take(i));
    let p = |t: nat| elapsed(t, times[i]) <= start.window;
    lemma_allowed_among(start, times, i);
    if allowed.filter(p).len() > 0 {
        let t = allowed.filter(p)[0];
        allowed.lemma_filter_pred(p, 0);
        assert(allowed.filter(p).contains(t));
        allowed.lemma_filter_contains_rev(p, t);
        let k = choose|k: int| 0 <= k < allowed.len() && allowed[k] == t;
        assert(times.take(i).contains(allowed[k]));
        let part = times.take(i);
        let j = choose|j: int| 0 <= j < part.len() && part[j] == t;
        assert(times[j] == t);
    }
}

/// What was allowed is among what came.
proof fn lemma_allowed_among(start: WindowModel, times: Seq<nat>, n: int)
    requires
        0 <= n <= times.len(),
    ensures
        forall|k: int|
            0 <= k < allowed_times::<TimeWindowPolicy>(start, times.take(n)).len()
                ==> times.take(n).contains(
                #[trigger] allowed_times::<TimeWindowPolicy>(start, times.take(n))[k],
            ),
    decreases n,
{
    if n > 0 {
        lemma_allowed_among(start, times, n - 1);
        lemma_allowed_step::<TimeWindowPolicy>(start, times, n - 1);
        let before = allowed_times::<TimeWindowPolicy>(start, times.take(n - 1));
        let now = allowed_times::<TimeWindowPolicy>(start, times.take(n));
        assert forall|k: int| 0 <= k < now.len() implies times.take(n).contains(
            #[trigger] now[k],
        ) by {
            if k < before.len() {
                assert(times.take(n - 1).contains(before[k]));
                let part = times.take(n - 1);
                let j = choose|j: int| 0 <= j < part.len() && part[j] == before[k];
                assert(times.take(n)[j] == now[k]);
            } else {
                assert(times.take(n)[n - 1] == now[k]);
            }
        }
    } else {
        assert(times.take(0).len() == 0);
    }
}

/// A token bucket that can hold a token, and has had time to gain one, allows the next event.
pub proof fn law_token_bucket_recovers(m: BucketModel, now: nat)
    requires
        full_level(m.capacity) >= TOKEN,
        m.last_refill is Some,
        elapsed(m.last_refill->0, now) * m.refill_rate >= TOKEN,
    ensures
        TokenBucketPolicy::decision(m, now) == PolicyDecision::Allow,
{
}

/// A token bucket never holds more than its capacity, and every allowed event has taken a token
/// out of it: what was taken and what is left is no more than the first filling and what has
/// been refilled since the first event.
proof fn lemma_bucket_after(start: BucketModel, times: Seq<nat>, n: nat)
    requires
        start.level == full_level(start.capacity),
        start.last_refill is None,
        0 < n <= times.len(),
        forall|i: int| 0 <= i < times.len() ==> times[0] <= #[trigger] times[i],
    ensures
        ({
            let m = after::<TokenBucketPolicy>(start, times.take(n as int));
            let allowed = allowed_times::<TokenBucketPolicy>(start, times.take(n as int));
            let at = m.last_refill->0;
            &&& m.capacity == start.capacity
            &&& m.refill_rate == start.refill_rate
            &&& m.last_refill is Some
            &&& times[0] <= at
            &&& exists|i: int| 0 <= i < n && #[trigger] times[i] == at
            &&& m.level <= full_level(start.capacity)
            &&& allowed.len() * TOKEN + m.level <= full_level(start.capacity) + (at - times[0])
                * start.refill_rate
        }),
    decreases n,
{
    let last = n - 1;
    lemma_after_step::<TokenBucketPolicy>(start, times, last);
    lemma_allowed_step::<TokenBucketPolicy>(start, times, last);
    assert(times.take(0).len() == 0);
    let m = after::<TokenBucketPolicy>(start, times.take(n as int));
    if n > 1 {
        lemma_bucket_after(start, times, last as nat);
        let before = after::<TokenBucketPolicy>(start, times.take(last));
        let was = before.last_refill->0;
        let i = choose|i: int| 0 <= i < last && #[trigger] times[i] == was;
        assert(times[i] == m.last_refill->0 || times[last] == m.last_refill->0);
        let a = was - times[0];
        let b = elapsed(was, times[last]) as int;
        let rate = start.refill_rate as int;
        assert((a + b) * rate == a * rate + b * rate) by (nonlinear_arith);
        assert(b * rate >= 0) by (nonlinear_arith)
            requires
                b >= 0,
                rate >= 0,
        ;
        assert(m.last_refill->0 - times[0] == a + b);
        assert(refilled(before, times[last]) <= before.level + b * rate);
    } else {
        assert(times[0] == m.last_refill->0);
    }
}

/// A token bucket that starts full allows no more than its capacity and what has been refilled
/// between the first event and the latest one, in whatever order the events come after the
/// first.
pub proof fn law_token_bucket_bounds_allowed_events(
    start: BucketModel,
    times: Seq<nat>,
    latest: nat,
)
    requires
        start.level == full_level(start.capacity),
        start.last_refill is None,
        times.len() > 0,
        forall|i: int| 0 <= i < times.len() ==> times[0] <= #[trigger] times[i] <= latest,
    ensures
        allowed_times::<TokenBucketPolicy>(start, times).len() * TOKEN <= start.capacity
            * BILLIONTH + (latest - times[0]) * start.refill_rate,
{
    lemma_bucket_after(start, times, times.len());
    assert(times.take(times.len() as int) =~= times);
    let at = after::<TokenBucketPolicy>(start, times).last_refill->0;
    assert((at - times[0]) * start.refill_rate <= (latest - times[0]) * start.refill_rate)
        by (nonlinear_arith)
        requires
            at <= latest,
            0 <= start.refill_rate,
    ;
}

/// A token bucket that starts full lets a burst of events pass, as many as it holds tokens.
pub proof fn law_token_bucket_allows_burst(start: BucketModel, times: Seq<nat>, i: int)
    requires
        start.level == full_level(start.capacity),
        start.last_refill is None,
        0 <= i < times.len(),
        (i + 1) * TOKEN <= full_level(start.capacity),
    ensures
        nth_decision::<TokenBucketPolicy>(start, times, i) == PolicyDecision::Allow,
{
    lemma_burst_level(start, times, i as nat);
}

proof fn lemma_burst_level(start: BucketModel, times: Seq<nat>, n: nat)
    requires
        start.level == full_level(start.capacity),
        n <= times.len(),
        n * TOKEN <= full_level(start.capacity),
    ensures
        ({
            let m = after::<TokenBucketPolicy>(start, times.take(n as int));
            &&& m.capacity == start.capacity
            &&& m.level >= full_level(start.capacity) - n * TOKEN
        }),
    decreases n,
{
    assert(times.take(0).len() == 0);
    if n > 0 {
        lemma_burst_level(start, times, (n - 1) as nat);
        lemma_after_step::<TokenBucketPolicy>(start, times, n - 1);
        let m = after::<TokenBucketPolicy>(start, times.take(n - 1));
        assert(refilled(m, times[n - 1]) >= m.level || refilled(m, times[n - 1]) == full_level(
            start.capacity,
        ));
    }
}

/// Registering events does not touch the parameters of a policy, so a reset takes it back to
/// the state that it was built in, whatever happened in between.
pub proof fn law_reset_restores_initial_state(start: PolicyModel, times: Seq<nat>)
    requires
        Policy::cleared(start) == start,
    ensures
        Policy::cleared(after::<Policy>(start, times)) == start,
    decreases times.len(),
{
    if times.len() > 0 {
        law_reset_restores_initial_state(start, times.drop_last());
    }
}

// ---------------------------------------------------------------------------------------------
// Policies of all kinds, by numbers
// ---------------------------------------------------------------------------------------------

proof fn lemma_any_count_based(m: CountModel, times: Seq<nat>)
    ensures
        after::<Policy>(PolicyModel::CountBased(m), times) == PolicyModel::CountBased(
            after::<CountBasedPolicy>(m, times),
        ),
    decreases times.len(),
{
    if times.len() > 0 {
        lemma_any_count_based(m, times.drop_last());
    }
}

proof fn lemma_any_window(m: WindowModel, times: Seq<nat>)
    ensures
        after::<Policy>(PolicyModel::TimeWindow(m), times) == PolicyModel::TimeWindow(
            after::<TimeWindowPolicy>(m, times),
        ),
    decreases times.len(),
{
    if times.len() > 0 {
        lemma_any_window(m, times.drop_last());
    }
}

proof fn lemma_any_backoff(m: BackoffModel, times: Seq<nat>)
    ensures
        after::<Policy>(PolicyModel::ExponentialBackoff(m), times)
            == PolicyModel::ExponentialBackoff(after::<ExponentialBackoffPolicy>(m, times)),
    decreases times.len(),
{
    if times.len() > 0 {
        lemma_any_backoff(m, times.drop_last());
    }
}

proof fn lemma_any_bucket(m: BucketModel, times: Seq<nat>)
    ensures
        after::<Policy>(PolicyModel::TokenBucket(m), times) == PolicyModel::TokenBucket(
            after::<TokenBucketPolicy>(m, times),
        ),
    decreases times.len(),
{
    if times.len() > 0 {
        lemma_any_bucket(m, times.drop_last());
    }
}

proof fn lemma_count_from(m: CountModel, times: Seq<nat>)
    requires
        m.registered + times.len() <= usize::MAX,
    ensures
        after::<CountBasedPolicy>(m, times).registered == m.registered + times.len(),
        after::<CountBasedPolicy>(m, times).max_count == m.max_count,
    decreases times.len(),
{
    if times.len() > 0 {
        lemma_count_from(m, times.drop_last());
    }
}

/// A count-based policy that has registered some events allows exactly as many more as are left of
/// `max_count`, whenever they come, and goes on registering as long as it can count.
pub proof fn law_count_based_policy_allows_the_rest(m: CountModel, times: Seq<nat>, i: int)
    requires
        0 <= i < times.len(),
        m.registered + times.len() <= usize::MAX,
    ensures
        nth_decision::<Policy>(PolicyModel::CountBased(m), times, i) == PolicyDecision::Allow
            <==> m.registered + i < m.max_count,
        nth_decision::<Policy>(PolicyModel::CountBased(m), times, i) == PolicyDecision::Suppress
            <==> m.registered + i >= m.max_count,
        Policy::has_room(after::<Policy>(PolicyModel::CountBased(m), times.take(i))),
{
    lemma_any_count_based(m, times.take(i));
    lemma_count_from(m, times.take(i));
}

/// An exponential backoff policy that starts afresh can register every event for as long as it can
/// count, and allows exactly those whose number, counting from one, is a power of two.
pub proof fn law_backoff_policy_allows_powers_of_two(start: BackoffModel, times: Seq<nat>, i: int)
    requires
        start.registered == 0,
        start.next_allowed == 1,
        0 <= i < times.len() < u64::MAX,
    ensures
        nth_decision::<Policy>(PolicyModel::ExponentialBackoff(start), times, i)
            == PolicyDecision::Allow <==> exists|k: nat| i + 1 == #[trigger] pow2(k),
        Policy::has_room(after::<Policy>(PolicyModel::ExponentialBackoff(start), times.take(i))),
{
    lemma_any_backoff(start, times.take(i));
    law_backoff_allows_powers_of_two(start, times, i);
    let k = lemma_backoff_after(start, times, i as nat);
}

/// An exponential backoff policy in any state: it has room until its counter is full; it allows an
/// event exactly if it is the one that it waits for, and then waits for the one with twice the
/// number, as far as that can be counted.
pub proof fn law_backoff_policy_waits_for_twice_the_number(m: BackoffModel, now: nat)
    requires
        m.registered < u64::MAX,
    ensures
        Policy::has_room(PolicyModel::ExponentialBackoff(m)),
        Policy::decision(PolicyModel::ExponentialBackoff(m), now) == PolicyDecision::Allow
            <==> m.registered + 1 == m.next_allowed,
        Policy::advanced(PolicyModel::ExponentialBackoff(m), now) matches
            PolicyModel::ExponentialBackoff(next) && next.registered == m.registered + 1 && (
        m.registered + 1 != m.next_allowed ==> next.next_allowed == m.next_allowed) && (
        m.registered + 1 == m.next_allowed && 2 * m.next_allowed <= u64::MAX ==> next.next_allowed
            == 2 * m.next_allowed) && (m.registered + 1 == m.next_allowed && 2 * m.next_allowed
            > u64::MAX ==> next.next_allowed == u64::MAX),
{
}

/// How many of the first `n` events were allowed and lie no more than `window` before `now`.
pub open spec fn recently_allowed(
    start: PolicyModel,
    times: Seq<nat>,
    window: nat,
    now: nat,
    n: int,
) -> nat
    decreases n,
{
    if n <= 0 {
        0
    } else {
        recently_allowed(start, times, window, now, n - 1) + if nth_decision::<Policy>(
            start,
            times,
            n - 1,
        ) == PolicyDecision::Allow && now <= times[n - 1] + window {
            1nat
        } else {
            0nat
        }
    }
}

proof fn lemma_recently_allowed(
    start: WindowModel,
    times: Seq<nat>,
    now: nat,
    n: int,
)
    requires
        0 <= n <= times.len(),
    ensures
        recently_allowed(PolicyModel::TimeWindow(start), times, start.window, now, n) == within(
            allowed_times::<TimeWindowPolicy>(start, times.take(n)),
            start.window,
            now,
        ).len(),
    decreases n,
{
    reveal(Seq::filter);
    if n == 0 {
        assert(times.take(0).len() == 0);
    } else {
        lemma_recently_allowed(start, times, now, n - 1);
        lemma_allowed_step::<TimeWindowPolicy>(start, times, n - 1);
        lemma_any_window(start, times.take(n - 1));
        lemma_filter_push(
            allowed_times::<TimeWindowPolicy>(start, times.take(n - 1)),
            times[n - 1],
            |t: nat| elapsed(t, now) <= start.window,
        );
    }
}

/// As long as time does not run backwards, a time-window policy that starts afresh allows an event
/// exactly if fewer than `max_events` of those that it has allowed lie no more than the window
/// before it. It can always register an event.
pub proof fn law_time_window_policy_counts_what_it_allowed(
    start: WindowModel,
    times: Seq<nat>,
    i: int,
)
    requires
        start.times.len() == 0,
        forall|a: int, b: int| 0 <= a <= b < times.len() ==> times[a] <= times[b],
        0 <= i < times.len(),
    ensures
        nth_decision::<Policy>(PolicyModel::TimeWindow(start), times, i) == PolicyDecision::Allow
            <==> recently_allowed(
            PolicyModel::TimeWindow(start),
            times,
            start.window,
            times[i],
            i,
        ) < start.max_events,
        Policy::has_room(after::<Policy>(PolicyModel::TimeWindow(start), times.take(i))),
{
    assert(in_order(times));
    law_time_window_counts_allowed_events(start, times, i);
    lemma_recently_allowed(start, times, times[i], i);
    lemma_any_window(start, times.take(i));
}

/// A time-window policy in any state, and at any time: it forgets, from the oldest on, events that
/// lie more than the window back, and no others; an event is allowed exactly if fewer than
/// `max_events` are left, and is then remembered with its time.
pub proof fn law_time_window_policy_forgets_only_what_is_over(m: WindowModel, now: nat)
    ensures
        exists|k: int|
            {
                let left = m.times.len() - k;
                &&& 0 <= k <= m.times.len()
                &&& forall|j: int| 0 <= j < k ==> now > #[trigger] m.times[j] + m.window
                &&& k < m.times.len() ==> now <= m.times[k] + m.window
                &&& Policy::decision(PolicyModel::TimeWindow(m), now) == PolicyDecision::Allow
                    <==> left < m.max_events
                &&& Policy::advanced(PolicyModel::TimeWindow(m), now)
                    == PolicyModel::TimeWindow(
                    WindowModel {
                        max_events: m.max_events,
                        window: m.window,
                        times: if left < m.max_events {
                            (#[trigger] m.times.skip(k)).push(now)
                        } else {
                            m.times.skip(k)
                        },
                    },
                )
            },
        Policy::has_room(PolicyModel::TimeWindow(m)),
{
    let k = lemma_unexpired_is_tail(m.times, m.window, now);
    assert(m.times.skip(k) == unexpired(m.times, m.window, now));
}

proof fn lemma_unexpired_is_tail(times: Seq<nat>, window: nat, now: nat) -> (k: int)
    ensures
        0 <= k <= times.len(),
        times.skip(k) == unexpired(times, window, now),
        forall|j: int| 0 <= j < k ==> now > #[trigger] times[j] + window,
        k < times.len() ==> now <= times[k] + window,
    decreases times.len(),
{
    if times.len() > 0 && elapsed(times[0], now) > window {
        let rest = times.drop_first();
        let k = lemma_unexpired_is_tail(rest, window, now);
        assert(times.skip(k + 1) =~= rest.skip(k));
        assert forall|j: int| 0 <= j < k + 1 implies now > #[trigger] times[j] + window by {
            if j > 0 {
                assert(rest[j - 1] == times[j]);
            }
        }
        k + 1
    } else {
        assert(times.skip(0) =~= times);
        0
    }
}

/// What a token bucket holds when an event comes, and what it holds afterwards: what was left after
/// the last event and what has come in since then at the refill rate, but no more than the
/// capacity. An event is allowed exactly if that is at least one token, which it takes. Where time
/// runs backwards nothing comes in, and nothing comes in twice.
pub proof fn law_token_bucket_policy_refills_steadily(m: BucketModel, last: nat, now: nat)
    requires
        m.last_refill == Some(last),
        m.capacity * 1_000_000_000 <= u128::MAX,
    ensures
        ({
            let came_in = if now >= last {
                (now - last) * m.refill_rate
            } else {
                0
            };
            let full = m.capacity * 1_000_000_000;
            let held = if m.level + came_in <= full {
                m.level + came_in
            } else {
                full
            };
            let p = PolicyModel::TokenBucket(m);
            &&& Policy::has_room(p)
            &&& Policy::decision(p, now) == PolicyDecision::Allow <==> held
                >= 1_000_000_000_000_000_000
            &&& Policy::advanced(p, now) == PolicyModel::TokenBucket(
                BucketModel {
                    capacity: m.capacity,
                    refill_rate: m.refill_rate,
                    level: (if held >= 1_000_000_000_000_000_000 {
                        held - 1_000_000_000_000_000_000
                    } else {
                        held
                    }) as nat,
                    last_refill: Some(
                        if now >= last {
                            now
                        } else {
                            last
                        },
                    ),
                },
            )
        }),
{
}

/// The first event finds a token bucket as it was made: nothing has come in before.
pub proof fn law_token_bucket_policy_starts_as_it_was_made(m: BucketModel, now: nat)
    requires
        m.last_refill is None,
        m.capacity * 1_000_000_000 <= u128::MAX,
        m.level <= m.capacity * 1_000_000_000,
    ensures
        ({
            let p = PolicyModel::TokenBucket(m);
            &&& Policy::has_room(p)
            &&& Policy::decision(p, now) == PolicyDecision::Allow <==> m.level
                >= 1_000_000_000_000_000_000
            &&& Policy::advanced(p, now) matches PolicyModel::TokenBucket(next) && next.capacity
                == m.capacity && next.refill_rate == m.refill_rate && next.last_refill == Some(now)
                && (m.level >= 1_000_000_000_000_000_000 ==> next.level == m.level
                - 1_000_000_000_000_000_000) && (m.level < 1_000_000_000_000_000_000
                ==> next.level == m.level)
        }),
{
}

/// In whole tokens: of a bucket for `capacity` tokens that gains `rate` tokens per second and holds
/// `left` tokens, an event `secs` seconds after the last one finds the smaller of `capacity` and
/// `left + rate * secs` tokens, and takes one if there is one.
pub proof fn law_token_bucket_policy_gains_whole_tokens(
    capacity: u64,
    rate: u64,
    left: u64,
    last: nat,
    secs: nat,
)
    requires
        left <= capacity,
    ensures
        ({
            let held = if left + rate * secs <= capacity {
                left + rate * secs
            } else {
                capacity as int
            };
            let bucket = |tokens: int, at: nat|
                PolicyModel::TokenBucket(
                    BucketModel {
                        capacity: (capacity * BILLIONTHS_PER_TOKEN) as u128,
                        refill_rate: (rate * BILLIONTHS_PER_TOKEN) as u128,
                        level: (tokens * TOKEN) as nat,
                        last_refill: Some(at),
                    },
                );
            let now = last + secs * 1_000_000_000;
            &&& Policy::decision(bucket(left as int, last), now) == PolicyDecision::Allow <==> held
                >= 1
            &&& held >= 1 ==> Policy::advanced(bucket(left as int, last), now) == bucket(
                held - 1,
                now,
            )
            &&& held == 0 ==> Policy::advanced(bucket(left as int, last), now) == bucket(0, now)
        }),
{
    let now = last + secs * 1_000_000_000;
    let m = BucketModel {
        capacity: (capacity * BILLIONTHS_PER_TOKEN) as u128,
        refill_rate: (rate * BILLIONTHS_PER_TOKEN) as u128,
        level: (left * TOKEN) as nat,
        last_refill: Some(last),
    };
    let gained = (now - last) * m.refill_rate;
    let r = rate as int;
    let s = secs as int;
    assert(s >= 0 && r >= 0);
    assert(gained == (s * 1_000_000_000) * (r * 1_000_000_000));
    assert((s * 1_000_000_000) * (r * 1_000_000_000) == (r * s) * 1_000_000_000_000_000_000)
        by (nonlinear_arith);
    assert(elapsed(last, now) * m.refill_rate as nat == gained);
}

proof fn lemma_rested_burst(m: BucketModel, times: Seq<nat>, n: nat)
    requires
        m.last_refill is Some,
        times.len() > 0,
        m.last_refill->0 <= times[0],
        (times[0] - m.last_refill->0) * m.refill_rate >= full_level(m.capacity),
        0 < n <= times.len(),
        n * TOKEN <= full_level(m.capacity),
    ensures
        ({
            let x = after::<TokenBucketPolicy>(m, times.take(n as int));
            &&& x.capacity == m.capacity
            &&& x.level >= full_level(m.capacity) - n * TOKEN
            &&& x.level <= full_level(m.capacity)
        }),
    decreases n,
{
    lemma_after_step::<TokenBucketPolicy>(m, times, n - 1);
    if n == 1 {
        assert(times.take(0).len() == 0);
        assert(elapsed(m.last_refill->0, times[0]) * m.refill_rate as nat == (times[0]
            - m.last_refill->0) * m.refill_rate);
    } else {
        lemma_rested_burst(m, times, (n - 1) as nat);
        let x = after::<TokenBucketPolicy>(m, times.take(n - 1));
        assert(refilled(x, times[n - 1]) >= x.level || refilled(x, times[n - 1]) == full_level(
            m.capacity,
        ));
    }
}

/// A token bucket that was left alone for as long as it takes to fill it, whatever was in it, lets
/// a full burst pass: as many events as it holds tokens.
pub proof fn law_rested_token_bucket_allows_a_full_burst(
    m: BucketModel,
    last: nat,
    times: Seq<nat>,
    i: int,
)
    requires
        m.last_refill == Some(last),
        m.capacity * 1_000_000_000 <= u128::MAX,
        0 <= i < times.len(),
        last <= times[0],
        (times[0] - last) * m.refill_rate >= m.capacity * 1_000_000_000,
        (i + 1) * 1_000_000_000_000_000_000 <= m.capacity * 1_000_000_000,
    ensures
        nth_decision::<Policy>(PolicyModel::TokenBucket(m), times, i) == PolicyDecision::Allow,
{
    lemma_any_bucket(m, times.take(i));
    if i == 0 {
        assert(times.take(0).len() == 0);
        assert(elapsed(last, times[0]) * m.refill_rate as nat == (times[0] - last)
            * m.refill_rate);
    } else {
        lemma_rested_burst(m, times, i as nat);
        let x = after::<TokenBucketPolicy>(m, times.take(i));
        assert(refilled(x, times[i]) >= x.level || refilled(x, times[i]) == full_level(
            m.capacity,
        ));
    }
}

/// A reset takes a policy back to the state in which one with the same parameters is made.
pub proof fn law_reset_is_a_fresh_start(p: PolicyModel)
    ensures
        p matches PolicyModel::CountBased(m) ==> Policy::cleared(p) == PolicyModel::CountBased(
            CountModel { max_count: m.max_count, registered: 0 },
        ),
        p matches PolicyModel::TimeWindow(m) ==> Policy::cleared(p) == PolicyModel::TimeWindow(
            WindowModel { max_events: m.max_events, window: m.window, times: Seq::empty() },
        ),
        p is ExponentialBackoff ==> Policy::cleared(p) == PolicyModel::ExponentialBackoff(
            BackoffModel { registered: 0, next_allowed: 1 },
        ),
        p matches PolicyModel::TokenBucket(m) ==> m.capacity * 1_000_000_000 <= u128::MAX
            ==> Policy::cleared(p) == PolicyModel::TokenBucket(
            BucketModel {
                capacity: m.capacity,
                refill_rate: m.refill_rate,
                level: (m.capacity * 1_000_000_000) as nat,
                last_refill: None,
            },
        ),
{
}

/// A bucket that would hold more than can be counted is full at the largest number.
pub proof fn law_full_bucket_is_counted_as_far_as_possible(capacity: u128)
    ensures
        full_level(capacity) <= capacity * 1_000_000_000,
        full_level(capacity) <= u128::MAX,
        full_level(capacity) == capacity * 1_000_000_000 || full_level(capacity) == u128::MAX,
{
}

} // verus!
