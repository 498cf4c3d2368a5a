//! What counters and summaries promise, by numbers and by words.
use crate::domain::metadata::{detailed, MetadataModel};
use crate::domain::summary::{
    claim_of, claimable, claimed, counter_run, counts_fit, debug_span, detailed_text,
    fresh_counter, law_claims_conserve_suppressions, law_first_suppression_is_kept, message_text,
    recorded, recorded_since, rest_nanos, restored, rolled_back, standing, summary_of_claim,
    summary_of_counter, takes_back_what_stands, two_decimals, unreported, whole_secs, ClaimModel,
    CounterModel, CounterStep, SummaryModel,
};
use crate::text::{decimal, hex16};
use crate::time::clamp_u64;
use vstd::prelude::*;

verus! {

/// The seconds and nanoseconds that are written out make up the whole duration, and the nanoseconds
/// are less than a second.
pub proof fn law_written_duration_is_the_whole_duration(duration: nat)
    requires
        duration <= 18_446_744_073_709_551_615_999_999_999,
    ensures
        whole_secs(duration) * 1_000_000_000 + rest_nanos(duration) == duration,
        rest_nanos(duration) < 1_000_000_000,
{
}

/// What a summary says in one line: how often, over how many seconds, and of which event. Of an
/// event that is known it gives level, target and message; else its signature in sixteen digits.
pub proof fn law_message_says_how_often_how_long_and_what(m: SummaryModel, secs: u64, nanos: u32)
    requires
        nanos < 1_000_000_000,
        secs * 1_000_000_000 + nanos == m.duration,
    ensures
        ({
            let text = message_text(
                m,
                two_decimals(whole_secs(m.duration), rest_nanos(m.duration)),
                debug_span(whole_secs(m.duration), rest_nanos(m.duration)),
            );
            &&& m.metadata matches Some(event) ==> text == "Suppressed "@ + decimal(m.count as nat)
                + " times over "@ + two_decimals(secs, nanos) + "s: "@ + ("["@ + event.level
                + "] "@ + event.target + ": "@ + event.message)
            &&& m.metadata is None ==> text == "Event suppressed "@ + decimal(m.count as nat)
                + " times over "@ + debug_span(secs, nanos) + " (signature: "@ + hex16(
                m.signature,
            ) + ")"@
        }),
{
    law_written_duration_is_the_whole_duration(m.duration);
}

/// The detailed line differs in one thing only: of an event that is known it also gives the fields.
pub proof fn law_detailed_message_also_gives_the_fields(m: SummaryModel, secs: u64, nanos: u32)
    requires
        nanos < 1_000_000_000,
        secs * 1_000_000_000 + nanos == m.duration,
    ensures
        ({
            let seconds = two_decimals(whole_secs(m.duration), rest_nanos(m.duration));
            let span = debug_span(whole_secs(m.duration), rest_nanos(m.duration));
            &&& m.metadata matches Some(event) ==> detailed_text(m, seconds, span)
                == "Suppressed "@ + decimal(m.count as nat) + " times over "@ + two_decimals(
                secs,
                nanos,
            ) + "s: "@ + detailed(event)
            &&& m.metadata is None ==> detailed_text(m, seconds, span) == message_text(
                m,
                seconds,
                span,
            )
        }),
{
    law_written_duration_is_the_whole_duration(m.duration);
}

/// A summary gives what was counted: all suppressions of a counter, or those that a claim covers,
/// with the times of the first and the last one, and the time between them.
pub proof fn law_summary_gives_what_was_counted(
    signature: u64,
    m: CounterModel,
    metadata: Option<MetadataModel>,
)
    ensures
        ({
            let all = summary_of_counter(signature, m, metadata);
            let part = summary_of_claim(signature, claim_of(m), metadata);
            &&& all.signature == signature && part.signature == signature
            &&& all.metadata == metadata && part.metadata == metadata
            &&& all.count == m.suppressed
            &&& all.first == m.first
            &&& all.last == m.last
            &&& m.first <= m.last ==> all.first + all.duration == all.last
            &&& m.first > m.last ==> all.duration == 0
            &&& m.reported <= m.suppressed ==> part.count == m.suppressed - m.reported
            &&& part.first == m.first_unreported
            &&& part.last == m.last
            &&& m.first_unreported <= m.last ==> part.first + part.duration == part.last
            &&& m.first_unreported > m.last ==> part.duration == 0
        }),
{
}

/// The times of all suppressions since the counter last started over.
pub open spec fn record_times(steps: Seq<CounterStep>) -> Seq<nat>
    decreases steps.len(),
{
    if steps.len() == 0 {
        Seq::empty()
    } else {
        let before = record_times(steps.drop_last());
        match steps.last() {
            CounterStep::Record(at) => before.push(at),
            CounterStep::Reset(_) => Seq::empty(),
            _ => before,
        }
    }
}

/// When the counter last started over, or at first `now`.
pub open spec fn started_at(now: nat, steps: Seq<CounterStep>) -> nat
    decreases steps.len(),
{
    if steps.len() == 0 {
        now
    } else {
        match steps.last() {
            CounterStep::Reset(at) => at,
            _ => started_at(now, steps.drop_last()),
        }
    }
}

/// When the `n`th suppression was, counting from one; before the first one, when the counter
/// started.
pub open spec fn time_of(now: nat, steps: Seq<CounterStep>, n: int) -> nat {
    if n <= 0 {
        started_at(now, steps)
    } else {
        record_times(steps)[n - 1]
    }
}

/// Whether a claim remembers when what it covers began, and when what came before it ended.
spec fn remembers(now: nat, steps: Seq<CounterStep>, claim: ClaimModel) -> bool {
    &&& claim.previous_reported < record_times(steps).len()
    &&& claim.first == clamp_u64(record_times(steps)[claim.previous_reported as int])
    &&& claim.previous_last_reported == clamp_u64(
        time_of(now, steps, claim.previous_reported as int),
    )
}

proof fn lemma_record_times_len(steps: Seq<CounterStep>)
    ensures
        record_times(steps).len() == recorded_since(steps),
    decreases steps.len(),
{
    if steps.len() > 0 {
        lemma_record_times_len(steps.drop_last());
    }
}

proof fn lemma_counter_times(now: nat, steps: Seq<CounterStep>)
    requires
        counts_fit(steps),
        takes_back_what_stands(fresh_counter(now), steps),
    ensures
        ({
            let m = counter_run(fresh_counter(now), steps);
            let times = record_times(steps);
            &&& m.suppressed == times.len()
            &&& m.reported <= m.suppressed
            &&& m.last == clamp_u64(time_of(now, steps, times.len() as int))
            &&& m.reported < times.len() ==> m.first_unreported == clamp_u64(
                times[m.reported as int],
            )
            &&& m.last_reported == clamp_u64(time_of(now, steps, m.reported as int))
            &&& forall|i: int|
                0 <= i < standing(fresh_counter(now), steps).len() ==> remembers(
                    now,
                    steps,
                    #[trigger] standing(fresh_counter(now), steps)[i],
                )
        }),
    decreases steps.len(),
{
    lemma_record_times_len(steps);
    law_claims_conserve_suppressions(now, steps);
    let start = fresh_counter(now);
    if steps.len() > 0 {
        let earlier = steps.drop_last();
        lemma_counter_times(now, earlier);
        law_claims_conserve_suppressions(now, earlier);
        let before = counter_run(start, earlier);
        let claims = standing(start, earlier);
        let times = record_times(earlier);
        match steps.last() {
            CounterStep::Record(at) => {
                assert forall|i: int| 0 <= i < standing(start, steps).len() implies remembers(
                    now,
                    steps,
                    #[trigger] standing(start, steps)[i],
                ) by {
                    assert(remembers(now, earlier, claims[i]));
                }
            },
            CounterStep::Claim(min_count) => {
                if claimable(before, min_count) {
                    assert(remembers(now, steps, claim_of(before)));
                    assert forall|i: int| 0 <= i < standing(start, steps).len() implies remembers(
                        now,
                        steps,
                        #[trigger] standing(start, steps)[i],
                    ) by {
                        if i < claims.len() {
                            assert(remembers(now, earlier, claims[i]));
                        }
                    }
                } else {
                    assert forall|i: int| 0 <= i < standing(start, steps).len() implies remembers(
                        now,
                        steps,
                        #[trigger] standing(start, steps)[i],
                    ) by {
                        assert(remembers(now, earlier, claims[i]));
                    }
                }
            },
            CounterStep::Rollback(claim) => {
                assert forall|i: int| 0 <= i < standing(start, steps).len() implies remembers(
                    now,
                    steps,
                    #[trigger] standing(start, steps)[i],
                ) by {
                    assert(remembers(now, earlier, claims[i]));
                }
                if claims.contains(claim) {
                    let i = claims.index_of(claim);
                    assert(remembers(now, earlier, claims[i]));
                }
            },
            CounterStep::Reset(at) => {},
        }
    }
}

/// What a counter knows at any time, whatever was recorded, claimed, taken back or started over:
/// the number of suppressions since it last started over, and the times of the first one, the last
/// one, the last one that was reported, and the first one that was not.
pub proof fn law_counter_knows_its_times(now: nat, steps: Seq<CounterStep>)
    requires
        counts_fit(steps),
        takes_back_what_stands(fresh_counter(now), steps),
    ensures
        ({
            let m = counter_run(fresh_counter(now), steps);
            let times = record_times(steps);
            &&& m.suppressed == times.len()
            &&& m.reported <= times.len()
            &&& times.len() == 0 ==> {
                &&& m.first == clamp_u64(started_at(now, steps))
                &&& m.last == clamp_u64(started_at(now, steps))
            }
            &&& times.len() > 0 ==> {
                &&& m.first == clamp_u64(times[0])
                &&& m.last == clamp_u64(times[times.len() - 1])
            }
            &&& m.reported < times.len() ==> m.first_unreported == clamp_u64(
                times[m.reported as int],
            )
            &&& m.reported > 0 ==> m.last_reported == clamp_u64(times[m.reported - 1])
            &&& m.reported == 0 ==> m.last_reported == clamp_u64(started_at(now, steps))
        }),
    decreases steps.len(),
{
    lemma_counter_times(now, steps);
    lemma_first_time(now, steps);
}

proof fn lemma_first_time(now: nat, steps: Seq<CounterStep>)
    requires
        counts_fit(steps),
    ensures
        ({
            let m = counter_run(fresh_counter(now), steps);
            let times = record_times(steps);
            &&& m.suppressed == times.len()
            &&& times.len() == 0 ==> m.first == clamp_u64(started_at(now, steps))
            &&& times.len() > 0 ==> m.first == clamp_u64(times[0])
        }),
    decreases steps.len(),
{
    lemma_record_times_len(steps);
    if steps.len() > 0 {
        lemma_first_time(now, steps.drop_last());
        lemma_record_times_len(steps.drop_last());
        law_first_suppression_is_kept(now, steps);
    }
}

/// What a claim covers: all suppressions that have not been reported, from the first to the last of
/// them. It is given exactly if there are enough of them, and at least one; afterwards all are
/// reported.
pub proof fn law_claim_covers_what_is_unreported(
    now: nat,
    steps: Seq<CounterStep>,
    min_count: usize,
)
    requires
        counts_fit(steps),
        takes_back_what_stands(fresh_counter(now), steps),
    ensures
        ({
            let m = counter_run(fresh_counter(now), steps);
            let times = record_times(steps);
            let open = times.len() - m.reported;
            let claim = claim_of(m);
            &&& unreported(m) == open
            &&& claimable(m, min_count) <==> open >= 1 && open >= min_count
            &&& open >= 1 ==> {
                &&& claim.count == open
                &&& claim.total == times.len()
                &&& claim.previous_reported == m.reported
                &&& claim.first == clamp_u64(times[m.reported as int])
                &&& claim.last == clamp_u64(times[times.len() - 1])
                &&& claim.first <= claim.last ==> claim.first + claim.duration == claim.last
                &&& claimed(m).reported == times.len()
                &&& claimed(m).suppressed == times.len()
                &&& claimed(m).last_reported == claim.last
                &&& claimed(m).first == m.first
                &&& claimed(m).last == m.last
            }
        }),
{
    lemma_counter_times(now, steps);
}

/// A claim that the cursor has not reached is not taken back; one that it has reached puts the
/// cursor back to where the claim began. The number of suppressions stays, and so do the times of
/// the first and the last one.
pub proof fn law_rollback_moves_the_cursor_back(m: CounterModel, claim: ClaimModel)
    ensures
        m.reported < claim.total ==> rolled_back(m, claim) == m,
        m.reported >= claim.total ==> rolled_back(m, claim).reported == claim.previous_reported,
        rolled_back(m, claim).suppressed == m.suppressed,
        rolled_back(m, claim).first == m.first,
        rolled_back(m, claim).last == m.last,
{
}

/// A counter that is put together from its parts has these parts, but never more reported than
/// there was.
pub proof fn law_restored_counter_has_its_parts(
    suppressed: usize,
    reported: usize,
    first: u64,
    last: u64,
    last_reported: u64,
    first_unreported: u64,
)
    ensures
        ({
            let m = restored(
                suppressed,
                reported,
                first as nat,
                last as nat,
                last_reported as nat,
                first_unreported as nat,
            );
            &&& m.suppressed == suppressed
            &&& reported <= suppressed ==> m.reported == reported
            &&& reported > suppressed ==> m.reported == suppressed
            &&& m.first == first
            &&& m.last == last
            &&& m.last_reported == last_reported
            &&& m.first_unreported == first_unreported
        }),
{
}

/// One more suppression, in whatever state a counter is: the count goes up by one, and starts over
/// after the largest number; the time becomes that of the last suppression, and also that of the
/// first one, or of the first that is unreported, where there was none. What was reported stays.
pub proof fn law_recording_counts_one_more(m: CounterModel, at: u64)
    ensures
        ({
            let next = recorded(m, at as nat);
            &&& m.suppressed < usize::MAX ==> next.suppressed == m.suppressed + 1
            &&& m.suppressed == usize::MAX ==> next.suppressed == 0
            &&& next.last == at
            &&& m.suppressed == 0 ==> next.first == at
            &&& m.suppressed != 0 ==> next.first == m.first
            &&& m.suppressed == m.reported ==> next.first_unreported == at
            &&& m.suppressed != m.reported ==> next.first_unreported == m.first_unreported
            &&& next.reported == m.reported
            &&& next.last_reported == m.last_reported
        }),
{
}

/// A claim, in whatever state a counter is: everything is reported from then on, up to the last
/// suppression. What there was stays.
pub proof fn law_claiming_reports_everything(m: CounterModel)
    ensures
        claimed(m).reported == m.suppressed,
        claimed(m).suppressed == m.suppressed,
        claimed(m).last_reported == m.last,
        claimed(m).first_unreported == m.last,
        claimed(m).first == m.first,
        claimed(m).last == m.last,
        unreported(claimed(m)) == 0,
        claim_of(m).previous_reported == m.reported,
        claim_of(m).previous_last_reported == m.last_reported,
        claim_of(m).total == m.suppressed,
{
}

/// How much is unreported, in whatever state a counter is: what there was less what was reported,
/// and nothing where more was reported. A claim needs as many as it asks for, and at least one.
pub proof fn law_unreported_is_the_difference(m: CounterModel, min_count: usize)
    ensures
        m.reported <= m.suppressed ==> unreported(m) + m.reported == m.suppressed,
        m.reported > m.suppressed ==> unreported(m) == 0,
        claimable(m, min_count) <==> m.suppressed > m.reported && m.suppressed - m.reported
            >= min_count,
        claim_of(m).count == unreported(m),
{
}

/// A claim that is taken back brings back the times that were known when it was made.
pub proof fn law_rollback_brings_back_the_times(m: CounterModel, claim: ClaimModel)
    requires
        m.reported >= claim.total,
        claim.first <= u64::MAX,
        claim.previous_last_reported <= u64::MAX,
    ensures
        rolled_back(m, claim).first_unreported == claim.first,
        rolled_back(m, claim).last_reported == claim.previous_last_reported,
{
}

/// A counter is made, and starts over, with nothing counted and all times at that moment.
pub proof fn law_counter_starts_with_nothing(at: u64)
    ensures
        ({
            let m = fresh_counter(at as nat);
            &&& m.suppressed == 0
            &&& m.reported == 0
            &&& m.first == at
            &&& m.last == at
            &&& m.last_reported == at
            &&& m.first_unreported == at
        }),
{
}

} // verus!
