//! Suppression counters, and the summaries that are made of them.
//!
//! A counter keeps two cursors over the suppressions of one signature: how many there were, and
//! how many of them have already gone into a summary. A claim moves the second cursor up to the
//! first; a rollback moves it back, so that nothing is lost where a summary could not be sent.
use crate::domain::metadata::{brief, detailed, EventMetadata, MetadataModel};
use crate::domain::signature::EventSignature;
use crate::text::{decimal, decimal_text, hex16};
use crate::time::{clamp_u64, elapsed, saturate_u64, Duration, Instant, NANOS_PER_SEC};
use vstd::prelude::*;

verus! {

/// Model of [`SuppressionCounter`]. Times are in nanoseconds since the base point.
pub struct CounterModel {
    /// How many suppressions there were.
    pub suppressed: usize,
    /// How many of them have gone into a summary.
    pub reported: usize,
    /// When the first one was.
    pub first: u64,
    /// When the last one was.
    pub last: u64,
    /// When the last one was that has gone into a summary.
    pub last_reported: u64,
    /// When the first one was that has not.
    pub first_unreported: u64,
}

/// A counter that starts at `now`.
pub open spec fn fresh_counter(now: nat) -> CounterModel {
    let t = clamp_u64(now);
    CounterModel {
        suppressed: 0,
        reported: 0,
        first: t,
        last: t,
        last_reported: t,
        first_unreported: t,
    }
}

/// A counter put together from its parts, with times as distances from the base point. No more
/// can have been reported than there were.
pub open spec fn restored(
    suppressed: usize,
    reported: usize,
    first: nat,
    last: nat,
    last_reported: nat,
    first_unreported: nat,
) -> CounterModel {
    CounterModel {
        suppressed,
        reported: if reported <= suppressed {
            reported
        } else {
            suppressed
        },
        first: clamp_u64(first),
        last: clamp_u64(last),
        last_reported: clamp_u64(last_reported),
        first_unreported: clamp_u64(first_unreported),
    }
}

/// The counter after one more suppression. The count starts over at zero after the largest
/// number that it can hold.
pub open spec fn recorded(m: CounterModel, now: nat) -> CounterModel {
    let t = clamp_u64(now);
    CounterModel {
        suppressed: if m.suppressed < usize::MAX {
            (m.suppressed + 1) as usize
        } else {
            0
        },
        first: if m.suppressed == 0 {
            t
        } else {
            m.first
        },
        first_unreported: if m.suppressed == m.reported {
            t
        } else {
            m.first_unreported
        },
        last: t,
        ..m
    }
}

/// How many suppressions have not gone into a summary.
pub open spec fn unreported(m: CounterModel) -> usize {
    if m.suppressed >= m.reported {
        (m.suppressed - m.reported) as usize
    } else {
        0
    }
}

/// Whether there is enough for a summary of at least `min_count`, and something in any case.
pub open spec fn claimable(m: CounterModel, min_count: usize) -> bool {
    unreported(m) >= min_count && unreported(m) >= 1
}

/// The counter once everything has gone into a summary.
pub open spec fn claimed(m: CounterModel) -> CounterModel {
    CounterModel {
        reported: m.suppressed,
        last_reported: m.last,
        first_unreported: m.last,
        ..m
    }
}

/// Model of [`ClaimedSuppressions`].
pub struct ClaimModel {
    /// How many had been reported before.
    pub previous_reported: usize,
    /// When the last one was that had been reported before.
    pub previous_last_reported: nat,
    /// How many the claim covers.
    pub count: usize,
    /// How many there were in all.
    pub total: usize,
    /// When the first one was that the claim covers.
    pub first: nat,
    /// When the last one was.
    pub last: nat,
    /// The time in between.
    pub duration: nat,
}

/// The claim on everything that has not been reported.
pub open spec fn claim_of(m: CounterModel) -> ClaimModel {
    ClaimModel {
        previous_reported: m.reported,
        previous_last_reported: m.last_reported as nat,
        count: unreported(m),
        total: m.suppressed,
        first: m.first_unreported as nat,
        last: m.last as nat,
        duration: elapsed(m.first_unreported as nat, m.last as nat),
    }
}

/// Whether taking a claim back moves the cursor: not where it stands before the claim's end.
pub open spec fn rewinds(m: CounterModel, claim: ClaimModel) -> bool {
    m.reported >= claim.total
}

/// The counter once a claim has been taken back.
pub open spec fn rolled_back(m: CounterModel, claim: ClaimModel) -> CounterModel {
    if rewinds(m, claim) {
        CounterModel {
            reported: claim.previous_reported,
            last_reported: clamp_u64(claim.previous_last_reported),
            first_unreported: clamp_u64(claim.first),
            ..m
        }
    } else {
        m
    }
}

/// Suppressions that have been claimed for one summary.
#[derive(Debug, Clone, Copy)]
pub struct ClaimedSuppressions {
    /// How many had been reported before this claim.
    pub previous_reported_count: usize,
    /// When the last one was that had been reported before this claim.
    pub previous_last_reported: Instant,
    /// How many suppressions this claim covers.
    pub count: usize,
    /// How many suppressions there were in all.
    pub total_count: usize,
    /// When the first suppression was that this claim covers.
    pub first_suppressed: Instant,
    /// When the last suppression was that this claim covers.
    pub last_suppressed: Instant,
    /// The time in between.
    pub duration: Duration,
}

impl View for ClaimedSuppressions {
    type V = ClaimModel;

    open spec fn view(&self) -> ClaimModel {
        ClaimModel {
            previous_reported: self.previous_reported_count,
            previous_last_reported: self.previous_last_reported@,
            count: self.count,
            total: self.total_count,
            first: self.first_suppressed@,
            last: self.last_suppressed@,
            duration: self.duration@,
        }
    }
}

/// What a counter holds, with times in place of numbers.
#[derive(Debug, Clone, Copy)]
pub struct SuppressionSnapshot {
    /// How many suppressions there were.
    pub suppressed_count: usize,
    /// How many of them have gone into a summary.
    pub reported_count: usize,
    /// When the first one was.
    pub first_suppressed: Instant,
    /// When the last one was.
    pub last_suppressed: Instant,
    /// When the last one was that has gone into a summary.
    pub last_reported: Instant,
    /// When the first one was that has not.
    pub first_unreported: Instant,
}

/// Counts suppressions, and which of them have been reported.
#[derive(Debug)]
pub struct SuppressionCounter {
    suppressed_count: usize,
    reported_count: usize,
    first_suppressed_nanos: u64,
    last_suppressed_nanos: u64,
    last_reported_nanos: u64,
    first_unreported_nanos: u64,
}

impl View for SuppressionCounter {
    type V = CounterModel;

    closed spec fn view(&self) -> CounterModel {
        CounterModel {
            suppressed: self.suppressed_count,
            reported: self.reported_count,
            first: self.first_suppressed_nanos,
            last: self.last_suppressed_nanos,
            last_reported: self.last_reported_nanos,
            first_unreported: self.first_unreported_nanos,
        }
    }
}

impl Clone for SuppressionCounter {
    fn clone(&self) -> (r: Self)
        ensures
            r@ == self@,
    {
        SuppressionCounter {
            suppressed_count: self.suppressed_count,
            reported_count: self.reported_count,
            first_suppressed_nanos: self.first_suppressed_nanos,
            last_suppressed_nanos: self.last_suppressed_nanos,
            last_reported_nanos: self.last_reported_nanos,
            first_unreported_nanos: self.first_unreported_nanos,
        }
    }
}

impl SuppressionCounter {
    /// A counter with no suppressions.
    pub fn new(initial_timestamp: Instant) -> (r: Self)
        ensures
            r@ == fresh_counter(initial_timestamp@),
    {
        let nanos: u64 = Self::instant_to_nanos(initial_timestamp);
        SuppressionCounter {
            suppressed_count: 0,
            reported_count: 0,
            first_suppressed_nanos: nanos,
            last_suppressed_nanos: nanos,
            last_reported_nanos: nanos,
            first_unreported_nanos: nanos,
        }
    }

    /// A counter of which nothing has been reported.
    pub fn from_snapshot(
        suppressed_count: usize,
        first_suppressed: Instant,
        last_suppressed: Instant,
    ) -> (r: Self)
        ensures
            r@ == restored(
                suppressed_count,
                0,
                first_suppressed@,
                last_suppressed@,
                first_suppressed@,
                first_suppressed@,
            ),
    {
        Self::from_snapshot_with_reported(
            suppressed_count,
            0,
            first_suppressed,
            last_suppressed,
            first_suppressed,
        )
    }

    /// A counter of which something may have been reported. What has not been reported starts
    /// with the first suppression, or where the last report ended.
    pub fn from_snapshot_with_reported(
        suppressed_count: usize,
        reported_count: usize,
        first_suppressed: Instant,
        last_suppressed: Instant,
        last_reported: Instant,
    ) -> (r: Self)
        ensures
            r@ == restored(
                suppressed_count,
                reported_count,
                first_suppressed@,
                last_suppressed@,
                last_reported@,
                if reported_count == 0 {
                    first_suppressed@
                } else {
                    last_reported@
                },
            ),
    {
        let first_unreported: Instant = if reported_count == 0 {
            first_suppressed
        } else {
            last_reported
        };
        Self::from_snapshot_with_reported_and_first_unreported(
            suppressed_count,
            reported_count,
            first_suppressed,
            last_suppressed,
            last_reported,
            first_unreported,
        )
    }

    /// A counter from all its parts. No more can have been reported than there were.
    pub fn from_snapshot_with_reported_and_first_unreported(
        suppressed_count: usize,
        reported_count: usize,
        first_suppressed: Instant,
        last_suppressed: Instant,
        last_reported: Instant,
        first_unreported: Instant,
    ) -> (r: Self)
        ensures
            r@ == restored(
                suppressed_count,
                reported_count,
                first_suppressed@,
                last_suppressed@,
                last_reported@,
                first_unreported@,
            ),
    {
        SuppressionCounter {
            suppressed_count,
            reported_count: if reported_count <= suppressed_count {
                reported_count
            } else {
                suppressed_count
            },
            first_suppressed_nanos: Self::instant_to_nanos(first_suppressed),
            last_suppressed_nanos: Self::instant_to_nanos(last_suppressed),
            last_reported_nanos: Self::instant_to_nanos(last_reported),
            first_unreported_nanos: Self::instant_to_nanos(first_unreported),
        }
    }

    /// Counts one more suppression.
    pub fn record_suppression(&mut self, timestamp: Instant)
        ensures
            final(self)@ == recorded(old(self)@, timestamp@),
    {
        let nanos: u64 = Self::instant_to_nanos(timestamp);
        let previous_count: usize = self.suppressed_count;
        self.suppressed_count = previous_count.wrapping_add(1);
        if previous_count == 0 {
            self.first_suppressed_nanos = nanos;
        }
        if previous_count == self.reported_count {
            self.first_unreported_nanos = nanos;
        }
        self.last_suppressed_nanos = nanos;
    }

    /// How many suppressions there were.
    pub fn count(&self) -> (n: usize)
        ensures
            n == self@.suppressed,
    {
        self.suppressed_count
    }

    /// How many of them have gone into a summary.
    pub fn reported_count(&self) -> (n: usize)
        ensures
            n == self@.reported,
    {
        self.reported_count
    }

    /// How many of them have not gone into a summary.
    pub fn unreported_count(&self) -> (n: usize)
        ensures
            n == unreported(self@),
    {
        self.suppressed_count.saturating_sub(self.reported_count)
    }

    /// Claims all suppressions that have not been reported, if there are at least `min_count`
    /// of them, and at least one.
    pub fn claim_unreported(&mut self, min_count: usize) -> (r: Option<ClaimedSuppressions>)
        ensures
            r is Some <==> claimable(old(self)@, min_count),
            r matches Some(claim) ==> claim@ == claim_of(old(self)@) && final(self)@ == claimed(
                old(self)@,
            ),
            r is None ==> final(self)@ == old(self)@,
    {
        let min_count: usize = if min_count > 1 {
            min_count
        } else {
            1
        };
        let total_count: usize = self.count();
        let already_reported: usize = self.reported_count();
        let unreported_count: usize = total_count.saturating_sub(already_reported);
        if unreported_count < min_count {
            return None;
        }
        let first_nanos: u64 = self.first_unreported_nanos;
        let previous_last_reported_nanos: u64 = self.last_reported_nanos;
        let last_nanos: u64 = self.last_suppressed_nanos;
        self.reported_count = total_count;
        self.last_reported_nanos = last_nanos;
        self.first_unreported_nanos = last_nanos;
        let first_suppressed: Instant = Self::nanos_to_instant(first_nanos);
        let last_suppressed: Instant = Self::nanos_to_instant(last_nanos);
        Some(
            ClaimedSuppressions {
                previous_reported_count: already_reported,
                previous_last_reported: Self::nanos_to_instant(previous_last_reported_nanos),
                count: unreported_count,
                total_count,
                first_suppressed,
                last_suppressed,
                duration: last_suppressed.saturating_duration_since(first_suppressed),
            },
        )
    }

    /// Takes a claim back, so that what it covers can be claimed again.
    ///
    /// Where a later claim has moved the cursor further, it goes back to where the older claim
    /// began: some suppressions may then be reported twice, but none is lost. The result says
    /// whether the cursor stands where the claim began.
    pub fn rollback_claim(&mut self, claim: &ClaimedSuppressions) -> (r: bool)
        ensures
            final(self)@ == rolled_back(old(self)@, claim@),
            r == (final(self)@.reported == claim@.previous_reported),
    {
        let previous_last_reported_nanos: u64 = Self::instant_to_nanos(
            claim.previous_last_reported,
        );
        let first_unreported_nanos: u64 = Self::instant_to_nanos(claim.first_suppressed);
        let current_reported: usize = self.reported_count();
        if current_reported < claim.total_count {
            return current_reported == claim.previous_reported_count;
        }
        self.reported_count = claim.previous_reported_count;
        self.last_reported_nanos = previous_last_reported_nanos;
        self.first_unreported_nanos = first_unreported_nanos;
        true
    }

    /// When the first suppression was.
    pub fn first_suppressed(&self) -> (t: Instant)
        ensures
            t@ == self@.first,
    {
        Self::nanos_to_instant(self.first_suppressed_nanos)
    }

    /// When the last suppression was.
    pub fn last_suppressed(&self) -> (t: Instant)
        ensures
            t@ == self@.last,
    {
        Self::nanos_to_instant(self.last_suppressed_nanos)
    }

    /// When the last suppression was that has been reported.
    pub fn last_reported(&self) -> (t: Instant)
        ensures
            t@ == self@.last_reported,
    {
        Self::nanos_to_instant(self.last_reported_nanos)
    }

    /// When the first suppression was that has not been reported.
    pub fn first_unreported(&self) -> (t: Instant)
        ensures
            t@ == self@.first_unreported,
    {
        Self::nanos_to_instant(self.first_unreported_nanos)
    }

    /// All that the counter holds.
    pub fn snapshot(&self) -> (s: SuppressionSnapshot)
        ensures
            s.suppressed_count == self@.suppressed,
            s.reported_count == self@.reported,
            s.first_suppressed@ == self@.first,
            s.last_suppressed@ == self@.last,
            s.last_reported@ == self@.last_reported,
            s.first_unreported@ == self@.first_unreported,
    {
        SuppressionSnapshot {
            suppressed_count: self.count(),
            reported_count: self.reported_count(),
            first_suppressed: self.first_suppressed(),
            last_suppressed: self.last_suppressed(),
            last_reported: self.last_reported(),
            first_unreported: self.first_unreported(),
        }
    }

    /// Starts over with no suppressions.
    pub fn reset(&mut self, timestamp: Instant)
        ensures
            final(self)@ == fresh_counter(timestamp@),
    {
        let nanos: u64 = Self::instant_to_nanos(timestamp);
        self.suppressed_count = 0;
        self.reported_count = 0;
        self.first_suppressed_nanos = nanos;
        self.last_suppressed_nanos = nanos;
        self.last_reported_nanos = nanos;
        self.first_unreported_nanos = nanos;
    }

    /// The point in time from which a counter counts nanoseconds.
    pub fn base_instant() -> (t: Instant)
        ensures
            t@ == 0,
    {
        Instant::base()
    }

    /// Nanoseconds since the base point, cut off at `u64::MAX` (some 584 years).
    pub fn instant_to_nanos(instant: Instant) -> (nanos: u64)
        ensures
            nanos == clamp_u64(instant@),
    {
        let base: Instant = Self::base_instant();
        saturate_u64(instant.saturating_duration_since(base).as_nanos())
    }

    /// The instant that many nanoseconds after the base point.
    pub fn nanos_to_instant(nanos: u64) -> (t: Instant)
        ensures
            t@ == nanos,
    {
        let base: Instant = Self::base_instant();
        match base.checked_add(Duration::from_nanos(nanos)) {
            Some(t) => t,
            None => base,
        }
    }
}

/// What `format!("{:.2}", d.as_secs_f64())` gives for a `std::time::Duration` of `secs` seconds
/// and `nanos` nanoseconds.
pub uninterp spec fn two_decimals(secs: u64, nanos: u32) -> Seq<char>;

/// What `format!("{:?}", d)` gives for a `std::time::Duration` of `secs` seconds and `nanos`
/// nanoseconds.
pub uninterp spec fn debug_span(secs: u64, nanos: u32) -> Seq<char>;

/// `format!` with `{:.2}` writes the seconds of a `std::time::Duration`, as a floating point
/// number, with two decimals. The text depends on the duration alone.
#[verifier::external_body]
fn write_two_decimals(secs: u64, nanos: u32) -> (text: String)
    requires
        nanos < NANOS_PER_SEC,
    ensures
        text@ == two_decimals(secs, nanos),
{
    format!("{:.2}", std::time::Duration::new(secs, nanos).as_secs_f64())
}

/// `format!` with `{:?}` writes a `std::time::Duration` in the unit that suits its length. The
/// text depends on the duration alone.
#[verifier::external_body]
fn write_debug_span(secs: u64, nanos: u32) -> (text: String)
    requires
        nanos < NANOS_PER_SEC,
    ensures
        text@ == debug_span(secs, nanos),
{
    format!("{:?}", std::time::Duration::new(secs, nanos))
}

/// Whole seconds in a number of nanoseconds.
pub open spec fn whole_secs(nanos: nat) -> u64 {
    (nanos / NANOS_PER_SEC as nat) as u64
}

/// Nanoseconds that are left after the whole seconds.
pub open spec fn rest_nanos(nanos: nat) -> u32 {
    (nanos % NANOS_PER_SEC as nat) as u32
}

/// A summary of an event that is known: how often it was suppressed, over how many seconds, and
/// a description of it.
pub open spec fn known_event_text(
    count: nat,
    seconds: Seq<char>,
    description: Seq<char>,
) -> Seq<char> {
    "Suppressed "@ + decimal(count) + " times over "@ + seconds + "s: "@ + description
}

/// A summary of an event of which only the signature is known.
pub open spec fn unknown_event_text(count: nat, span: Seq<char>, signature: u64) -> Seq<char> {
    "Event suppressed "@ + decimal(count) + " times over "@ + span + " (signature: "@ + hex16(
        signature,
    ) + ")"@
}

/// Model of [`SuppressionSummary`].
pub struct SummaryModel {
    /// Signature of the event.
    pub signature: u64,
    /// How often it was suppressed.
    pub count: usize,
    /// When it was first suppressed.
    pub first: nat,
    /// When it was last suppressed.
    pub last: nat,
    /// The time in between.
    pub duration: nat,
    /// What is known of the event.
    pub metadata: Option<MetadataModel>,
}

/// The model of metadata that may be missing.
pub open spec fn opt_metadata(metadata: Option<EventMetadata>) -> Option<MetadataModel> {
    match metadata {
        Some(m) => Some(m@),
        None => None,
    }
}

/// The summary of a counter.
pub open spec fn summary_of_counter(
    signature: u64,
    m: CounterModel,
    metadata: Option<MetadataModel>,
) -> SummaryModel {
    SummaryModel {
        signature,
        count: m.suppressed,
        first: m.first as nat,
        last: m.last as nat,
        duration: elapsed(m.first as nat, m.last as nat),
        metadata,
    }
}

/// The summary of a claim.
pub open spec fn summary_of_claim(
    signature: u64,
    claim: ClaimModel,
    metadata: Option<MetadataModel>,
) -> SummaryModel {
    SummaryModel {
        signature,
        count: claim.count,
        first: claim.first,
        last: claim.last,
        duration: claim.duration,
        metadata,
    }
}

/// The short text of a summary, given how its duration is written: with two decimals, and in
/// the unit that suits it.
pub open spec fn message_text(m: SummaryModel, seconds: Seq<char>, span: Seq<char>) -> Seq<char> {
    match m.metadata {
        Some(metadata) => known_event_text(m.count as nat, seconds, brief(metadata)),
        None => unknown_event_text(m.count as nat, span, m.signature),
    }
}

/// The long text of a summary, which also gives the fields of the event.
pub open spec fn detailed_text(m: SummaryModel, seconds: Seq<char>, span: Seq<char>) -> Seq<char> {
    match m.metadata {
        Some(metadata) => known_event_text(m.count as nat, seconds, detailed(metadata)),
        None => unknown_event_text(m.count as nat, span, m.signature),
    }
}

fn write_known_event(count: usize, seconds: &str, description: &str) -> (text: String)
    ensures
        text@ == known_event_text(count as nat, seconds@, description@),
{
    let mut text: String = String::new();
    text.append("Suppressed ");
    text.append(decimal_text(count as u64).as_str());
    text.append(" times over ");
    text.append(seconds);
    text.append("s: ");
    text.append(description);
    assert(text@ =~= known_event_text(count as nat, seconds@, description@));
    text
}

fn write_unknown_event(count: usize, span: &str, signature: EventSignature) -> (text: String)
    ensures
        text@ == unknown_event_text(count as nat, span@, signature@),
{
    let mut text: String = String::new();
    text.append("Event suppressed ");
    text.append(decimal_text(count as u64).as_str());
    text.append(" times over ");
    text.append(span);
    text.append(" (signature: ");
    text.append(signature.to_string().as_str());
    text.append(")");
    assert(text@ =~= unknown_event_text(count as nat, span@, signature@));
    text
}

/// How often the events of one signature were suppressed, and when.
#[derive(Debug)]
pub struct SuppressionSummary {
    /// Signature of the suppressed event.
    pub signature: EventSignature,
    /// How often it was suppressed.
    pub count: usize,
    /// When it was first suppressed.
    pub first_suppressed: Instant,
    /// When it was last suppressed.
    pub last_suppressed: Instant,
    /// The time in between.
    pub duration: Duration,
    /// What is known of the event, for display.
    pub metadata: Option<EventMetadata>,
}

impl View for SuppressionSummary {
    type V = SummaryModel;

    open spec fn view(&self) -> SummaryModel {
        SummaryModel {
            signature: self.signature@,
            count: self.count,
            first: self.first_suppressed@,
            last: self.last_suppressed@,
            duration: self.duration@,
            metadata: opt_metadata(self.metadata),
        }
    }
}

impl Clone for SuppressionSummary {
    fn clone(&self) -> (r: Self)
        ensures
            r@ == self@,
    {
        SuppressionSummary {
            signature: self.signature,
            count: self.count,
            first_suppressed: self.first_suppressed,
            last_suppressed: self.last_suppressed,
            duration: self.duration,
            metadata: match &self.metadata {
                Some(m) => Some(m.clone()),
                None => None,
            },
        }
    }
}

impl SuppressionSummary {
    /// A summary of all suppressions of a counter.
    pub fn from_counter(signature: EventSignature, counter: &SuppressionCounter) -> (r: Self)
        ensures
            r@ == summary_of_counter(signature@, counter@, None),
    {
        Self::from_counter_with_metadata(signature, counter, None)
    }

    /// A summary of the suppressions that a claim covers.
    pub fn from_claim(signature: EventSignature, claim: ClaimedSuppressions) -> (r: Self)
        ensures
            r@ == summary_of_claim(signature@, claim@, None),
    {
        Self::from_claim_with_metadata(signature, claim, None)
    }

    /// A summary of all suppressions of a counter, with what is known of the event.
    pub fn from_counter_with_metadata(
        signature: EventSignature,
        counter: &SuppressionCounter,
        metadata: Option<EventMetadata>,
    ) -> (r: Self)
        ensures
            r@ == summary_of_counter(signature@, counter@, opt_metadata(metadata)),
    {
        let first: Instant = counter.first_suppressed();
        let last: Instant = counter.last_suppressed();
        SuppressionSummary {
            signature,
            count: counter.count(),
            first_suppressed: first,
            last_suppressed: last,
            duration: last.saturating_duration_since(first),
            metadata,
        }
    }

    /// A summary of the suppressions that a claim covers, with what is known of the event.
    pub fn from_claim_with_metadata(
        signature: EventSignature,
        claim: ClaimedSuppressions,
        metadata: Option<EventMetadata>,
    ) -> (r: Self)
        ensures
            r@ == summary_of_claim(signature@, claim@, opt_metadata(metadata)),
    {
        SuppressionSummary {
            signature,
            count: claim.count,
            first_suppressed: claim.first_suppressed,
            last_suppressed: claim.last_suppressed,
            duration: claim.duration,
            metadata,
        }
    }

    /// The summary in one line: what the event was where that is known, else its signature.
    pub fn format_message(&self) -> (text: String)
        ensures
            text@ == message_text(
                self@,
                two_decimals(whole_secs(self@.duration), rest_nanos(self@.duration)),
                debug_span(whole_secs(self@.duration), rest_nanos(self@.duration)),
            ),
    {
        let secs: u64 = self.duration.as_secs();
        let nanos: u32 = self.duration.subsec_nanos();
        self.format_message_with(
            write_two_decimals(secs, nanos).as_str(),
            write_debug_span(secs, nanos).as_str(),
        )
    }

    /// The summary in one line, where the duration is already written out: as seconds with two
    /// decimals, and in the unit that suits its length.
    pub fn format_message_with(&self, seconds: &str, span: &str) -> (text: String)
        ensures
            text@ == message_text(self@, seconds@, span@),
    {
        match &self.metadata {
            Some(metadata) => write_known_event(
                self.count,
                seconds,
                metadata.format_brief().as_str(),
            ),
            None => write_unknown_event(self.count, span, self.signature),
        }
    }

    /// The summary in one line, with the fields of the event where it is known.
    pub fn format_detailed(&self) -> (text: String)
        ensures
            text@ == detailed_text(
                self@,
                two_decimals(whole_secs(self@.duration), rest_nanos(self@.duration)),
                debug_span(whole_secs(self@.duration), rest_nanos(self@.duration)),
            ),
    {
        let secs: u64 = self.duration.as_secs();
        let nanos: u32 = self.duration.subsec_nanos();
        self.format_detailed_with(
            write_two_decimals(secs, nanos).as_str(),
            write_debug_span(secs, nanos).as_str(),
        )
    }

    /// As [`SuppressionSummary::format_detailed`], where the duration is already written out.
    pub fn format_detailed_with(&self, seconds: &str, span: &str) -> (text: String)
        ensures
            text@ == detailed_text(self@, seconds@, span@),
    {
        match &self.metadata {
            Some(metadata) => write_known_event(
                self.count,
                seconds,
                metadata.format_detailed().as_str(),
            ),
            None => self.format_message_with(seconds, span),
        }
    }
}

// ---------------------------------------------------------------------------------------------
// Laws
// ---------------------------------------------------------------------------------------------

/// Once everything has been claimed there is nothing left to claim: no suppression is reported
/// twice.
pub proof fn law_no_double_claim(m: CounterModel, min_count: usize)
    ensures
        !claimable(claimed(m), min_count),
{
}

/// Taking a claim back at once restores the counter.
pub proof fn law_rollback_undoes_claim(m: CounterModel)
    ensures
        rolled_back(claimed(m), claim_of(m)) == m,
{
}

/// A claim that was taken back can be made again: whatever was recorded or claimed in the
/// meantime, none of its suppressions is lost. It is taken back wherever the cursor has reached
/// the claim's end.
pub proof fn law_rollback_loses_nothing(m: CounterModel, later: CounterModel)
    requires
        m.reported <= m.suppressed <= later.suppressed,
    ensures
        ({
            let back = rolled_back(later, claim_of(m));
            &&& back.suppressed == later.suppressed
            &&& m.suppressed <= later.reported ==> back.reported == m.reported
                && back.first_unreported == m.first_unreported
            &&& back.reported == m.reported ==> unreported(back) == unreported(m) + (
            later.suppressed - m.suppressed)
        }),
{
}

/// One step in the life of a counter.
pub enum CounterStep {
    /// A suppression at a time.
    Record(nat),
    /// A claim with a minimum count.
    Claim(usize),
    /// A claim is taken back.
    Rollback(ClaimModel),
    /// The counter starts over at a time.
    Reset(nat),
}

/// The counter after a step.
pub open spec fn counter_after(m: CounterModel, step: CounterStep) -> CounterModel {
    match step {
        CounterStep::Record(now) => recorded(m, now),
        CounterStep::Claim(min_count) => if claimable(m, min_count) {
            claimed(m)
        } else {
            m
        },
        CounterStep::Rollback(claim) => rolled_back(m, claim),
        CounterStep::Reset(now) => fresh_counter(now),
    }
}

/// The counter after some steps.
pub open spec fn counter_run(m: CounterModel, steps: Seq<CounterStep>) -> CounterModel
    decreases steps.len(),
{
    if steps.len() == 0 {
        m
    } else {
        counter_after(counter_run(m, steps.drop_last()), steps.last())
    }
}

/// How many suppressions were recorded since the counter last started over.
pub open spec fn recorded_since(steps: Seq<CounterStep>) -> nat
    decreases steps.len(),
{
    if steps.len() == 0 {
        0
    } else {
        let before = recorded_since(steps.drop_last());
        match steps.last() {
            CounterStep::Record(_) => before + 1,
            CounterStep::Reset(_) => 0,
            _ => before,
        }
    }
}

/// Whether the counter never had to count further than it can.
pub open spec fn counts_fit(steps: Seq<CounterStep>) -> bool
    decreases steps.len(),
{
    steps.len() == 0 || (counts_fit(steps.drop_last()) && recorded_since(steps) <= usize::MAX)
}

/// When the first suppression was since the counter last started over; where there was none, when
/// it started over, or at first `now`.
pub open spec fn first_since(now: nat, steps: Seq<CounterStep>) -> nat
    decreases steps.len(),
{
    if steps.len() == 0 {
        now
    } else {
        let before = first_since(now, steps.drop_last());
        match steps.last() {
            CounterStep::Record(at) => if recorded_since(steps.drop_last()) == 0 {
                at
            } else {
                before
            },
            CounterStep::Reset(at) => at,
            _ => before,
        }
    }
}

/// The claims that stand: those since the counter last started over that have not been taken
/// back. Taking a claim back takes with it those that came after it.
pub open spec fn standing(m: CounterModel, steps: Seq<CounterStep>) -> Seq<ClaimModel>
    decreases steps.len(),
{
    if steps.len() == 0 {
        Seq::empty()
    } else {
        let before = standing(m, steps.drop_last());
        let counter = counter_run(m, steps.drop_last());
        match steps.last() {
            CounterStep::Record(_) => before,
            CounterStep::Claim(min_count) => if claimable(counter, min_count) {
                before.push(claim_of(counter))
            } else {
                before
            },
            CounterStep::Rollback(claim) => if before.contains(claim) {
                before.take(before.index_of(claim))
            } else {
                before
            },
            CounterStep::Reset(_) => Seq::empty(),
        }
    }
}

/// Whether every claim that is taken back stands at that time, or is too old or too new to move
/// the cursor.
pub open spec fn takes_back_what_stands(m: CounterModel, steps: Seq<CounterStep>) -> bool
    decreases steps.len(),
{
    steps.len() == 0 || {
        let before = steps.drop_last();
        &&& takes_back_what_stands(m, before)
        &&& steps.last() matches CounterStep::Rollback(claim) ==> standing(m, before).contains(
            claim,
        ) || !rewinds(counter_run(m, before), claim)
    }
}

/// How many suppressions some claims cover.
pub open spec fn covered(claims: Seq<ClaimModel>) -> nat
    decreases claims.len(),
{
    if claims.len() == 0 {
        0
    } else {
        covered(claims.drop_last()) + claims.last().count as nat
    }
}

/// Whether each claim begins where the one before it ended, from zero to `end`.
spec fn chained(claims: Seq<ClaimModel>, end: nat) -> bool
    decreases claims.len(),
{
    if claims.len() == 0 {
        end == 0
    } else {
        let claim = claims.last();
        &&& claim.total == end
        &&& claim.total == claim.previous_reported + claim.count
        &&& claim.count > 0
        &&& chained(claims.drop_last(), claim.previous_reported as nat)
    }
}

/// Part of a chain, up to where one of its claims began.
proof fn lemma_chain_before(claims: Seq<ClaimModel>, end: nat, i: int)
    requires
        chained(claims, end),
        0 <= i < claims.len(),
    ensures
        chained(claims.take(i), claims[i].previous_reported as nat),
        claims[i].previous_reported <= claims[i].total <= end,
    decreases claims.len(),
{
    if i == claims.len() - 1 {
        assert(claims.take(i) =~= claims.drop_last());
    } else {
        let front = claims.drop_last();
        lemma_chain_before(front, claims.last().previous_reported as nat, i);
        assert(front.take(i) =~= claims.take(i));
    }
}

/// A chain covers all there is up to its end.
proof fn lemma_chain_covers(claims: Seq<ClaimModel>, end: nat)
    requires
        chained(claims, end),
    ensures
        covered(claims) == end,
    decreases claims.len(),
{
    if claims.len() > 0 {
        lemma_chain_covers(claims.drop_last(), claims.last().previous_reported as nat);
    }
}

proof fn lemma_standing_claims_are_chained(now: nat, steps: Seq<CounterStep>)
    requires
        counts_fit(steps),
        takes_back_what_stands(fresh_counter(now), steps),
    ensures
        ({
            let m = counter_run(fresh_counter(now), steps);
            &&& m.suppressed == recorded_since(steps)
            &&& m.reported <= m.suppressed
            &&& chained(standing(fresh_counter(now), steps), m.reported as nat)
        }),
    decreases steps.len(),
{
    if steps.len() > 0 {
        let start = fresh_counter(now);
        lemma_standing_claims_are_chained(now, steps.drop_last());
        let before = counter_run(start, steps.drop_last());
        let claims = standing(start, steps.drop_last());
        match steps.last() {
            CounterStep::Claim(min_count) => {
                if claimable(before, min_count) {
                    assert(claims.push(claim_of(before)).drop_last() =~= claims);
                }
            },
            CounterStep::Rollback(claim) => {
                if claims.contains(claim) {
                    let i = claims.index_of(claim);
                    assert(0 <= i < claims.len() && claims[i] == claim);
                    lemma_chain_before(claims, before.reported as nat, i);
                }
            },
            _ => {},
        }
    }
}

/// Every suppression is reported once or still waits to be, whatever is recorded, claimed, taken
/// back or started over: what the standing claims cover and what is unreported add up to what was
/// recorded since the counter last started over.
pub proof fn law_claims_conserve_suppressions(now: nat, steps: Seq<CounterStep>)
    requires
        counts_fit(steps),
        takes_back_what_stands(fresh_counter(now), steps),
    ensures
        ({
            let m = counter_run(fresh_counter(now), steps);
            let claims = standing(fresh_counter(now), steps);
            &&& m.suppressed == recorded_since(steps)
            &&& m.reported == covered(claims)
            &&& covered(claims) + unreported(m) == recorded_since(steps)
        }),
{
    lemma_standing_claims_are_chained(now, steps);
    lemma_chain_covers(
        standing(fresh_counter(now), steps),
        counter_run(fresh_counter(now), steps).reported as nat,
    );
}

/// Whether each claim that is taken back ended no earlier than it began, as every claim does.
pub open spec fn takes_back_claims(steps: Seq<CounterStep>) -> bool {
    forall|i: int|
        0 <= i < steps.len() ==> ((#[trigger] steps[i]) matches CounterStep::Rollback(claim)
            ==> claim.previous_reported <= claim.total)
}

/// No more is ever reported than was recorded, whichever claims are taken back, and in whatever
/// order. What is reported and what is not add up.
pub proof fn law_reported_is_part_of_recorded(now: nat, steps: Seq<CounterStep>)
    requires
        counts_fit(steps),
        takes_back_claims(steps),
    ensures
        ({
            let m = counter_run(fresh_counter(now), steps);
            &&& m.suppressed == recorded_since(steps)
            &&& m.reported <= m.suppressed
            &&& m.reported + unreported(m) == recorded_since(steps)
        }),
    decreases steps.len(),
{
    if steps.len() > 0 {
        assert forall|i: int| 0 <= i < steps.drop_last().len() implies ((
        #[trigger] steps.drop_last()[i]) matches CounterStep::Rollback(claim)
            ==> claim.previous_reported <= claim.total) by {
            assert(steps[i] == steps.drop_last()[i]);
        }
        law_reported_is_part_of_recorded(now, steps.drop_last());
        assert(steps[steps.len() - 1] == steps.last());
    }
}

/// The time of the first suppression is kept. Over any run of suppressions, claims, rollbacks and
/// new starts it is the time of the first suppression since the counter last started over, and
/// where there was none, the time at which it started over.
pub proof fn law_first_suppression_is_kept(now: nat, steps: Seq<CounterStep>)
    requires
        counts_fit(steps),
    ensures
        counter_run(fresh_counter(now), steps).suppressed == recorded_since(steps),
        counter_run(fresh_counter(now), steps).first == clamp_u64(first_since(now, steps)),
    decreases steps.len(),
{
    if steps.len() > 0 {
        law_first_suppression_is_kept(now, steps.drop_last());
    }
}

/// A counter that is taken apart into a snapshot and put together again is the same, as long as
/// no more was reported than there was.
pub proof fn law_snapshot_round_trip(m: CounterModel)
    requires
        m.reported <= m.suppressed,
    ensures
        restored(
            m.suppressed,
            m.reported,
            m.first as nat,
            m.last as nat,
            m.last_reported as nat,
            m.first_unreported as nat,
        ) == m,
{
}

} // verus!
