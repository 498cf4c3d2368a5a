//! Counts of what the limiter did, for monitoring.
pub use crate::application::shared_counts::AnyCounts;
use crate::application::shared_counts::SharedCounts;
use vstd::prelude::*;

verus! {

/// The number after `n`. A count starts over at zero after the largest number it can hold.
pub open spec fn next_count(n: u64) -> u64 {
    if n < u64::MAX {
        (n + 1) as u64
    } else {
        0
    }
}

/// The sum of two counts, starting over at zero above the largest number.
pub open spec fn count_plus(n: u64, more: u64) -> u64 {
    if n + more <= u64::MAX {
        (n + more) as u64
    } else {
        (n + more - u64::MAX - 1) as u64
    }
}

/// Nothing counted.
pub open spec fn zero_metrics() -> MetricsSnapshot {
    MetricsSnapshot { events_allowed: 0, events_suppressed: 0, signatures_evicted: 0 }
}

/// The counts after an event that passed.
pub open spec fn allowed_counted(counts: MetricsSnapshot) -> MetricsSnapshot {
    MetricsSnapshot { events_allowed: next_count(counts.events_allowed), ..counts }
}

/// The counts after an event that was suppressed.
pub open spec fn suppressed_counted(counts: MetricsSnapshot) -> MetricsSnapshot {
    MetricsSnapshot { events_suppressed: next_count(counts.events_suppressed), ..counts }
}

/// The counts after `n` signatures were evicted.
pub open spec fn evictions_counted(counts: MetricsSnapshot, n: u64) -> MetricsSnapshot {
    MetricsSnapshot { signatures_evicted: count_plus(counts.signatures_evicted, n), ..counts }
}

/// Counts for monitoring. Clones share them: what one holder counts, or sets back to zero, all
/// holders see, from whatever thread.
///
/// Others may count at any moment, so no contract says which numbers a holder finds, only that they
/// were there at some time, and that what is counted is added to what was there. How the numbers
/// change is said by the functions of [`MetricsSnapshot`]; what a limiter has counted itself is
/// said by its own contracts.
pub struct Metrics {
    counts: SharedCounts,
}

impl Clone for Metrics {
    /// One more holder of the same counts.
    fn clone(&self) -> (r: Self)
        ensures
            r == *self,
    {
        Metrics { counts: self.counts.clone() }
    }
}

impl Default for Metrics {
    fn default() -> (r: Self)
        ensures
            r.held(zero_metrics()),
    {
        Metrics::new()
    }
}

impl Metrics {
    /// Whether the counts were these at some time, as far as is known.
    pub closed spec fn held(&self, counts: MetricsSnapshot) -> bool {
        self.counts.held(counts)
    }

    /// Whether an event that passed was counted: the counts at some time, and one more.
    pub open spec fn allowed_noted(&self) -> bool {
        exists|before: MetricsSnapshot| #[trigger]
            self.held(before) && self.held(allowed_counted(before))
    }

    /// Whether an event that was suppressed was counted.
    pub open spec fn suppressed_noted(&self) -> bool {
        exists|before: MetricsSnapshot| #[trigger]
            self.held(before) && self.held(suppressed_counted(before))
    }

    /// Whether an eviction was counted.
    pub open spec fn eviction_noted(&self) -> bool {
        exists|before: MetricsSnapshot| #[trigger]
            self.held(before) && self.held(evictions_counted(before, 1))
    }

    /// Counts that nobody shares yet, all zero.
    pub fn new() -> (r: Self)
        ensures
            r.held(zero_metrics()),
    {
        Metrics { counts: SharedCounts::new(MetricsSnapshot::zero()) }
    }

    /// Counts an event that passed.
    pub fn record_allowed(&self)
        ensures
            self.allowed_noted(),
    {
        let change = |counts: MetricsSnapshot| -> (r: MetricsSnapshot)
            ensures
                r == allowed_counted(counts),
            { counts.plus_allowed() };
        self.counts.update(change);
        proof {
            let (before, after) = choose|before: MetricsSnapshot, after: MetricsSnapshot|
                self.counts.held(before) && self.counts.held(after) && #[trigger] change.ensures(
                    (before,),
                    after,
                );
            assert(self.held(before) && self.held(allowed_counted(before)));
        }
    }

    /// Counts an event that was suppressed.
    pub fn record_suppressed(&self)
        ensures
            self.suppressed_noted(),
    {
        let change = |counts: MetricsSnapshot| -> (r: MetricsSnapshot)
            ensures
                r == suppressed_counted(counts),
            { counts.plus_suppressed() };
        self.counts.update(change);
        proof {
            let (before, after) = choose|before: MetricsSnapshot, after: MetricsSnapshot|
                self.counts.held(before) && self.counts.held(after) && #[trigger] change.ensures(
                    (before,),
                    after,
                );
            assert(self.held(before) && self.held(suppressed_counted(before)));
        }
    }

    /// Counts a signature that was evicted from a storage.
    pub fn record_eviction(&self)
        ensures
            self.eviction_noted(),
    {
        let change = |counts: MetricsSnapshot| -> (r: MetricsSnapshot)
            ensures
                r == evictions_counted(counts, 1),
            { counts.plus_evictions(1) };
        self.counts.update(change);
        proof {
            let (before, after) = choose|before: MetricsSnapshot, after: MetricsSnapshot|
                self.counts.held(before) && self.counts.held(after) && #[trigger] change.ensures(
                    (before,),
                    after,
                );
            assert(self.held(before) && self.held(evictions_counted(before, 1)));
        }
    }

    /// How many events passed.
    pub fn events_allowed(&self) -> (n: u64)
        ensures
            exists|counts: MetricsSnapshot| #[trigger]
                self.held(counts) && n == counts.events_allowed,
    {
        self.snapshot().events_allowed
    }

    /// How many events were suppressed.
    pub fn events_suppressed(&self) -> (n: u64)
        ensures
            exists|counts: MetricsSnapshot| #[trigger]
                self.held(counts) && n == counts.events_suppressed,
    {
        self.snapshot().events_suppressed
    }

    /// How many signatures were evicted.
    pub fn signatures_evicted(&self) -> (n: u64)
        ensures
            exists|counts: MetricsSnapshot| #[trigger]
                self.held(counts) && n == counts.signatures_evicted,
    {
        self.snapshot().signatures_evicted
    }

    /// All counts at once.
    pub fn snapshot(&self) -> (counts: MetricsSnapshot)
        ensures
            self.held(counts),
    {
        self.counts.read()
    }

    /// Sets all counts to zero, for every holder.
    pub fn reset(&self)
        ensures
            self.held(zero_metrics()),
    {
        let change = |_counts: MetricsSnapshot| -> (r: MetricsSnapshot)
            ensures
                r == zero_metrics(),
            { MetricsSnapshot::zero() };
        self.counts.update(change);
    }
}

/// The counts at one moment.
#[derive(Debug, Clone, Copy, PartialEq, Eq, Structural)]
pub struct MetricsSnapshot {
    /// How many events passed.
    pub events_allowed: u64,
    /// How many events were suppressed.
    pub events_suppressed: u64,
    /// How many signatures were evicted.
    pub signatures_evicted: u64,
}

impl MetricsSnapshot {
    /// Nothing counted.
    pub fn zero() -> (r: Self)
        ensures
            r == zero_metrics(),
    {
        MetricsSnapshot { events_allowed: 0, events_suppressed: 0, signatures_evicted: 0 }
    }

    /// These counts and an event that passed.
    pub fn plus_allowed(self) -> (r: Self)
        ensures
            r == allowed_counted(self),
    {
        MetricsSnapshot { events_allowed: self.events_allowed.wrapping_add(1), ..self }
    }

    /// These counts and an event that was suppressed.
    pub fn plus_suppressed(self) -> (r: Self)
        ensures
            r == suppressed_counted(self),
    {
        MetricsSnapshot { events_suppressed: self.events_suppressed.wrapping_add(1), ..self }
    }

    /// These counts and `n` signatures that were evicted.
    pub fn plus_evictions(self, n: u64) -> (r: Self)
        ensures
            r == evictions_counted(self, n),
    {
        MetricsSnapshot { signatures_evicted: self.signatures_evicted.wrapping_add(n), ..self }
    }

    /// How many events there were, passed or suppressed, up to the largest `u64`.
    pub fn total_events(&self) -> (n: u64)
        ensures
            n == if self.events_allowed + self.events_suppressed <= u64::MAX {
                self.events_allowed + self.events_suppressed
            } else {
                u64::MAX as int
            },
    {
        self.events_allowed.saturating_add(self.events_suppressed)
    }

    /// The share of events that were suppressed, as a fraction: how many of how many. Where
    /// there were no events it is none of one.
    pub fn suppression_ratio(&self) -> (r: (u64, u64))
        ensures
            self.events_allowed == 0 && self.events_suppressed == 0 ==> r == (0u64, 1u64),
            self.events_allowed + self.events_suppressed > 0 ==> r.0 == self.events_suppressed
                && r.1 == if self.events_allowed + self.events_suppressed <= u64::MAX {
                self.events_allowed + self.events_suppressed
            } else {
                u64::MAX as int
            },
    {
        let total: u64 = self.total_events();
        if total == 0 {
            (0, 1)
        } else {
            (self.events_suppressed, total)
        }
    }
}

/// Counting one more adds one to the count in question and leaves the others alone, as long as the
/// number can be held; `n` evictions count like one after the other.
pub proof fn law_counts_go_up_by_what_is_counted(counts: MetricsSnapshot, n: u64)
    ensures
        counts.events_allowed < u64::MAX ==> allowed_counted(counts).events_allowed
            == counts.events_allowed + 1,
        allowed_counted(counts).events_suppressed == counts.events_suppressed,
        allowed_counted(counts).signatures_evicted == counts.signatures_evicted,
        counts.events_suppressed < u64::MAX ==> suppressed_counted(counts).events_suppressed
            == counts.events_suppressed + 1,
        suppressed_counted(counts).events_allowed == counts.events_allowed,
        suppressed_counted(counts).signatures_evicted == counts.signatures_evicted,
        counts.signatures_evicted + n <= u64::MAX ==> evictions_counted(
            counts,
            n,
        ).signatures_evicted == counts.signatures_evicted + n,
        evictions_counted(counts, n).events_allowed == counts.events_allowed,
        evictions_counted(counts, n).events_suppressed == counts.events_suppressed,
        zero_metrics().events_allowed == 0,
        zero_metrics().events_suppressed == 0,
        zero_metrics().signatures_evicted == 0,
{
}

/// A count that cannot be held any more starts over at zero: all counts are right up to multiples
/// of one more than the largest number.
pub proof fn law_counts_start_over(a: u64, b: u64)
    ensures
        next_count(a) as int % 0x1_0000_0000_0000_0000 == (a + 1) % 0x1_0000_0000_0000_0000,
        count_plus(a, b) as int % 0x1_0000_0000_0000_0000 == (a + b) % 0x1_0000_0000_0000_0000,
{
}

/// What was counted was added: at some time the count in question was one higher than at another,
/// and the other counts were the same.
pub proof fn law_what_is_noted_was_added(metrics: Metrics)
    ensures
        metrics.allowed_noted() ==> exists|a: MetricsSnapshot, b: MetricsSnapshot|
            {
                &&& #[trigger] metrics.held(a) && #[trigger] metrics.held(b)
                &&& a.events_allowed < u64::MAX ==> b.events_allowed == a.events_allowed + 1
                &&& b.events_suppressed == a.events_suppressed
                &&& b.signatures_evicted == a.signatures_evicted
            },
        metrics.suppressed_noted() ==> exists|a: MetricsSnapshot, b: MetricsSnapshot|
            {
                &&& #[trigger] metrics.held(a) && #[trigger] metrics.held(b)
                &&& a.events_suppressed < u64::MAX ==> b.events_suppressed == a.events_suppressed
                    + 1
                &&& b.events_allowed == a.events_allowed
                &&& b.signatures_evicted == a.signatures_evicted
            },
        metrics.eviction_noted() ==> exists|a: MetricsSnapshot, b: MetricsSnapshot|
            {
                &&& #[trigger] metrics.held(a) && #[trigger] metrics.held(b)
                &&& a.signatures_evicted < u64::MAX ==> b.signatures_evicted
                    == a.signatures_evicted + 1
                &&& b.events_allowed == a.events_allowed
                &&& b.events_suppressed == a.events_suppressed
            },
{
    if metrics.allowed_noted() {
        let a = choose|a: MetricsSnapshot| #[trigger]
            metrics.held(a) && metrics.held(allowed_counted(a));
        let b = allowed_counted(a);
        assert(metrics.held(a) && metrics.held(b));
    }
    if metrics.suppressed_noted() {
        let a = choose|a: MetricsSnapshot| #[trigger]
            metrics.held(a) && metrics.held(suppressed_counted(a));
        let b = suppressed_counted(a);
        assert(metrics.held(a) && metrics.held(b));
    }
    if metrics.eviction_noted() {
        let a = choose|a: MetricsSnapshot| #[trigger]
            metrics.held(a) && metrics.held(evictions_counted(a, 1));
        let b = evictions_counted(a, 1);
        assert(metrics.held(a) && metrics.held(b));
    }
}

} // verus!
