//! Points in time and spans of time, counted in whole nanoseconds.
//!
//! An [`Instant`] is a distance from one fixed base point, so that the rules of the library
//! can be stated and computed over plain numbers. Where a reading comes from is the business
//! of a clock.
use vstd::prelude::*;
use vstd::std_specs::ops::{AddSpecImpl, SubSpecImpl};

verus! {

/// Nanoseconds in one second.
pub const NANOS_PER_SEC: u128 = 1_000_000_000;

/// The largest number of nanoseconds that a [`Duration`] or an [`Instant`] holds:
/// `u64::MAX` seconds and 999,999,999 nanoseconds.
pub const MAX_NANOS: u128 = 18_446_744_073_709_551_615_999_999_999;

/// A span of time.
#[derive(Debug, Clone, Copy, PartialEq, Eq, PartialOrd, Ord, Hash, Structural)]
pub struct Duration {
    nanos: u128,
}

impl View for Duration {
    type V = nat;

    /// The length in nanoseconds.
    closed spec fn view(&self) -> nat {
        self.nanos as nat
    }
}

impl Duration {
    #[verifier::type_invariant]
    spec fn in_range(self) -> bool {
        self.nanos <= MAX_NANOS
    }

    /// The empty span.
    pub fn zero() -> (d: Duration)
        ensures
            d@ == 0,
    {
        Duration { nanos: 0 }
    }

    /// `secs` seconds and `nanos` nanoseconds.
    pub fn new(secs: u64, nanos: u32) -> (d: Duration)
        requires
            secs * NANOS_PER_SEC + nanos <= MAX_NANOS,
        ensures
            d@ == secs * NANOS_PER_SEC + nanos,
    {
        Duration { nanos: (secs as u128) * NANOS_PER_SEC + (nanos as u128) }
    }

    /// A whole number of seconds.
    pub fn from_secs(secs: u64) -> (d: Duration)
        ensures
            d@ == secs * NANOS_PER_SEC,
    {
        Duration { nanos: (secs as u128) * NANOS_PER_SEC }
    }

    /// A whole number of milliseconds.
    pub fn from_millis(millis: u64) -> (d: Duration)
        ensures
            d@ == millis * 1_000_000,
    {
        Duration { nanos: (millis as u128) * 1_000_000 }
    }

    /// A whole number of nanoseconds.
    pub fn from_nanos(nanos: u64) -> (d: Duration)
        ensures
            d@ == nanos,
    {
        Duration { nanos: nanos as u128 }
    }

    /// The length in nanoseconds.
    pub fn as_nanos(&self) -> (n: u128)
        ensures
            n == self@,
            n <= MAX_NANOS,
    {
        proof {
            use_type_invariant(self);
        }
        self.nanos
    }

    /// The whole seconds in this span.
    pub fn as_secs(&self) -> (secs: u64)
        ensures
            secs == self@ / NANOS_PER_SEC as nat,
    {
        proof {
            use_type_invariant(self);
        }
        (self.nanos / NANOS_PER_SEC) as u64
    }

    /// What is left of this span after its whole seconds, in nanoseconds.
    pub fn subsec_nanos(&self) -> (nanos: u32)
        ensures
            nanos == self@ % NANOS_PER_SEC as nat,
            nanos < NANOS_PER_SEC,
    {
        (self.nanos % NANOS_PER_SEC) as u32
    }

    /// Whether the span is empty.
    pub fn is_zero(&self) -> (r: bool)
        ensures
            r == (self@ == 0),
    {
        self.nanos == 0
    }
}

/// A point in time, as its distance from the base point.
#[derive(Debug, Clone, Copy, PartialEq, Eq, PartialOrd, Ord, Hash, Structural)]
pub struct Instant {
    nanos: u128,
}

impl View for Instant {
    type V = nat;

    /// Nanoseconds since the base point.
    closed spec fn view(&self) -> nat {
        self.nanos as nat
    }
}

impl Instant {
    #[verifier::type_invariant]
    spec fn in_range(self) -> bool {
        self.nanos <= MAX_NANOS
    }

    /// The base point itself.
    pub fn base() -> (t: Instant)
        ensures
            t@ == 0,
    {
        Instant { nanos: 0 }
    }

    /// The instant `nanos` nanoseconds after the base point, or the last instant there is where
    /// that lies beyond it.
    pub fn from_nanos(nanos: u128) -> (t: Instant)
        ensures
            t@ == if nanos <= MAX_NANOS {
                nanos as nat
            } else {
                MAX_NANOS as nat
            },
    {
        if nanos <= MAX_NANOS {
            Instant { nanos }
        } else {
            Instant { nanos: MAX_NANOS }
        }
    }

    /// Nanoseconds since the base point.
    pub fn as_nanos(&self) -> (n: u128)
        ensures
            n == self@,
            n <= MAX_NANOS,
    {
        proof {
            use_type_invariant(self);
        }
        self.nanos
    }

    /// The time from `earlier` to this instant, or the empty span where `earlier` is the later
    /// of the two.
    pub fn saturating_duration_since(&self, earlier: Instant) -> (d: Duration)
        ensures
            d@ == elapsed(earlier@, self@),
    {
        proof {
            use_type_invariant(self);
        }
        if self.nanos >= earlier.nanos {
            Duration { nanos: self.nanos - earlier.nanos }
        } else {
            Duration { nanos: 0 }
        }
    }

    /// The same as [`Instant::saturating_duration_since`].
    pub fn duration_since(&self, earlier: Instant) -> (d: Duration)
        ensures
            d@ == elapsed(earlier@, self@),
    {
        self.saturating_duration_since(earlier)
    }

    /// The instant `d` after this one, if it can be represented.
    pub fn checked_add(&self, d: Duration) -> (r: Option<Instant>)
        ensures
            r is Some <==> self@ + d@ <= MAX_NANOS,
            r matches Some(t) ==> t@ == self@ + d@,
    {
        proof {
            use_type_invariant(self);
            use_type_invariant(&d);
        }
        let sum: u128 = self.nanos + d.nanos;
        if sum <= MAX_NANOS {
            Some(Instant { nanos: sum })
        } else {
            None
        }
    }

    /// The instant `d` before this one, if it is not before the base point.
    pub fn checked_sub(&self, d: Duration) -> (r: Option<Instant>)
        ensures
            r is Some <==> d@ <= self@,
            r matches Some(t) ==> t@ == self@ - d@,
    {
        proof {
            use_type_invariant(self);
        }
        if d.nanos <= self.nanos {
            Some(Instant { nanos: self.nanos - d.nanos })
        } else {
            None
        }
    }
}

impl std::ops::Add<Duration> for Instant {
    type Output = Instant;

    /// The instant `d` after this one, which must be representable.
    fn add(self, d: Duration) -> (t: Instant)
        ensures
            t@ == self@ + d@,
    {
        Instant { nanos: self.nanos + d.nanos }
    }
}

impl AddSpecImpl<Duration> for Instant {
    open spec fn obeys_add_spec() -> bool {
        false
    }

    open spec fn add_req(self, d: Duration) -> bool {
        self@ + d@ <= MAX_NANOS
    }

    open spec fn add_spec(self, d: Duration) -> Instant {
        arbitrary()
    }
}

impl std::ops::Sub<Duration> for Instant {
    type Output = Instant;

    /// The instant `d` before this one, which must not be before the base point.
    fn sub(self, d: Duration) -> (t: Instant)
        ensures
            t@ == self@ - d@,
    {
        proof {
            use_type_invariant(&self);
        }
        Instant { nanos: self.nanos - d.nanos }
    }
}

impl SubSpecImpl<Duration> for Instant {
    open spec fn obeys_sub_spec() -> bool {
        false
    }

    open spec fn sub_req(self, d: Duration) -> bool {
        d@ <= self@
    }

    open spec fn sub_spec(self, d: Duration) -> Instant {
        arbitrary()
    }
}

/// The monotonic clock of the standard library, as an opaque value.
#[verifier::external_type_specification]
#[verifier::external_body]
pub struct ExStdInstant(std::time::Instant);

/// `std::time::Instant::now` reads the monotonic clock. Nothing is claimed of the reading.
#[verifier::external_body]
fn read_clock() -> std::time::Instant {
    std::time::Instant::now()
}

/// `std::time::Instant::elapsed` gives the time since an earlier reading, here in nanoseconds.
/// Nothing is claimed of how much time has passed.
#[verifier::external_body]
fn nanos_since(start: &std::time::Instant) -> u128 {
    start.elapsed().as_nanos()
}

/// A base point on the clock of this process, from which instants are counted.
#[derive(Debug, Clone, Copy)]
pub struct Epoch {
    start: std::time::Instant,
}

impl Epoch {
    /// The base point is now. Which moment that is depends on the clock alone, so nothing can be
    /// said of it.
    pub fn start() -> Epoch {
        Epoch { start: read_clock() }
    }

    /// Whether the clock may show this time, counted from the base point. It may show any, but only
    /// of a time that was read is that known.
    pub closed spec fn shows(&self, now: nat) -> bool {
        true
    }

    /// The present, as an instant after the base point. Which instant that is depends on the
    /// clock alone, so nothing more can be said of it than that the clock shows it.
    pub fn now(&self) -> (now: Instant)
        ensures
            self.shows(now@),
    {
        Instant::from_nanos(nanos_since(&self.start))
    }
}

/// Nanoseconds that pass from `from` to `to`: none where `to` is the earlier one.
pub open spec fn elapsed(from: nat, to: nat) -> nat {
    if to >= from {
        (to - from) as nat
    } else {
        0
    }
}

/// A number of nanoseconds cut off at what a `u64` holds.
pub open spec fn clamp_u64(nanos: nat) -> u64 {
    if nanos <= u64::MAX {
        nanos as u64
    } else {
        u64::MAX
    }
}

/// Cuts a number of nanoseconds off at `u64::MAX`.
pub fn saturate_u64(nanos: u128) -> (r: u64)
    ensures
        r == clamp_u64(nanos as nat),
{
    if nanos <= u64::MAX as u128 {
        nanos as u64
    } else {
        u64::MAX
    }
}

/// Time passes forwards only: from an earlier to a later instant it is what has to be added to the
/// earlier one, and otherwise none.
pub proof fn law_elapsed_leads_from_one_to_the_other(from: nat, to: nat)
    ensures
        from <= to ==> from + elapsed(from, to) == to,
        from >= to ==> elapsed(from, to) == 0,
{
}

/// Times are kept as they are as long as they fit, and never run backwards beyond.
pub proof fn law_clamped_times_keep_their_order(a: nat, b: nat)
    ensures
        a <= 0xffff_ffff_ffff_ffff ==> clamp_u64(a) == a,
        a > 0xffff_ffff_ffff_ffff ==> clamp_u64(a) == 0xffff_ffff_ffff_ffff,
        a <= b ==> clamp_u64(a) <= clamp_u64(b),
{
}

/// A second has a thousand million nanoseconds.
pub proof fn law_seconds_are_counted_in_nanoseconds()
    ensures
        NANOS_PER_SEC == 1_000_000_000,
        MAX_NANOS == 0xffff_ffff_ffff_ffff * 1_000_000_000 + 999_999_999,
{
}

} // verus!
