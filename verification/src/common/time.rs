//! Durations, instants and wall-clock timestamps held as whole nanoseconds.

use vstd::prelude::*;
use vstd::std_specs::ops::{AddSpec, SubSpec};

verus! {

/// Nanoseconds in one second.
pub const NANOS_PER_SEC: u128 = 1_000_000_000;

/// The longest representable span: `u64::MAX` seconds and 999 999 999 nanoseconds.
pub const DURATION_MAX_NANOS: u128 = 18_446_744_073_709_551_615_999_999_999;

/// A span of time, exact to the nanosecond.
#[derive(Debug, Clone, Copy, PartialEq, Eq, Structural, PartialOrd, Ord, Hash)]
pub struct Duration {
    nanos: u128,
}

impl View for Duration {
    type V = nat;

    /// The span in nanoseconds.
    closed spec fn view(&self) -> nat {
        self.nanos as nat
    }
}

/// Whether a number of nanoseconds fits in a `Duration`.
pub open spec fn fits_duration(n: int) -> bool {
    0 <= n <= DURATION_MAX_NANOS
}

impl Duration {
    #[verifier::type_invariant]
    spec fn inv(self) -> bool {
        self.nanos <= DURATION_MAX_NANOS
    }

    /// The empty span.
    pub fn zero() -> (d: Duration)
        ensures
            d@ == 0,
    {
        Duration { nanos: 0 }
    }

    /// A span of `secs` seconds and `nanos` nanoseconds; the nanoseconds may exceed one second.
    pub fn new(secs: u64, nanos: u32) -> (d: Duration)
        requires
            fits_duration(secs * 1_000_000_000 + nanos),
        ensures
            d@ == secs * 1_000_000_000 + nanos,
    {
        Duration { nanos: (secs as u128) * NANOS_PER_SEC + (nanos as u128) }
    }

    /// A span of whole seconds.
    pub fn from_secs(secs: u64) -> (d: Duration)
        ensures
            d@ == secs * 1_000_000_000,
    {
        Duration { nanos: (secs as u128) * NANOS_PER_SEC }
    }

    /// A span of whole milliseconds.
    pub fn from_millis(millis: u64) -> (d: Duration)
        ensures
            d@ == millis * 1_000_000,
    {
        Duration { nanos: (millis as u128) * 1_000_000 }
    }

    /// A span of whole microseconds.
    pub fn from_micros(micros: u64) -> (d: Duration)
        ensures
            d@ == micros * 1_000,
    {
        Duration { nanos: (micros as u128) * 1_000 }
    }

    /// A span of nanoseconds.
    pub fn from_nanos(nanos: u64) -> (d: Duration)
        ensures
            d@ == nanos,
    {
        Duration { nanos: nanos as u128 }
    }

    /// A span given in nanoseconds as a wide integer.
    pub fn from_nanos_u128(nanos: u128) -> (d: Duration)
        requires
            fits_duration(nanos as int),
        ensures
            d@ == nanos,
    {
        Duration { nanos }
    }

    /// Whole seconds of the span.
    pub fn as_secs(&self) -> (s: u64)
        ensures
            s == self@ / 1_000_000_000,
    {
        proof { use_type_invariant(self); }
        (self.nanos / NANOS_PER_SEC) as u64
    }

    /// The nanoseconds beyond the whole seconds.
    pub fn subsec_nanos(&self) -> (n: u32)
        ensures
            n == self@ % 1_000_000_000,
    {
        (self.nanos % NANOS_PER_SEC) as u32
    }

    /// Whole milliseconds of the span.
    pub fn as_millis(&self) -> (m: u128)
        ensures
            m == self@ / 1_000_000,
            m <= DURATION_MAX_NANOS / 1_000_000,
    {
        proof { use_type_invariant(self); }
        self.nanos / 1_000_000
    }

    /// Whole microseconds of the span.
    pub fn as_micros(&self) -> (m: u128)
        ensures
            m == self@ / 1_000,
    {
        self.nanos / 1_000
    }

    /// The span in nanoseconds.
    pub fn as_nanos(&self) -> (n: u128)
        ensures
            n == self@,
            fits_duration(n as int),
    {
        proof { use_type_invariant(self); }
        self.nanos
    }

    /// Whether the span is empty.
    pub fn is_zero(&self) -> (b: bool)
        ensures
            b == (self@ == 0),
    {
        self.nanos == 0
    }

    /// Whether this span is shorter than `other`.
    pub fn lt(&self, other: &Duration) -> (b: bool)
        ensures
            b == (self@ < other@),
    {
        self.nanos < other.nanos
    }

    /// Whether this span is no longer than `other`.
    pub fn le(&self, other: &Duration) -> (b: bool)
        ensures
            b == (self@ <= other@),
    {
        self.nanos <= other.nanos
    }

    /// The sum, or `None` where it does not fit.
    pub fn checked_add(&self, other: Duration) -> (r: Option<Duration>)
        ensures
            r matches Some(d) ==> d@ == self@ + other@,
            r is None <==> !fits_duration((self@ + other@) as int),
    {
        proof {
            use_type_invariant(self);
            use_type_invariant(&other);
        }
        if self.nanos <= DURATION_MAX_NANOS - other.nanos {
            Some(Duration { nanos: self.nanos + other.nanos })
        } else {
            None
        }
    }

    /// The difference, or `None` where `other` is longer.
    pub fn checked_sub(&self, other: Duration) -> (r: Option<Duration>)
        ensures
            r matches Some(d) ==> d@ == self@ - other@,
            r is None <==> self@ < other@,
    {
        proof { use_type_invariant(self); }
        if other.nanos <= self.nanos {
            Some(Duration { nanos: self.nanos - other.nanos })
        } else {
            None
        }
    }

    /// The difference, or zero where `other` is longer.
    pub fn saturating_sub(&self, other: Duration) -> (d: Duration)
        ensures
            d@ == if self@ < other@ { 0 } else { self@ - other@ },
    {
        proof { use_type_invariant(self); }
        if other.nanos <= self.nanos {
            Duration { nanos: self.nanos - other.nanos }
        } else {
            Duration { nanos: 0 }
        }
    }

    /// The sum; the caller guarantees that it fits.
    pub fn plus(&self, other: Duration) -> (d: Duration)
        requires
            fits_duration((self@ + other@) as int),
        ensures
            d@ == self@ + other@,
    {
        Duration { nanos: self.nanos + other.nanos }
    }

    /// The span taken `k` times, or `None` where it does not fit.
    pub fn checked_mul(&self, k: u32) -> (r: Option<Duration>)
        ensures
            r matches Some(d) ==> d@ == self@ * k,
            r is None <==> !fits_duration((self@ * k) as int),
    {
        proof { use_type_invariant(self); }
        if k == 0 {
            proof { assert(self@ * k == 0) by (nonlinear_arith) requires k == 0; }
            return Some(Duration { nanos: 0 });
        }
        if self.nanos <= DURATION_MAX_NANOS / (k as u128) {
            proof {
                let n = self.nanos as int;
                let kk = k as int;
                assert(n * kk <= DURATION_MAX_NANOS) by (nonlinear_arith)
                    requires n <= DURATION_MAX_NANOS as int / kk, kk > 0;
            }
            Some(Duration { nanos: self.nanos * (k as u128) })
        } else {
            proof {
                let n = self.nanos as int;
                let kk = k as int;
                assert(n * kk > DURATION_MAX_NANOS) by (nonlinear_arith)
                    requires n > DURATION_MAX_NANOS as int / kk, kk > 0;
            }
            None
        }
    }
}

/// Reads the system clock: nanoseconds since the UNIX epoch (zero for an
/// earlier clock).
///
/// Calls `std::time::SystemTime::now`. What comes back depends on the
/// machine's clock; the contract states only that it fits a `Duration`,
/// which `std::time::Duration::as_nanos` guarantees.
#[verifier::external_body]
fn system_clock_nanos() -> (n: u128)
    ensures
        fits_duration(n as int),
{
    std::time::SystemTime::now()
        .duration_since(std::time::UNIX_EPOCH)
        .map(|d| d.as_nanos())
        .unwrap_or(0)
}

/// `at` plus `d` in nanoseconds, or the largest span a `Duration` holds where
/// that does not fit: what `Instant::saturating_add` gives.
pub open spec fn saturating_sum(at: nat, d: nat) -> nat {
    if fits_duration((at + d) as int) { at + d } else { DURATION_MAX_NANOS as nat }
}

/// A point in time, held as the span since a fixed origin.
#[derive(Debug, Clone, Copy, PartialEq, Eq, Structural, PartialOrd, Ord, Hash)]
pub struct Instant {
    pub since_origin: Duration,
}

impl Instant {
    /// The current instant.
    pub fn now() -> (i: Instant) {
        Instant { since_origin: Duration::from_nanos_u128(system_clock_nanos()) }
    }

    /// The instant `d` after this one; the caller guarantees that it fits.
    pub fn plus(&self, d: Duration) -> (i: Instant)
        requires
            fits_duration((self.since_origin@ + d@) as int),
        ensures
            i.since_origin@ == self.since_origin@ + d@,
    {
        Instant { since_origin: self.since_origin.plus(d) }
    }

    /// The instant `d` after this one, or the latest representable instant
    /// where that does not fit.
    pub fn saturating_add(&self, d: Duration) -> (i: Instant)
        ensures
            i.since_origin@ == if fits_duration((self.since_origin@ + d@) as int) {
                (self.since_origin@ + d@) as int
            } else {
                DURATION_MAX_NANOS as int
            },
            i.since_origin@ >= d@,
            i.since_origin@ >= self.since_origin@,
    {
        proof {
            use_type_invariant(&d);
            use_type_invariant(&self.since_origin);
        }
        match self.since_origin.checked_add(d) {
            Some(sum) => Instant { since_origin: sum },
            None => Instant { since_origin: Duration::from_nanos_u128(DURATION_MAX_NANOS) },
        }
    }

    /// The span from `earlier` to this instant, zero where `earlier` is later.
    pub fn saturating_duration_since(&self, earlier: Instant) -> (d: Duration)
        ensures
            d@ == if self.since_origin@ < earlier.since_origin@ { 0 } else {
                self.since_origin@ - earlier.since_origin@
            },
    {
        self.since_origin.saturating_sub(earlier.since_origin)
    }
}

/// A wall-clock time, held as the span since the UNIX epoch.
#[derive(Debug, Clone, Copy, PartialEq, Eq, Structural, PartialOrd, Ord, Hash)]
pub struct Timestamp {
    since_epoch: Duration,
}

impl View for Timestamp {
    type V = nat;

    /// Nanoseconds since the UNIX epoch.
    closed spec fn view(&self) -> nat {
        self.since_epoch@
    }
}

impl Timestamp {
    /// The time `since_epoch` after the UNIX epoch.
    pub fn new(since_epoch: Duration) -> (t: Timestamp)
        ensures
            t@ == since_epoch@,
    {
        Timestamp { since_epoch }
    }

    /// The current time.
    pub fn now() -> (t: Timestamp) {
        Timestamp { since_epoch: Duration::from_nanos_u128(system_clock_nanos()) }
    }

    /// The span since the UNIX epoch.
    pub fn duration_since_epoch(&self) -> (d: Duration)
        ensures
            d@ == self@,
    {
        self.since_epoch
    }

    /// The span since `earlier`, zero where `earlier` is later.
    pub fn duration_since(&self, earlier: Timestamp) -> (d: Duration)
        ensures
            d@ == if self@ < earlier@ { 0 } else { self@ - earlier@ },
    {
        self.since_epoch.saturating_sub(earlier.since_epoch)
    }

    /// The time `duration` later, or `None` where it cannot be represented.
    pub fn checked_add(&self, duration: Duration) -> (r: Option<Timestamp>)
        ensures
            r matches Some(t) ==> t@ == self@ + duration@,
            r is None <==> !fits_duration((self@ + duration@) as int),
    {
        match self.since_epoch.checked_add(duration) {
            Some(d) => Some(Timestamp { since_epoch: d }),
            None => None,
        }
    }

    /// The time `duration` earlier, or `None` where it falls before the epoch.
    pub fn checked_sub(&self, duration: Duration) -> (r: Option<Timestamp>)
        ensures
            r matches Some(t) ==> t@ == self@ - duration@,
            r is None <==> self@ < duration@,
    {
        match self.since_epoch.checked_sub(duration) {
            Some(d) => Some(Timestamp { since_epoch: d }),
            None => None,
        }
    }

    /// Whether this time comes strictly before `other`.
    pub fn is_before(&self, other: Timestamp) -> (b: bool)
        ensures
            b == (self@ < other@),
    {
        self.since_epoch.lt(&other.since_epoch)
    }

    /// Whether this time comes strictly after `other`.
    pub fn is_after(&self, other: Timestamp) -> (b: bool)
        ensures
            b == (self@ > other@),
    {
        other.since_epoch.lt(&self.since_epoch)
    }
}

/// `+` and `-` on timestamps agree with `checked_add` and `duration_since`.
pub proof fn lemma_timestamp_operators(t: Timestamp, u: Timestamp, d: Duration)
    ensures
        fits_duration((t@ + d@) as int) ==> t.add_spec(d)@ == t@ + d@,
        t.sub_spec(u)@ == if t@ < u@ { 0 } else { t@ - u@ },
{
}

impl std::ops::Add<Duration> for Timestamp {
    type Output = Timestamp;

    fn add(self, duration: Duration) -> (t: Timestamp) {
        Timestamp { since_epoch: self.since_epoch.plus(duration) }
    }
}

impl std::ops::Sub<Timestamp> for Timestamp {
    type Output = Duration;

    fn sub(self, earlier: Timestamp) -> (d: Duration) {
        self.since_epoch.saturating_sub(earlier.since_epoch)
    }
}

impl vstd::std_specs::ops::SubSpecImpl<Timestamp> for Timestamp {
    open spec fn obeys_sub_spec() -> bool {
        true
    }

    open spec fn sub_req(self, earlier: Timestamp) -> bool {
        true
    }

    closed spec fn sub_spec(self, earlier: Timestamp) -> Duration {
        Duration {
            nanos: if self.since_epoch.nanos < earlier.since_epoch.nanos { 0 } else {
                (self.since_epoch.nanos - earlier.since_epoch.nanos) as u128
            },
        }
    }
}

impl vstd::std_specs::ops::AddSpecImpl<Duration> for Timestamp {
    open spec fn obeys_add_spec() -> bool {
        true
    }

    open spec fn add_req(self, duration: Duration) -> bool {
        fits_duration((self@ + duration@) as int)
    }

    closed spec fn add_spec(self, duration: Duration) -> Timestamp {
        Timestamp { since_epoch: Duration { nanos: (self.since_epoch.nanos + duration.nanos) as u128 } }
    }
}

} // verus!
