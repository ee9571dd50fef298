//! Points in time and lengths of time.

use chrono::{DateTime, TimeDelta, Utc};
use std::time::Duration;
use vstd::prelude::*;

verus! {

/// Nanoseconds in one second.
pub const NANOS_PER_SEC: u128 = 1_000_000_000;

/// Nanoseconds in one millisecond.
pub const NANOS_PER_MILLI: u128 = 1_000_000;

/// The longest `Delay`: `u64::MAX` seconds and 999,999,999 nanoseconds.
pub const MAX_DELAY_NANOS: u128 = 18_446_744_073_709_551_615_999_999_999;

/// The longest delay that the calendar can add to a point in time:
/// `i64::MAX` milliseconds.
pub const MAX_DELTA_NANOS: u128 = 9_223_372_036_854_775_807_000_000;

/// The whole seconds of `MAX_DELTA_NANOS`.
const MAX_DELTA_SECS: u64 = 9_223_372_036_854_775;

/// The nanoseconds of `MAX_DELTA_NANOS` after its last whole second.
const MAX_DELTA_SUBSEC_NANOS: u32 = 807_000_000;

/// The second of the earliest calendar moment, -262143-01-01 00:00:00 UTC.
pub const MIN_TIMESTAMP_SECS: i64 = -8_334_601_228_800;

/// The second of the latest calendar moment, +262142-12-31 23:59:59 UTC.
pub const MAX_TIMESTAMP_SECS: i64 = 8_210_266_876_799;

/// A length of time. Its view is the number of nanoseconds.
#[derive(Clone, Copy, Debug, PartialEq, Eq, Structural)]
pub struct Delay {
    nanos: u128,
}

impl View for Delay {
    type V = nat;

    closed spec fn view(&self) -> nat {
        self.nanos as nat
    }
}

impl Delay {
    #[verifier::type_invariant]
    spec fn fits(self) -> bool {
        self.nanos <= MAX_DELAY_NANOS
    }

    /// The empty length of time.
    pub fn zero() -> (d: Delay)
        ensures
            d@ == 0,
    {
        Delay { nanos: 0 }
    }

    /// `secs` seconds and `nanos` nanoseconds.
    pub fn new(secs: u64, nanos: u32) -> (d: Delay)
        requires
            secs * NANOS_PER_SEC + nanos <= MAX_DELAY_NANOS,
        ensures
            d@ == secs * NANOS_PER_SEC + nanos,
    {
        Delay { nanos: secs as u128 * NANOS_PER_SEC + nanos as u128 }
    }

    /// `secs` seconds.
    pub fn from_secs(secs: u64) -> (d: Delay)
        ensures
            d@ == secs * NANOS_PER_SEC,
    {
        Delay { nanos: secs as u128 * NANOS_PER_SEC }
    }

    /// `millis` milliseconds.
    pub fn from_millis(millis: u64) -> (d: Delay)
        ensures
            d@ == millis * NANOS_PER_MILLI,
    {
        Delay { nanos: millis as u128 * NANOS_PER_MILLI }
    }

    /// The whole seconds.
    pub fn as_secs(&self) -> (secs: u64)
        ensures
            secs as int == self@ as int / NANOS_PER_SEC as int,
    {
        proof {
            use_type_invariant(self);
        }
        (self.nanos / NANOS_PER_SEC) as u64
    }

    /// The nanoseconds after the last whole second.
    pub fn subsec_nanos(&self) -> (nanos: u32)
        ensures
            nanos as int == self@ as int % NANOS_PER_SEC as int,
    {
        (self.nanos % NANOS_PER_SEC) as u32
    }

    /// The whole milliseconds, modulo the range of a `u64`.
    pub fn as_millis_u64(&self) -> (millis: u64)
        ensures
            millis as int == (self@ as int / NANOS_PER_MILLI as int) % 0x1_0000_0000_0000_0000,
    {
        let millis: u128 = self.nanos / NANOS_PER_MILLI;
        assert(millis as u64 == millis % 0x1_0000_0000_0000_0000) by (bit_vector);
        #[verifier::truncate]
        (millis as u64)
    }

    pub fn is_zero(&self) -> (b: bool)
        ensures
            b == (self@ == 0),
    {
        self.nanos == 0
    }

    /// The shorter of the two.
    pub fn min(self, other: Delay) -> (d: Delay)
        ensures
            d@ == if self@ <= other@ { self@ } else { other@ },
    {
        if self.nanos <= other.nanos {
            self
        } else {
            other
        }
    }

    /// Is this at least as long as `other`?
    pub fn at_least(&self, other: &Delay) -> (b: bool)
        ensures
            b == (self@ >= other@),
    {
        self.nanos >= other.nanos
    }

    /// This less `other`, or nothing where `other` is the longer.
    pub fn saturating_sub(self, other: Delay) -> (d: Delay)
        ensures
            d@ == if self@ >= other@ { (self@ - other@) as nat } else { 0 },
    {
        proof {
            use_type_invariant(&self);
        }
        if self.nanos >= other.nanos {
            Delay { nanos: self.nanos - other.nanos }
        } else {
            Delay { nanos: 0 }
        }
    }
}

/// A point in time (UTC): seconds since 1970-01-01 00:00:00, and the
/// nanoseconds after that second. A leap second is written as the second
/// before it with nanoseconds from one billion up.
#[derive(Clone, Copy, Debug, PartialEq, Eq, Hash, Structural)]
pub struct Timestamp {
    pub secs: i64,
    pub nanos: u32,
}

impl Timestamp {
    /// Lies before `other`.
    pub open spec fn before(self, other: Timestamp) -> bool {
        self.secs < other.secs || (self.secs == other.secs && self.nanos < other.nanos)
    }

    /// Nanoseconds since 1970-01-01 00:00:00 UTC, for moments outside a leap
    /// second.
    pub open spec fn since_epoch(self) -> int {
        self.secs * NANOS_PER_SEC + self.nanos
    }

    /// A moment of the calendar, outside a leap second.
    pub open spec fn valid(self) -> bool {
        &&& MIN_TIMESTAMP_SECS <= self.secs <= MAX_TIMESTAMP_SECS
        &&& self.nanos < NANOS_PER_SEC
    }

    /// The moment came from the system clock. What a clock can show is known
    /// here alone: elsewhere only `utc_now` yields such a moment, and none can
    /// be made up.
    pub closed spec fn from_clock(self) -> bool {
        self.valid() && self.secs >= 0
    }

    /// What the system clock has shown: a moment of the calendar from 1970 on.
    pub open spec fn clock_reading(self) -> bool {
        self.from_clock() && self.valid() && self.secs >= 0
    }

    /// Does this lie before `other`?
    pub fn is_before(&self, other: &Timestamp) -> (b: bool)
        ensures
            b == self.before(*other),
    {
        self.secs < other.secs || (self.secs == other.secs && self.nanos < other.nanos)
    }

    /// Is this a moment of the calendar, outside a leap second?
    pub fn is_valid(&self) -> (b: bool)
        ensures
            b == self.valid(),
    {
        MIN_TIMESTAMP_SECS <= self.secs && self.secs <= MAX_TIMESTAMP_SECS && (self.nanos as u128)
            < NANOS_PER_SEC
    }

    /// The moment `delay` after this one, with `delay` cut to
    /// `MAX_DELTA_NANOS`; `None` where the calendar ends before it.
    pub fn after(self, delay: Delay) -> (moment: Option<Timestamp>)
        requires
            self.valid(),
        ensures
            moment is Some <==> self.since_epoch() + capped_delay(delay@)
                <= last_moment().since_epoch(),
            moment matches Some(m) ==> m.valid() && m.since_epoch() == self.since_epoch()
                + capped_delay(delay@),
    {
        let (secs, nanos) = match delta_from_std(delay.as_secs(), delay.subsec_nanos()) {
            Some(delta) => delta,
            None => (MAX_DELTA_SECS, MAX_DELTA_SUBSEC_NANOS),
        };
        checked_add(self, secs, nanos)
    }
}

/// A moment that a clock can show.
pub open spec fn some_moment() -> Timestamp {
    Timestamp { secs: 0, nanos: 0 }
}

/// There are moments that a clock can show.
pub proof fn lemma_clock_shows_a_moment()
    ensures
        exists|t: Timestamp| #[trigger] t.clock_reading(),
{
    assert(some_moment().clock_reading());
}

/// The latest moment of the calendar.
pub open spec fn last_moment() -> Timestamp {
    Timestamp { secs: MAX_TIMESTAMP_SECS, nanos: 999_999_999 }
}

/// What the calendar makes of a delay of `nanos` nanoseconds.
pub open spec fn capped_delay(nanos: nat) -> nat {
    if nanos <= MAX_DELTA_NANOS {
        nanos
    } else {
        MAX_DELTA_NANOS as nat
    }
}

/// `chrono::Utc::now`: the time that the system clock shows. Trusted: what it
/// shows is a moment of the calendar, outside a leap second and not before
/// 1970. Nothing is said of which moment, nor that a later call shows a later
/// one. The call panics on a machine whose clock stands before 1970.
#[verifier::external_body]
pub(crate) fn utc_now() -> (now: Timestamp)
    ensures
        now.clock_reading(),
{
    let now = Utc::now();
    Timestamp { secs: now.timestamp(), nanos: now.timestamp_subsec_nanos() }
}

/// `chrono::TimeDelta::from_std`: a length of time, in seconds and
/// nanoseconds, as the calendar counts it. Trusted: it keeps both numbers, and
/// fails exactly on what is longer than `MAX_DELTA_NANOS`.
#[verifier::external_body]
fn delta_from_std(secs: u64, nanos: u32) -> (delta: Option<(u64, u32)>)
    requires
        nanos < NANOS_PER_SEC,
    ensures
        delta == if secs * NANOS_PER_SEC + nanos <= MAX_DELTA_NANOS {
            Some((secs, nanos))
        } else {
            None
        },
{
    match TimeDelta::from_std(Duration::new(secs, nanos)) {
        Ok(delta) => Some((delta.num_seconds() as u64, delta.subsec_nanos() as u32)),
        Err(_) => None,
    }
}

/// `chrono::DateTime::checked_add_signed`, on UTC. Trusted: for a moment of
/// the calendar outside a leap second it gives the moment that lies `secs`
/// seconds and `nanos` nanoseconds later, and `None` exactly where that lies
/// behind the calendar's end.
#[verifier::external_body]
fn checked_add(start: Timestamp, secs: u64, nanos: u32) -> (sum: Option<Timestamp>)
    requires
        start.valid(),
        nanos < NANOS_PER_SEC,
        secs * NANOS_PER_SEC + nanos <= MAX_DELTA_NANOS,
    ensures
        sum is Some <==> start.since_epoch() + secs * NANOS_PER_SEC + nanos
            <= last_moment().since_epoch(),
        sum matches Some(m) ==> m.valid() && m.since_epoch() == start.since_epoch() + secs
            * NANOS_PER_SEC + nanos,
{
    let delta = TimeDelta::new(secs as i64, nanos)?;
    let sum = DateTime::<Utc>::from_timestamp(start.secs, start.nanos)?.checked_add_signed(delta)?;
    Some(Timestamp { secs: sum.timestamp(), nanos: sum.timestamp_subsec_nanos() })
}

} // verus!
