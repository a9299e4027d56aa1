use vstd::arithmetic::div_mod::lemma_div_by_multiple;
use vstd::prelude::*;
use vstd::std_specs::cmp::PartialOrdSpec;
use vstd::std_specs::convert::FromSpec;

use core::cmp::Ordering;
use core::time::Duration;

use crate::units::{
    NANOS_IN_AN_HOUR, NANOS_IN_A_DAY, NANOS_IN_A_MICROSECOND, NANOS_IN_A_MILLISECOND,
    NANOS_IN_A_MINUTE, NANOS_IN_A_SECOND, NANOS_IN_A_WEEK,
};

verus! {

/// A duration that can only be positive or zero, counted in nanoseconds.
#[derive(Debug, Clone, Copy, PartialEq, Eq, Structural, Ord)]
pub struct AbsoluteDuration {
    nanos: u128,
}

impl View for AbsoluteDuration {
    type V = nat;

    /// The number of nanoseconds the duration spans.
    closed spec fn view(&self) -> nat {
        self.nanos as nat
    }
}

impl AbsoluteDuration {
    /// Creates a duration of `nanoseconds` nanoseconds.
    pub fn from_nanos(nanoseconds: u128) -> (r: Self)
        ensures
            r@ == nanoseconds,
    {
        AbsoluteDuration { nanos: nanoseconds }
    }

    /// Creates a duration of `microseconds` microseconds.
    pub fn from_micros(microseconds: u128) -> (r: Self)
        requires
            microseconds * NANOS_IN_A_MICROSECOND <= u128::MAX,
        ensures
            r@ == microseconds * NANOS_IN_A_MICROSECOND,
    {
        let nanos = microseconds * NANOS_IN_A_MICROSECOND;
        AbsoluteDuration { nanos }
    }

    /// Creates a duration of `milliseconds` milliseconds.
    pub fn from_millis(milliseconds: u128) -> (r: Self)
        requires
            milliseconds * NANOS_IN_A_MILLISECOND <= u128::MAX,
        ensures
            r@ == milliseconds * NANOS_IN_A_MILLISECOND,
    {
        let nanos = milliseconds * NANOS_IN_A_MILLISECOND;
        AbsoluteDuration { nanos }
    }

    /// Creates a duration of `seconds` seconds.
    pub fn from_seconds(seconds: u128) -> (r: Self)
        requires
            seconds * NANOS_IN_A_SECOND <= u128::MAX,
        ensures
            r@ == seconds * NANOS_IN_A_SECOND,
    {
        let nanos = seconds * NANOS_IN_A_SECOND;
        AbsoluteDuration { nanos }
    }

    /// Creates a duration of `minutes` minutes.
    pub fn from_minutes(minutes: u64) -> (r: Self)
        ensures
            r@ == minutes * NANOS_IN_A_MINUTE,
    {
        assert(minutes * NANOS_IN_A_MINUTE <= u128::MAX) by (nonlinear_arith)
            requires minutes <= u64::MAX;
        let nanos = minutes as u128 * NANOS_IN_A_MINUTE;
        AbsoluteDuration { nanos }
    }

    /// Creates a duration of `hours` hours.
    pub fn from_hours(hours: u64) -> (r: Self)
        ensures
            r@ == hours * NANOS_IN_AN_HOUR,
    {
        assert(hours * NANOS_IN_AN_HOUR <= u128::MAX) by (nonlinear_arith)
            requires hours <= u64::MAX;
        let nanos = hours as u128 * NANOS_IN_AN_HOUR;
        AbsoluteDuration { nanos }
    }

    /// Creates a duration of `days` days.
    pub fn from_days(days: u64) -> (r: Self)
        ensures
            r@ == days * NANOS_IN_A_DAY,
    {
        assert(days * NANOS_IN_A_DAY <= u128::MAX) by (nonlinear_arith)
            requires days <= u64::MAX;
        let nanos = days as u128 * NANOS_IN_A_DAY;
        AbsoluteDuration { nanos }
    }

    /// Creates a duration of `weeks` weeks.
    pub fn from_weeks(weeks: u32) -> (r: Self)
        ensures
            r@ == weeks * NANOS_IN_A_WEEK,
    {
        assert(weeks * NANOS_IN_A_WEEK <= u128::MAX) by (nonlinear_arith)
            requires weeks <= u32::MAX;
        let nanos = weeks as u128 * NANOS_IN_A_WEEK;
        AbsoluteDuration { nanos }
    }

    /// The whole duration in nanoseconds.
    pub fn as_nanos(&self) -> (r: u128)
        ensures
            r == self@,
    {
        self.nanos
    }

    /// The number of whole microseconds in the duration.
    pub fn as_micros(&self) -> (r: u128)
        ensures
            r == self@ / (NANOS_IN_A_MICROSECOND as nat),
    {
        self.nanos / NANOS_IN_A_MICROSECOND
    }

    /// The number of whole milliseconds in the duration.
    pub fn as_millis(&self) -> (r: u128)
        ensures
            r == self@ / (NANOS_IN_A_MILLISECOND as nat),
    {
        self.nanos / NANOS_IN_A_MILLISECOND
    }

    /// The number of whole seconds in the duration.
    pub fn as_secs(&self) -> (r: u128)
        ensures
            r == self@ / (NANOS_IN_A_SECOND as nat),
    {
        self.nanos / NANOS_IN_A_SECOND
    }

    /// The number of whole minutes in the duration, kept to its low 64 bits.
    pub fn as_mins(&self) -> (r: u64)
        ensures
            r == (self@ / (NANOS_IN_A_MINUTE as nat)) as u64,
            self@ / (NANOS_IN_A_MINUTE as nat) <= u64::MAX ==> r == self@ / (NANOS_IN_A_MINUTE as nat),
    {
        (self.nanos / NANOS_IN_A_MINUTE) as u64
    }

    /// The number of whole hours in the duration, kept to its low 64 bits.
    pub fn as_hours(&self) -> (r: u64)
        ensures
            r == (self@ / (NANOS_IN_AN_HOUR as nat)) as u64,
            self@ / (NANOS_IN_AN_HOUR as nat) <= u64::MAX ==> r == self@ / (NANOS_IN_AN_HOUR as nat),
    {
        (self.nanos / NANOS_IN_AN_HOUR) as u64
    }

    /// The number of whole days in the duration, kept to its low 64 bits.
    pub fn as_days(&self) -> (r: u64)
        ensures
            r == (self@ / (NANOS_IN_A_DAY as nat)) as u64,
            self@ / (NANOS_IN_A_DAY as nat) <= u64::MAX ==> r == self@ / (NANOS_IN_A_DAY as nat),
    {
        (self.nanos / NANOS_IN_A_DAY) as u64
    }

    /// The number of whole weeks in the duration, kept to its low 32 bits.
    pub fn as_weeks(&self) -> (r: u32)
        ensures
            r == (self@ / (NANOS_IN_A_WEEK as nat)) as u32,
            self@ / (NANOS_IN_A_WEEK as nat) <= u32::MAX ==> r == self@ / (NANOS_IN_A_WEEK as nat),
    {
        (self.nanos / NANOS_IN_A_WEEK) as u32
    }
}

impl PartialOrd for AbsoluteDuration {
    fn partial_cmp(&self, other: &Self) -> (r: Option<Ordering>) {
        if self.nanos < other.nanos {
            Some(Ordering::Less)
        } else if self.nanos == other.nanos {
            Some(Ordering::Equal)
        } else {
            Some(Ordering::Greater)
        }
    }
}

impl vstd::std_specs::cmp::PartialOrdSpecImpl for AbsoluteDuration {
    open spec fn obeys_partial_cmp_spec() -> bool {
        true
    }

    open spec fn partial_cmp_spec(&self, other: &Self) -> Option<Ordering> {
        if self@ < other@ {
            Some(Ordering::Less)
        } else if self@ == other@ {
            Some(Ordering::Equal)
        } else {
            Some(Ordering::Greater)
        }
    }
}

/// Two durations are equal exactly when they span the same number of
/// nanoseconds.
pub proof fn lemma_eq_iff_same_nanos(a: AbsoluteDuration, b: AbsoluteDuration)
    ensures
        a == b <==> a@ == b@,
{
}

/// Durations are totally ordered: any two compare to a definite result, and
/// one is less than, equal to or greater than another exactly as its count
/// of nanoseconds is.
pub proof fn lemma_order_follows_nanos(a: AbsoluteDuration, b: AbsoluteDuration)
    ensures
        a.partial_cmp_spec(&b) is Some,
        a.partial_cmp_spec(&b) == Some(Ordering::Less) <==> a@ < b@,
        a.partial_cmp_spec(&b) == Some(Ordering::Equal) <==> a == b,
        a.partial_cmp_spec(&b) == Some(Ordering::Greater) <==> a@ > b@,
        a.partial_cmp_spec(&b) == Some(Ordering::Less) <==> b.partial_cmp_spec(&a) == Some(
            Ordering::Greater,
        ),
{
}

/// Reading a duration in the unit it was built from gives back the count it
/// was built from: a span of exactly `v` units holds `v` whole units. For
/// the units read as 64- or 32-bit counts this holds while `v` fits.
pub proof fn lemma_unit_round_trip(d: AbsoluteDuration, v: nat)
    ensures
        d@ == v * NANOS_IN_A_MICROSECOND ==> d@ / (NANOS_IN_A_MICROSECOND as nat) == v,
        d@ == v * NANOS_IN_A_MILLISECOND ==> d@ / (NANOS_IN_A_MILLISECOND as nat) == v,
        d@ == v * NANOS_IN_A_SECOND ==> d@ / (NANOS_IN_A_SECOND as nat) == v,
        d@ == v * NANOS_IN_A_MINUTE && v <= u64::MAX ==> (d@ / (NANOS_IN_A_MINUTE as nat)) as u64
            == v,
        d@ == v * NANOS_IN_AN_HOUR && v <= u64::MAX ==> (d@ / (NANOS_IN_AN_HOUR as nat)) as u64
            == v,
        d@ == v * NANOS_IN_A_DAY && v <= u64::MAX ==> (d@ / (NANOS_IN_A_DAY as nat)) as u64 == v,
        d@ == v * NANOS_IN_A_WEEK && v <= u32::MAX ==> (d@ / (NANOS_IN_A_WEEK as nat)) as u32 == v,
{
    lemma_div_by_multiple(v as int, NANOS_IN_A_MICROSECOND as int);
    lemma_div_by_multiple(v as int, NANOS_IN_A_MILLISECOND as int);
    lemma_div_by_multiple(v as int, NANOS_IN_A_SECOND as int);
    lemma_div_by_multiple(v as int, NANOS_IN_A_MINUTE as int);
    lemma_div_by_multiple(v as int, NANOS_IN_AN_HOUR as int);
    lemma_div_by_multiple(v as int, NANOS_IN_A_DAY as int);
    lemma_div_by_multiple(v as int, NANOS_IN_A_WEEK as int);
}

/// The number of nanoseconds that a platform duration spans.
pub uninterp spec fn std_duration_nanos(d: Duration) -> u128;

/// Relies on `Duration::from_nanos`: the duration spans exactly the given
/// number of nanoseconds.
pub assume_specification[ Duration::from_nanos ](nanos: u64) -> (r: Duration)
    ensures
        std_duration_nanos(r) == nanos,
;

/// Relies on `Duration::as_nanos`: the total number of nanoseconds that the
/// duration spans.
pub assume_specification[ Duration::as_nanos ](d: &Duration) -> (r: u128)
    ensures
        r == std_duration_nanos(*d),
;

/// Converts to a platform duration. That type is built from a 64-bit count
/// of nanoseconds, so only the low 64 bits of the count are kept: a duration
/// longer than `u64::MAX` nanoseconds is silently shortened.
impl From<AbsoluteDuration> for Duration {
    fn from(value: AbsoluteDuration) -> (r: Duration)
        ensures
            std_duration_nanos(r) == value@ as u64,
            value@ <= u64::MAX ==> std_duration_nanos(r) == value@,
    {
        Duration::from_nanos(value.nanos as u64)
    }
}

impl vstd::std_specs::convert::FromSpecImpl<AbsoluteDuration> for Duration {
    open spec fn obeys_from_spec() -> bool {
        false
    }

    open spec fn from_spec(v: AbsoluteDuration) -> Duration {
        arbitrary()
    }
}

/// Converts from a platform duration, which always fits.
impl From<Duration> for AbsoluteDuration {
    fn from(value: Duration) -> (r: AbsoluteDuration)
        ensures
            r@ == std_duration_nanos(value),
    {
        AbsoluteDuration { nanos: value.as_nanos() }
    }
}

impl vstd::std_specs::convert::FromSpecImpl<Duration> for AbsoluteDuration {
    open spec fn obeys_from_spec() -> bool {
        true
    }

    closed spec fn from_spec(v: Duration) -> AbsoluteDuration {
        AbsoluteDuration { nanos: std_duration_nanos(v) }
    }
}

} // verus!
