use vstd::prelude::*;

verus! {

/// Nanoseconds in one microsecond.
pub const NANOS_IN_A_MICROSECOND: u128 = 1_000;

/// Nanoseconds in one millisecond.
pub const NANOS_IN_A_MILLISECOND: u128 = 1_000_000;

/// Nanoseconds in one second.
pub const NANOS_IN_A_SECOND: u128 = 1_000_000_000;

/// Nanoseconds in one minute.
pub const NANOS_IN_A_MINUTE: u128 = 60_000_000_000;

/// Nanoseconds in one hour.
pub const NANOS_IN_AN_HOUR: u128 = 3_600_000_000_000;

/// Nanoseconds in one day.
pub const NANOS_IN_A_DAY: u128 = 86_400_000_000_000;

/// Nanoseconds in one week.
pub const NANOS_IN_A_WEEK: u128 = 604_800_000_000_000;

} // verus!
