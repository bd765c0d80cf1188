use vstd::prelude::*;

verus! {

/// Scale of the fixed-point numbers in the reward computation.
pub const ACC_PRECISION: u128 = 100_000_000_000;

/// Length of a day in seconds, the unit in which a lock duration is prorated.
pub const SECONDS_PER_DAY: u128 = 86_400;

/// Days of a year of 365.25 days, times the 100 of a percentage.
pub const YEAR_DAYS_PERCENT: u128 = 36_525;

} // verus!
