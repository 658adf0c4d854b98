//! The fixed-length calendar: 365-day years and 30-day months, anchored at
//! 1970. This is a deliberate simplification for recurring monthly billing,
//! not a real calendar, and downstream behaviour depends on it exactly.

use vstd::prelude::*;

verus! {

/// Seconds in one day.
pub const SECONDS_PER_DAY: u64 = 86400;

/// The calendar year a timestamp (seconds since the epoch) falls in.
pub open spec fn year_of_timestamp(timestamp: u64) -> int {
    1970 + (timestamp / SECONDS_PER_DAY) / 365
}

/// The month, 1 to 12, a timestamp falls in: each of the first eleven
/// 30-day blocks of the year is one month, and everything after day 330
/// belongs to month 12.
pub open spec fn month_of_timestamp(timestamp: u64) -> int {
    let day_of_year = (timestamp / SECONDS_PER_DAY) % 365;
    if day_of_year / 30 < 11 {
        1 + day_of_year / 30
    } else {
        12
    }
}

/// Converts a timestamp into its calendar pair.
pub fn year_month_from_timestamp(timestamp: u64) -> (r: (u64, u32))
    ensures
        r.0 == year_of_timestamp(timestamp),
        r.1 == month_of_timestamp(timestamp),
        1 <= r.1 <= 12,
{
    let total_days: u64 = timestamp / SECONDS_PER_DAY;
    let year: u64 = 1970 + total_days / 365;
    let day_of_year: u64 = total_days % 365;
    let block: u64 = day_of_year / 30;
    let month: u64 = if block < 11 {
        1 + block
    } else {
        12
    };
    (year, month as u32)
}

} // verus!
