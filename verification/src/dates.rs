//! Calendar days as plain day numbers. A timestamp is seconds relative to
//! an epoch; the day number is the timestamp floor-divided by the seconds
//! in a day, so every representable timestamp falls on a day number inside
//! [`MIN_DAY`, `MAX_DAY`].

use vstd::prelude::*;

verus! {

/// Seconds in one calendar day.
pub const SECONDS_PER_DAY: i64 = 86400;

/// The smallest day number a second-resolution timestamp can fall on.
pub const MIN_DAY: i64 = -106751991167301;

/// The largest day number a second-resolution timestamp can fall on.
pub const MAX_DAY: i64 = 106751991167300;

/// Day numbers that can arise from a second-resolution timestamp. Such
/// bounds keep differences of day numbers free of overflow.
pub open spec fn valid_day(d: int) -> bool {
    MIN_DAY <= d <= MAX_DAY
}

/// Day number of a timestamp given in seconds, flooring toward negative
/// infinity so that pre-epoch instants land on the right day.
pub open spec fn spec_day_of_timestamp(ts: i64) -> int {
    ts as int / (SECONDS_PER_DAY as int)
}

/// Calendar day (as a day number) on which a second-resolution timestamp
/// falls.
pub fn day_of_timestamp(ts: i64) -> (d: i64)
    ensures
        d as int == spec_day_of_timestamp(ts),
        valid_day(d as int),
{
    if ts >= 0 {
        ts / SECONDS_PER_DAY
    } else {
        let q: i64 = ts / SECONDS_PER_DAY;
        if q * SECONDS_PER_DAY == ts {
            q
        } else {
            q - 1
        }
    }
}

} // verus!
