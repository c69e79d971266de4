//! Access to the host environment: the clock and generated identifiers.
//! Nothing is promised of either value; callers state what holds of every
//! outcome.

use vstd::prelude::*;

verus! {

/// Relies on chrono's `Utc::now` and `DateTime::timestamp`: the current
/// time as seconds since the Unix epoch, by the system clock (which must
/// not predate the epoch, or `Utc::now` aborts). No value is promised:
/// the result depends on the clock, not on the program's state.
#[verifier::external_body]
pub fn now_ts() -> i64 {
    chrono::Utc::now().timestamp()
}

/// Relies on uuid's `Uuid::new_v4` and `Uuid::as_u64_pair`: the high half
/// of a freshly generated random (version 4) identifier. No value is
/// promised: the result is random.
#[verifier::external_body]
pub fn fresh_id() -> u64 {
    uuid::Uuid::new_v4().as_u64_pair().0
}

} // verus!
