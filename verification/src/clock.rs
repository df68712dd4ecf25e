//! Differences between clock readings.

use vstd::prelude::*;

use crate::types::TimestampMs;

verus! {

/// How far the reading `a` lies after `b`, in milliseconds.
pub open spec fn ahead(a: TimestampMs, b: TimestampMs) -> int {
    a - b
}

/// How far the reading `a` lies after `b`, in milliseconds; negative where it
/// lies before.
pub fn millis_ahead(a: TimestampMs, b: TimestampMs) -> (r: i128)
    ensures
        r == ahead(a, b),
{
    a as i128 - b as i128
}

/// The difference of two readings is how much has to be added to the one to
/// get the other.
pub proof fn differences_add_up(a: TimestampMs, b: TimestampMs)
    ensures
        b + ahead(a, b) == a,
{
}

} // verus!
