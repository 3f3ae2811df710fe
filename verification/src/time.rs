//! Points in time, in nanoseconds of a clock that never goes back.

use vstd::prelude::*;

verus! {

/// How long ago `then` is, or nothing if it is not over yet.
pub open spec fn elapsed(then: u64, now: u64) -> int {
    if now >= then {
        now - then
    } else {
        0
    }
}

/// How long ago `then` is, or nothing if it is not over yet.
pub fn time_since(then: u64, now: u64) -> (r: u64)
    ensures
        r == elapsed(then, now),
{
    if now >= then {
        now - then
    } else {
        0
    }
}

} // verus!
