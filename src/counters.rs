//! Saturating counters.

use vstd::prelude::*;

verus! {

pub open spec fn sat_sum(a: int, b: int) -> int {
    if a + b > u64::MAX {
        u64::MAX as int
    } else {
        a + b
    }
}

/// `a + b`, or the largest `u64` where the sum is larger.
pub fn sat_add(a: u64, b: u64) -> (r: u64)
    ensures
        r == sat_sum(a as int, b as int),
{
    if a > u64::MAX - b {
        u64::MAX
    } else {
        a + b
    }
}

} // verus!
