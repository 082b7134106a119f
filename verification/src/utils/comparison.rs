//! Comparing numbers that were computed with rounding.

use vstd::prelude::*;
use crate::fixed::Fixed;
use crate::rounding::magnitude;
use crate::ERR_CUTOFF;

verus! {

/// Whether two numbers differ by no more than [`ERR_CUTOFF`].
pub fn nearly_equal(a: Fixed, b: Fixed) -> (r: bool)
    ensures
        r == (magnitude(a@ - b@) <= ERR_CUTOFF),
{
    let difference: i128 = a.wide() - b.wide();
    -(ERR_CUTOFF as i128) <= difference && difference <= ERR_CUTOFF as i128
}

} // verus!
