//! `cdotc` — conjugated complex dot product: xᴴy = Σ conj(xᵢ)·yᵢ.

use super::cdot::{cdot_at, cdot_spec};
use crate::c32::C32;
use vstd::prelude::*;

verus! {

/// Returns xᴴy (x conjugated), accumulated as `cdot_spec` orders it.
/// The two slices must have the same length.
pub fn cdotc(x: &[C32], y: &[C32]) -> (r: C32)
    requires
        x@.len() == y@.len(),
    ensures
        r == cdot_spec(x@, y@, true),
{
    let r = cdot_at(x, 0, y, 0, x.len(), true);
    assert(x@.subrange(0, x@.len() as int) =~= x@);
    assert(y@.subrange(0, y@.len() as int) =~= y@);
    r
}

} // verus!
