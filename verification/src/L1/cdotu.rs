//! `cdotu` — unconjugated complex dot product: xᵀy = Σ xᵢ·yᵢ.

use super::cdot::{cdot_at, cdot_spec};
use crate::c32::C32;
use vstd::prelude::*;

verus! {

/// Returns xᵀy (no conjugation), accumulated as `cdot_spec` orders it.
/// The two slices must have the same length.
pub fn cdotu(x: &[C32], y: &[C32]) -> (r: C32)
    requires
        x@.len() == y@.len(),
    ensures
        r == cdot_spec(x@, y@, false),
{
    let r = cdot_at(x, 0, y, 0, x.len(), false);
    assert(x@.subrange(0, x@.len() as int) =~= x@);
    assert(y@.subrange(0, y@.len() as int) =~= y@);
    r
}

} // verus!
