//! `zdotc` — conjugated complex dot product: xᴴy = Σ conj(xᵢ)·yᵢ.

use super::zdot::{zdot_at, zdot_spec};
use crate::c64::C64;
use vstd::prelude::*;

verus! {

/// Returns xᴴy (x conjugated), accumulated as `zdot_spec` orders it.
/// The two slices must have the same length.
pub fn zdotc(x: &[C64], y: &[C64]) -> (r: C64)
    requires
        x@.len() == y@.len(),
    ensures
        r == zdot_spec(x@, y@, true),
{
    let r = zdot_at(x, 0, y, 0, x.len(), true);
    assert(x@.subrange(0, x@.len() as int) =~= x@);
    assert(y@.subrange(0, y@.len() as int) =~= y@);
    r
}

} // verus!
