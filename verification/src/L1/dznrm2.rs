//! `dznrm2` — Euclidean length √(Σ|xᵢ|²) of a binary64 complex vector:
//! Σ|xᵢ|² is the sum of squares of the 2n-real view, so this is `dnrm2`
//! on that view.

use super::dnrm2::{dnrm2_spec, dnrm2_ssq};
use crate::c64::{as_re, zre_view, C64};
use vstd::prelude::*;

verus! {

/// The scale and the scaled sum of squares of the 2n-real view of `x`,
/// as `dnrm2_ssq` computes them; the length is `dnrm2_finish` of the
/// scale and the square root of the sum.
pub fn dznrm2_ssq(x: &[C64]) -> (r: (u64, u64))
    ensures
        r == dnrm2_spec(zre_view(x@)),
{
    let v = as_re(x);
    dnrm2_ssq(v.as_slice())
}

} // verus!
