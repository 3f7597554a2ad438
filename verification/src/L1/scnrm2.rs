//! `scnrm2` — Euclidean length √(Σ|xᵢ|²) of a binary32 complex vector:
//! Σ|xᵢ|² is the sum of squares of the 2n-real view, so this is `snrm2`
//! on that view.

use super::snrm2::{snrm2_spec, snrm2_ssq};
use crate::c32::{as_re, cre_view, C32};
use vstd::prelude::*;

verus! {

/// The scale and the scaled sum of squares of the 2n-real view of `x`,
/// as `snrm2_ssq` computes them; the length is `snrm2_finish` of the
/// scale and the square root of the sum.
pub fn scnrm2_ssq(x: &[C32]) -> (r: (u32, u32))
    ensures
        r == snrm2_spec(cre_view(x@)),
{
    let v = as_re(x);
    snrm2_ssq(v.as_slice())
}

} // verus!
