//! `srotg` — generate a plane rotation: given (a, b), find (c, s, r) with
//! c·a + s·b = r and c·b − s·a = 0, c² + s² = 1, the values given as
//! binary32 bit patterns.
//!
//! The guarded arithmetic around the one square root: `srotg_plan`
//! either settles the rotation (a = b = 0) or asks for the square root
//! of `(a/scale)² + (b/scale)²`, `scale = |a| + |b|`; `srotg_finish`
//! takes that root and forms r (carrying the sign of the input of larger
//! magnitude), c = a/r and s = b/r.

use crate::ieee::{
    ieee_sabs, ieee_sadd, ieee_sdiv, ieee_sis_zero, ieee_slt, ieee_smul, ieee_sneg, sabs, sadd,
    sdiv, sis_zero, slt, smul, sneg, ONE_S,
};
use vstd::prelude::*;

verus! {

/// A generated plane rotation: cosine, sine and the resulting radius.
#[derive(Clone, Copy, Debug, PartialEq, Eq, Structural)]
pub struct Givens {
    pub c: u32,
    pub s: u32,
    pub r: u32,
}

/// What `srotg_plan` found: the rotation itself, or the square root it
/// needs.
#[derive(Clone, Copy, Debug, PartialEq, Eq, Structural)]
pub enum RotgPlan {
    /// `a` and `b` are both zero: the identity rotation with r = 0.
    Done(Givens),
    /// The square root of `sumsq` is needed; `scale = |a| + |b|`.
    Root { scale: u32, sumsq: u32 },
}

/// The plan for (a, b).
pub open spec fn srotg_plan_spec(a: u32, b: u32) -> RotgPlan {
    let scale = sadd(sabs(a), sabs(b));
    if sis_zero(scale) {
        RotgPlan::Done(Givens { c: ONE_S, s: 0, r: 0 })
    } else {
        let ta = sdiv(a, scale);
        let tb = sdiv(b, scale);
        RotgPlan::Root { scale, sumsq: sadd(smul(ta, ta), smul(tb, tb)) }
    }
}

/// The rotation for (a, b) given the square root `root` of the planned
/// `sumsq`.
pub open spec fn srotg_finish_spec(a: u32, b: u32, scale: u32, root: u32) -> Givens {
    let roe = if slt(sabs(b), sabs(a)) {
        a
    } else {
        b
    };
    let r0 = smul(scale, root);
    let r = if slt(roe, 0) {
        sneg(r0)
    } else {
        r0
    };
    Givens { c: sdiv(a, r), s: sdiv(b, r), r }
}

/// Plans the rotation that maps (a, b) to (r, 0).
pub fn srotg_plan(a: u32, b: u32) -> (p: RotgPlan)
    ensures
        p == srotg_plan_spec(a, b),
{
    let scale = ieee_sadd(ieee_sabs(a), ieee_sabs(b));
    if ieee_sis_zero(scale) {
        RotgPlan::Done(Givens { c: ONE_S, s: 0, r: 0 })
    } else {
        let ta = ieee_sdiv(a, scale);
        let tb = ieee_sdiv(b, scale);
        RotgPlan::Root { scale, sumsq: ieee_sadd(ieee_smul(ta, ta), ieee_smul(tb, tb)) }
    }
}

/// Completes the rotation that maps (a, b) to (r, 0) from the square
/// root of the planned `sumsq`.
pub fn srotg_finish(a: u32, b: u32, scale: u32, root: u32) -> (g: Givens)
    ensures
        g == srotg_finish_spec(a, b, scale, root),
{
    let roe = if ieee_slt(ieee_sabs(b), ieee_sabs(a)) {
        a
    } else {
        b
    };
    let r0 = ieee_smul(scale, root);
    let r = if ieee_slt(roe, 0) {
        ieee_sneg(r0)
    } else {
        r0
    };
    Givens { c: ieee_sdiv(a, r), s: ieee_sdiv(b, r), r }
}

} // verus!
