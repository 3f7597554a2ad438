//! `drotg` — generate a plane rotation: given (a, b), find (c, s, r) with
//! c·a + s·b = r and c·b − s·a = 0, c² + s² = 1, the values given as
//! binary64 bit patterns.
//!
//! The guarded arithmetic around the one square root: `drotg_plan`
//! either settles the rotation (a = b = 0) or asks for the square root
//! of `(a/scale)² + (b/scale)²`, `scale = |a| + |b|`; `drotg_finish`
//! takes that root and forms r (carrying the sign of the input of larger
//! magnitude), c = a/r and s = b/r.

use crate::ieee::{
    ieee_dabs, ieee_dadd, ieee_ddiv, ieee_dis_zero, ieee_dlt, ieee_dmul, ieee_dneg, dabs, dadd,
    ddiv, dis_zero, dlt, dmul, dneg, ONE_D,
};
use vstd::prelude::*;

verus! {

/// A generated plane rotation: cosine, sine and the resulting radius.
#[derive(Clone, Copy, Debug, PartialEq, Eq, Structural)]
pub struct Givens {
    pub c: u64,
    pub s: u64,
    pub r: u64,
}

/// What `drotg_plan` found: the rotation itself, or the square root it
/// needs.
#[derive(Clone, Copy, Debug, PartialEq, Eq, Structural)]
pub enum RotgPlan {
    /// `a` and `b` are both zero: the identity rotation with r = 0.
    Done(Givens),
    /// The square root of `sumsq` is needed; `scale = |a| + |b|`.
    Root { scale: u64, sumsq: u64 },
}

/// The plan for (a, b).
pub open spec fn drotg_plan_spec(a: u64, b: u64) -> RotgPlan {
    let scale = dadd(dabs(a), dabs(b));
    if dis_zero(scale) {
        RotgPlan::Done(Givens { c: ONE_D, s: 0, r: 0 })
    } else {
        let ta = ddiv(a, scale);
        let tb = ddiv(b, scale);
        RotgPlan::Root { scale, sumsq: dadd(dmul(ta, ta), dmul(tb, tb)) }
    }
}

/// The rotation for (a, b) given the square root `root` of the planned
/// `sumsq`.
pub open spec fn drotg_finish_spec(a: u64, b: u64, scale: u64, root: u64) -> Givens {
    let roe = if dlt(dabs(b), dabs(a)) {
        a
    } else {
        b
    };
    let r0 = dmul(scale, root);
    let r = if dlt(roe, 0) {
        dneg(r0)
    } else {
        r0
    };
    Givens { c: ddiv(a, r), s: ddiv(b, r), r }
}

/// Plans the rotation that maps (a, b) to (r, 0).
pub fn drotg_plan(a: u64, b: u64) -> (p: RotgPlan)
    ensures
        p == drotg_plan_spec(a, b),
{
    let scale = ieee_dadd(ieee_dabs(a), ieee_dabs(b));
    if ieee_dis_zero(scale) {
        RotgPlan::Done(Givens { c: ONE_D, s: 0, r: 0 })
    } else {
        let ta = ieee_ddiv(a, scale);
        let tb = ieee_ddiv(b, scale);
        RotgPlan::Root { scale, sumsq: ieee_dadd(ieee_dmul(ta, ta), ieee_dmul(tb, tb)) }
    }
}

/// Completes the rotation that maps (a, b) to (r, 0) from the square
/// root of the planned `sumsq`.
pub fn drotg_finish(a: u64, b: u64, scale: u64, root: u64) -> (g: Givens)
    ensures
        g == drotg_finish_spec(a, b, scale, root),
{
    let roe = if ieee_dlt(ieee_dabs(b), ieee_dabs(a)) {
        a
    } else {
        b
    };
    let r0 = ieee_dmul(scale, root);
    let r = if ieee_dlt(roe, 0) {
        ieee_dneg(r0)
    } else {
        r0
    };
    Givens { c: ieee_ddiv(a, r), s: ieee_ddiv(b, r), r }
}

} // verus!
