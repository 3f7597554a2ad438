//! `crotg` — generate a complex plane rotation: given (a, b), find
//! (c real, s complex, r complex) with c·a + s·b = r and
//! −conj(s)·a + c·b = 0, c² + |s|² = 1.
//!
//! The guarded arithmetic around the moduli |a|, |b| and the one square
//! root: `crotg_plan` either settles the rotation (a = 0: c = 0, s = 1,
//! r = b) or asks for the square root of `(|a|/scale)² + (|b|/scale)²`,
//! `scale = |a| + |b|`; `crotg_finish` takes that root, forms
//! norm = scale·root and the phase α = a/|a|, and returns c = |a|/norm,
//! s = α·conj(b)/norm, r = α·norm.

use crate::c32::{cconj, cmul, C32};
use crate::ieee::{sadd, sdiv, sis_zero, smul, ieee_sadd, ieee_sdiv, ieee_sis_zero, ieee_smul, ONE_S};
use vstd::prelude::*;

verus! {

/// A generated complex plane rotation: real cosine, complex sine and the
/// resulting complex radius.
#[derive(Clone, Copy, Debug, PartialEq, Eq, Structural)]
pub struct CGivens {
    pub c: u32,
    pub s: C32,
    pub r: C32,
}

/// What `crotg_plan` found: the rotation itself, or the square root it
/// needs.
#[derive(Clone, Copy, Debug, PartialEq, Eq, Structural)]
pub enum CRotgPlan {
    /// `a` is zero: b is rotated straight into r.
    Done(CGivens),
    /// The square root of `sumsq` is needed; `scale = |a| + |b|`.
    Root { scale: u32, sumsq: u32 },
}

/// The plan for (a, b), given the moduli `aabs` = |a| and `babs` = |b|.
pub open spec fn crotg_plan_spec(b: C32, aabs: u32, babs: u32) -> CRotgPlan {
    if sis_zero(aabs) {
        CRotgPlan::Done(CGivens { c: 0, s: C32 { re: ONE_S, im: 0 }, r: b })
    } else {
        let scale = sadd(aabs, babs);
        let ta = sdiv(aabs, scale);
        let tb = sdiv(babs, scale);
        CRotgPlan::Root { scale, sumsq: sadd(smul(ta, ta), smul(tb, tb)) }
    }
}

/// The rotation for (a, b) given |a| and the square root `root` of the
/// planned `sumsq`.
pub open spec fn crotg_finish_spec(a: C32, b: C32, aabs: u32, scale: u32, root: u32) -> CGivens {
    let norm = smul(scale, root);
    let alpha = C32 { re: sdiv(a.re, aabs), im: sdiv(a.im, aabs) };
    let sb = cmul(alpha, cconj(b));
    CGivens {
        c: sdiv(aabs, norm),
        s: C32 { re: sdiv(sb.re, norm), im: sdiv(sb.im, norm) },
        r: C32 { re: smul(alpha.re, norm), im: smul(alpha.im, norm) },
    }
}

/// Plans the rotation that maps (a, b) to (r, 0), given |a| and |b|.
pub fn crotg_plan(b: C32, aabs: u32, babs: u32) -> (p: CRotgPlan)
    ensures
        p == crotg_plan_spec(b, aabs, babs),
{
    if ieee_sis_zero(aabs) {
        CRotgPlan::Done(CGivens { c: 0, s: C32::new(ONE_S, 0), r: b })
    } else {
        let scale = ieee_sadd(aabs, babs);
        let ta = ieee_sdiv(aabs, scale);
        let tb = ieee_sdiv(babs, scale);
        CRotgPlan::Root { scale, sumsq: ieee_sadd(ieee_smul(ta, ta), ieee_smul(tb, tb)) }
    }
}

/// Completes the rotation that maps (a, b) to (r, 0) from |a| and the
/// square root of the planned `sumsq`.
pub fn crotg_finish(a: C32, b: C32, aabs: u32, scale: u32, root: u32) -> (g: CGivens)
    ensures
        g == crotg_finish_spec(a, b, aabs, scale, root),
{
    let norm = ieee_smul(scale, root);
    let alpha = C32::new(ieee_sdiv(a.re, aabs), ieee_sdiv(a.im, aabs));
    let sb = alpha.times(b.conj());
    CGivens {
        c: ieee_sdiv(aabs, norm),
        s: C32::new(ieee_sdiv(sb.re, norm), ieee_sdiv(sb.im, norm)),
        r: C32::new(ieee_smul(alpha.re, norm), ieee_smul(alpha.im, norm)),
    }
}

} // verus!
