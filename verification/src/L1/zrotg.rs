//! `zrotg` — generate a complex plane rotation: given (a, b), find
//! (c real, s complex, r complex) with c·a + s·b = r and
//! −conj(s)·a + c·b = 0, c² + |s|² = 1.
//!
//! The guarded arithmetic around the moduli |a|, |b| and the one square
//! root: `zrotg_plan` either settles the rotation (a = 0: c = 0, s = 1,
//! r = b) or asks for the square root of `(|a|/scale)² + (|b|/scale)²`,
//! `scale = |a| + |b|`; `zrotg_finish` takes that root, forms
//! norm = scale·root and the phase α = a/|a|, and returns c = |a|/norm,
//! s = α·conj(b)/norm, r = α·norm.

use crate::c64::{zconj, zmul, C64};
use crate::ieee::{dadd, ddiv, dis_zero, dmul, ieee_dadd, ieee_ddiv, ieee_dis_zero, ieee_dmul, ONE_D};
use vstd::prelude::*;

verus! {

/// A generated complex plane rotation: real cosine, complex sine and the
/// resulting complex radius.
#[derive(Clone, Copy, Debug, PartialEq, Eq, Structural)]
pub struct ZGivens {
    pub c: u64,
    pub s: C64,
    pub r: C64,
}

/// What `zrotg_plan` found: the rotation itself, or the square root it
/// needs.
#[derive(Clone, Copy, Debug, PartialEq, Eq, Structural)]
pub enum ZRotgPlan {
    /// `a` is zero: b is rotated straight into r.
    Done(ZGivens),
    /// The square root of `sumsq` is needed; `scale = |a| + |b|`.
    Root { scale: u64, sumsq: u64 },
}

/// The plan for (a, b), given the moduli `aabs` = |a| and `babs` = |b|.
pub open spec fn zrotg_plan_spec(b: C64, aabs: u64, babs: u64) -> ZRotgPlan {
    if dis_zero(aabs) {
        ZRotgPlan::Done(ZGivens { c: 0, s: C64 { re: ONE_D, im: 0 }, r: b })
    } else {
        let scale = dadd(aabs, babs);
        let ta = ddiv(aabs, scale);
        let tb = ddiv(babs, scale);
        ZRotgPlan::Root { scale, sumsq: dadd(dmul(ta, ta), dmul(tb, tb)) }
    }
}

/// The rotation for (a, b) given |a| and the square root `root` of the
/// planned `sumsq`.
pub open spec fn zrotg_finish_spec(a: C64, b: C64, aabs: u64, scale: u64, root: u64) -> ZGivens {
    let norm = dmul(scale, root);
    let alpha = C64 { re: ddiv(a.re, aabs), im: ddiv(a.im, aabs) };
    let sb = zmul(alpha, zconj(b));
    ZGivens {
        c: ddiv(aabs, norm),
        s: C64 { re: ddiv(sb.re, norm), im: ddiv(sb.im, norm) },
        r: C64 { re: dmul(alpha.re, norm), im: dmul(alpha.im, norm) },
    }
}

/// Plans the rotation that maps (a, b) to (r, 0), given |a| and |b|.
pub fn zrotg_plan(b: C64, aabs: u64, babs: u64) -> (p: ZRotgPlan)
    ensures
        p == zrotg_plan_spec(b, aabs, babs),
{
    if ieee_dis_zero(aabs) {
        ZRotgPlan::Done(ZGivens { c: 0, s: C64::new(ONE_D, 0), r: b })
    } else {
        let scale = ieee_dadd(aabs, babs);
        let ta = ieee_ddiv(aabs, scale);
        let tb = ieee_ddiv(babs, scale);
        ZRotgPlan::Root { scale, sumsq: ieee_dadd(ieee_dmul(ta, ta), ieee_dmul(tb, tb)) }
    }
}

/// Completes the rotation that maps (a, b) to (r, 0) from |a| and the
/// square root of the planned `sumsq`.
pub fn zrotg_finish(a: C64, b: C64, aabs: u64, scale: u64, root: u64) -> (g: ZGivens)
    ensures
        g == zrotg_finish_spec(a, b, aabs, scale, root),
{
    let norm = ieee_dmul(scale, root);
    let alpha = C64::new(ieee_ddiv(a.re, aabs), ieee_ddiv(a.im, aabs));
    let sb = alpha.times(b.conj());
    ZGivens {
        c: ieee_ddiv(aabs, norm),
        s: C64::new(ieee_ddiv(sb.re, norm), ieee_ddiv(sb.im, norm)),
        r: C64::new(ieee_dmul(alpha.re, norm), ieee_dmul(alpha.im, norm)),
    }
}

} // verus!
