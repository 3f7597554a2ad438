//! Single-precision complex numbers as pairs of binary32 bit patterns,
//! with the canonical complex operations.

use crate::ieee::{
    sabs, sadd, sdiv, sis_zero, slt, smul, sneg, ssub, ieee_sabs, ieee_sadd, ieee_sdiv, ieee_sis_zero,
    ieee_slt, ieee_smul, ieee_sneg, ieee_ssub, ONE_S,
};
use vstd::prelude::*;

verus! {

/// A complex binary32 number: the bit patterns of its real and
/// imaginary parts.
///
/// `==` compares the bit patterns, not the floating-point values: `+0`
/// and `-0` differ and a NaN equals itself. The floating-point tests
/// against zero and one are `is_zero` and `is_one`.
#[derive(Clone, Copy, Debug, PartialEq, Eq, Structural)]
pub struct C32 {
    pub re: u32,
    pub im: u32,
}

/// `0 + 0i` (both parts positive zero).
pub open spec fn czero() -> C32 {
    C32 { re: 0, im: 0 }
}

/// Componentwise sum.
pub open spec fn cadd(a: C32, b: C32) -> C32 {
    C32 { re: sadd(a.re, b.re), im: sadd(a.im, b.im) }
}

/// Canonical complex product:
/// `(a.re*b.re - a.im*b.im) + (a.re*b.im + a.im*b.re)i`.
pub open spec fn cmul(a: C32, b: C32) -> C32 {
    C32 {
        re: ssub(smul(a.re, b.re), smul(a.im, b.im)),
        im: sadd(smul(a.re, b.im), smul(a.im, b.re)),
    }
}

/// Real scaling: both parts multiplied by the binary32 `s`.
pub open spec fn crscale(a: C32, s: u32) -> C32 {
    C32 { re: smul(a.re, s), im: smul(a.im, s) }
}

/// Negation: both parts negated.
pub open spec fn cneg(a: C32) -> C32 {
    C32 { re: sneg(a.re), im: sneg(a.im) }
}

/// Complex quotient `n / d` by Smith's algorithm: the ratio of the
/// smaller to the larger part of `d` scales the numerator, so no
/// intermediate squares `d`.
pub open spec fn cdiv(n: C32, d: C32) -> C32 {
    if !slt(sabs(d.re), sabs(d.im)) {
        let r = sdiv(d.im, d.re);
        let den = sadd(d.re, smul(d.im, r));
        C32 { re: sdiv(sadd(n.re, smul(n.im, r)), den), im: sdiv(ssub(n.im, smul(n.re, r)), den) }
    } else {
        let r = sdiv(d.re, d.im);
        let den = sadd(smul(d.re, r), d.im);
        C32 { re: sdiv(sadd(smul(n.re, r), n.im), den), im: sdiv(ssub(smul(n.im, r), n.re), den) }
    }
}

/// Complex conjugate: the imaginary part negated.
pub open spec fn cconj(a: C32) -> C32 {
    C32 { re: a.re, im: sneg(a.im) }
}

/// The BLAS complex magnitude `|re| + |im|`.
pub open spec fn cabs1(a: C32) -> u32 {
    sadd(sabs(a.re), sabs(a.im))
}

/// `a == 0 + 0i` in floating-point equality.
pub open spec fn cis_zero(a: C32) -> bool {
    sis_zero(a.re) && sis_zero(a.im)
}

/// `a == 1 + 0i` in floating-point equality.
pub open spec fn cis_one(a: C32) -> bool {
    a.re == ONE_S && sis_zero(a.im)
}

/// The 2n-real view of a complex vector: real and imaginary parts
/// interleaved.
pub open spec fn cre_view(x: Seq<C32>) -> Seq<u32> {
    Seq::new(2 * x.len(), |e: int| if e % 2 == 0 { x[e / 2].re } else { x[e / 2].im })
}

/// The 2n-real view of `x` (real and imaginary parts interleaved), as a
/// new vector.
pub fn as_re(x: &[C32]) -> (r: Vec<u32>)
    ensures
        r@ == cre_view(x@),
{
    let mut v: Vec<u32> = Vec::new();
    let mut i: usize = 0;
    while i < x.len()
        invariant
            i <= x@.len(),
            v@.len() == 2 * i,
            forall|e: int| 0 <= e < 2 * i ==> #[trigger] v@[e] == cre_view(x@)[e],
        decreases x@.len() - i,
    {
        v.push(x[i].re);
        v.push(x[i].im);
        i += 1;
    }
    assert(v@ =~= cre_view(x@));
    v
}

impl C32 {
    /// The number with the given part bit patterns.
    pub fn new(re: u32, im: u32) -> (r: C32)
        ensures
            r.re == re,
            r.im == im,
    {
        C32 { re, im }
    }

    /// `0 + 0i` (both parts positive zero).
    pub fn zero() -> (r: C32)
        ensures
            r == czero(),
    {
        C32 { re: 0, im: 0 }
    }

    /// `self + b`.
    pub fn plus(self, b: C32) -> (r: C32)
        ensures
            r == cadd(self, b),
    {
        C32 { re: ieee_sadd(self.re, b.re), im: ieee_sadd(self.im, b.im) }
    }

    /// `self * b`, canonical product order.
    pub fn times(self, b: C32) -> (r: C32)
        ensures
            r == cmul(self, b),
    {
        let rr = ieee_smul(self.re, b.re);
        let ii = ieee_smul(self.im, b.im);
        let ri = ieee_smul(self.re, b.im);
        let ir = ieee_smul(self.im, b.re);
        C32 { re: ieee_ssub(rr, ii), im: ieee_sadd(ri, ir) }
    }

    /// `self` scaled by the real `s` (one product per part).
    pub fn scale(self, s: u32) -> (r: C32)
        ensures
            r == crscale(self, s),
    {
        C32 { re: ieee_smul(self.re, s), im: ieee_smul(self.im, s) }
    }

    /// `|re| + |im|`.
    pub fn abs1(self) -> (r: u32)
        ensures
            r == cabs1(self),
    {
        ieee_sadd(ieee_sabs(self.re), ieee_sabs(self.im))
    }

    /// `-self`.
    pub fn neg(self) -> (r: C32)
        ensures
            r == cneg(self),
    {
        C32 { re: ieee_sneg(self.re), im: ieee_sneg(self.im) }
    }

    /// `self / d` by Smith's algorithm.
    pub fn quot(self, d: C32) -> (r: C32)
        ensures
            r == cdiv(self, d),
    {
        if !ieee_slt(ieee_sabs(d.re), ieee_sabs(d.im)) {
            let r = ieee_sdiv(d.im, d.re);
            let den = ieee_sadd(d.re, ieee_smul(d.im, r));
            C32 {
                re: ieee_sdiv(ieee_sadd(self.re, ieee_smul(self.im, r)), den),
                im: ieee_sdiv(ieee_ssub(self.im, ieee_smul(self.re, r)), den),
            }
        } else {
            let r = ieee_sdiv(d.re, d.im);
            let den = ieee_sadd(ieee_smul(d.re, r), d.im);
            C32 {
                re: ieee_sdiv(ieee_sadd(ieee_smul(self.re, r), self.im), den),
                im: ieee_sdiv(ieee_ssub(ieee_smul(self.im, r), self.re), den),
            }
        }
    }

    /// The conjugate of `self`.
    pub fn conj(self) -> (r: C32)
        ensures
            r == cconj(self),
    {
        C32 { re: self.re, im: ieee_sneg(self.im) }
    }

    /// `self == 0` in floating-point equality (either zero sign).
    pub fn is_zero(self) -> (r: bool)
        ensures
            r == cis_zero(self),
    {
        ieee_sis_zero(self.re) && ieee_sis_zero(self.im)
    }

    /// `self == 1` in floating-point equality.
    pub fn is_one(self) -> (r: bool)
        ensures
            r == cis_one(self),
    {
        self.re == ONE_S && ieee_sis_zero(self.im)
    }
}

} // verus!
