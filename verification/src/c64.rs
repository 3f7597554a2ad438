//! Double-precision complex numbers as pairs of binary64 bit patterns,
//! with the canonical complex operations.

use crate::ieee::{
    dabs, dadd, ddiv, dis_zero, dlt, dmul, dneg, dsub, ieee_dabs, ieee_dadd, ieee_ddiv, ieee_dis_zero,
    ieee_dlt, ieee_dmul, ieee_dneg, ieee_dsub, ONE_D,
};
use vstd::prelude::*;

verus! {

/// A complex binary64 number: the bit patterns of its real and
/// imaginary parts.
///
/// `==` compares the bit patterns, not the floating-point values: `+0`
/// and `-0` differ and a NaN equals itself. The floating-point tests
/// against zero and one are `is_zero` and `is_one`.
#[derive(Clone, Copy, Debug, PartialEq, Eq, Structural)]
pub struct C64 {
    pub re: u64,
    pub im: u64,
}

/// `0 + 0i` (both parts positive zero).
pub open spec fn zzero() -> C64 {
    C64 { re: 0, im: 0 }
}

/// Componentwise sum.
pub open spec fn zadd(a: C64, b: C64) -> C64 {
    C64 { re: dadd(a.re, b.re), im: dadd(a.im, b.im) }
}

/// Canonical complex product:
/// `(a.re*b.re - a.im*b.im) + (a.re*b.im + a.im*b.re)i`.
pub open spec fn zmul(a: C64, b: C64) -> C64 {
    C64 {
        re: dsub(dmul(a.re, b.re), dmul(a.im, b.im)),
        im: dadd(dmul(a.re, b.im), dmul(a.im, b.re)),
    }
}

/// Real scaling: both parts multiplied by the binary64 `s`.
pub open spec fn zrscale(a: C64, s: u64) -> C64 {
    C64 { re: dmul(a.re, s), im: dmul(a.im, s) }
}

/// Negation: both parts negated.
pub open spec fn zneg(a: C64) -> C64 {
    C64 { re: dneg(a.re), im: dneg(a.im) }
}

/// Complex quotient `n / d` by Smith's algorithm: the ratio of the
/// smaller to the larger part of `d` scales the numerator, so no
/// intermediate squares `d`.
pub open spec fn zdiv(n: C64, d: C64) -> C64 {
    if !dlt(dabs(d.re), dabs(d.im)) {
        let r = ddiv(d.im, d.re);
        let den = dadd(d.re, dmul(d.im, r));
        C64 { re: ddiv(dadd(n.re, dmul(n.im, r)), den), im: ddiv(dsub(n.im, dmul(n.re, r)), den) }
    } else {
        let r = ddiv(d.re, d.im);
        let den = dadd(dmul(d.re, r), d.im);
        C64 { re: ddiv(dadd(dmul(n.re, r), n.im), den), im: ddiv(dsub(dmul(n.im, r), n.re), den) }
    }
}

/// Complex conjugate: the imaginary part negated.
pub open spec fn zconj(a: C64) -> C64 {
    C64 { re: a.re, im: dneg(a.im) }
}

/// The BLAS complex magnitude `|re| + |im|`.
pub open spec fn zabs1(a: C64) -> u64 {
    dadd(dabs(a.re), dabs(a.im))
}

/// `a == 0 + 0i` in floating-point equality.
pub open spec fn zis_zero(a: C64) -> bool {
    dis_zero(a.re) && dis_zero(a.im)
}

/// `a == 1 + 0i` in floating-point equality.
pub open spec fn zis_one(a: C64) -> bool {
    a.re == ONE_D && dis_zero(a.im)
}

/// The 2n-real view of a complex vector: real and imaginary parts
/// interleaved.
pub open spec fn zre_view(x: Seq<C64>) -> Seq<u64> {
    Seq::new(2 * x.len(), |e: int| if e % 2 == 0 { x[e / 2].re } else { x[e / 2].im })
}

/// The 2n-real view of `x` (real and imaginary parts interleaved), as a
/// new vector.
pub fn as_re(x: &[C64]) -> (r: Vec<u64>)
    ensures
        r@ == zre_view(x@),
{
    let mut v: Vec<u64> = Vec::new();
    let mut i: usize = 0;
    while i < x.len()
        invariant
            i <= x@.len(),
            v@.len() == 2 * i,
            forall|e: int| 0 <= e < 2 * i ==> #[trigger] v@[e] == zre_view(x@)[e],
        decreases x@.len() - i,
    {
        v.push(x[i].re);
        v.push(x[i].im);
        i += 1;
    }
    assert(v@ =~= zre_view(x@));
    v
}

impl C64 {
    /// The number with the given part bit patterns.
    pub fn new(re: u64, im: u64) -> (r: C64)
        ensures
            r.re == re,
            r.im == im,
    {
        C64 { re, im }
    }

    /// `0 + 0i` (both parts positive zero).
    pub fn zero() -> (r: C64)
        ensures
            r == zzero(),
    {
        C64 { re: 0, im: 0 }
    }

    /// `self + b`.
    pub fn plus(self, b: C64) -> (r: C64)
        ensures
            r == zadd(self, b),
    {
        C64 { re: ieee_dadd(self.re, b.re), im: ieee_dadd(self.im, b.im) }
    }

    /// `self * b`, canonical product order.
    pub fn times(self, b: C64) -> (r: C64)
        ensures
            r == zmul(self, b),
    {
        let rr = ieee_dmul(self.re, b.re);
        let ii = ieee_dmul(self.im, b.im);
        let ri = ieee_dmul(self.re, b.im);
        let ir = ieee_dmul(self.im, b.re);
        C64 { re: ieee_dsub(rr, ii), im: ieee_dadd(ri, ir) }
    }

    /// `self` scaled by the real `s` (one product per part).
    pub fn scale(self, s: u64) -> (r: C64)
        ensures
            r == zrscale(self, s),
    {
        C64 { re: ieee_dmul(self.re, s), im: ieee_dmul(self.im, s) }
    }

    /// `|re| + |im|`.
    pub fn abs1(self) -> (r: u64)
        ensures
            r == zabs1(self),
    {
        ieee_dadd(ieee_dabs(self.re), ieee_dabs(self.im))
    }

    /// `-self`.
    pub fn neg(self) -> (r: C64)
        ensures
            r == zneg(self),
    {
        C64 { re: ieee_dneg(self.re), im: ieee_dneg(self.im) }
    }

    /// `self / d` by Smith's algorithm.
    pub fn quot(self, d: C64) -> (r: C64)
        ensures
            r == zdiv(self, d),
    {
        if !ieee_dlt(ieee_dabs(d.re), ieee_dabs(d.im)) {
            let r = ieee_ddiv(d.im, d.re);
            let den = ieee_dadd(d.re, ieee_dmul(d.im, r));
            C64 {
                re: ieee_ddiv(ieee_dadd(self.re, ieee_dmul(self.im, r)), den),
                im: ieee_ddiv(ieee_dsub(self.im, ieee_dmul(self.re, r)), den),
            }
        } else {
            let r = ieee_ddiv(d.re, d.im);
            let den = ieee_dadd(ieee_dmul(d.re, r), d.im);
            C64 {
                re: ieee_ddiv(ieee_dadd(ieee_dmul(self.re, r), self.im), den),
                im: ieee_ddiv(ieee_dsub(ieee_dmul(self.im, r), self.re), den),
            }
        }
    }

    /// The conjugate of `self`.
    pub fn conj(self) -> (r: C64)
        ensures
            r == zconj(self),
    {
        C64 { re: self.re, im: ieee_dneg(self.im) }
    }

    /// `self == 0` in floating-point equality (either zero sign).
    pub fn is_zero(self) -> (r: bool)
        ensures
            r == zis_zero(self),
    {
        ieee_dis_zero(self.re) && ieee_dis_zero(self.im)
    }

    /// `self == 1` in floating-point equality.
    pub fn is_one(self) -> (r: bool)
        ensures
            r == zis_one(self),
    {
        self.re == ONE_D && ieee_dis_zero(self.im)
    }
}

} // verus!
