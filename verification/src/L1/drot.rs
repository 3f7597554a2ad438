//! `drot` — apply a plane rotation to two vectors of binary64 bit
//! patterns: (xᵢ, yᵢ) ← (c·xᵢ + s·yᵢ, c·yᵢ − s·xᵢ).

use crate::ieee::{dadd, dmul, dsub, ieee_dadd, ieee_dmul, ieee_dsub};
use vstd::prelude::*;

verus! {

/// The new `x` element: `c·x + s·y`.
pub open spec fn drot_x(x: u64, y: u64, c: u64, s: u64) -> u64 {
    dadd(dmul(c, x), dmul(s, y))
}

/// The new `y` element: `c·y − s·x`.
pub open spec fn drot_y(x: u64, y: u64, c: u64, s: u64) -> u64 {
    dsub(dmul(c, y), dmul(s, x))
}

/// Both new elements from the old pair.
pub fn drot_pair(x: u64, y: u64, c: u64, s: u64) -> (r: (u64, u64))
    ensures
        r.0 == drot_x(x, y, c, s),
        r.1 == drot_y(x, y, c, s),
{
    (ieee_dadd(ieee_dmul(c, x), ieee_dmul(s, y)), ieee_dsub(ieee_dmul(c, y), ieee_dmul(s, x)))
}

/// Apply the rotation with cosine `c` and sine `s`. The two slices must
/// have the same length.
pub fn drot(x: &mut [u64], y: &mut [u64], c: u64, s: u64)
    requires
        old(x)@.len() == old(y)@.len(),
    ensures
        final(x)@ == Seq::new(old(x)@.len(), |i: int| drot_x(old(x)@[i], old(y)@[i], c, s)),
        final(y)@ == Seq::new(old(x)@.len(), |i: int| drot_y(old(x)@[i], old(y)@[i], c, s)),
{
    let ghost x0 = x@;
    let ghost y0 = y@;
    let len = x.len();
    let mut i: usize = 0;
    while i < len
        invariant
            i <= len,
            len == x0.len(),
            x0.len() == y0.len(),
            x@.len() == len,
            y@.len() == len,
            forall|k: int|
                0 <= k < len ==> #[trigger] x@[k] == if k < i {
                    drot_x(x0[k], y0[k], c, s)
                } else {
                    x0[k]
                },
            forall|k: int|
                0 <= k < len ==> #[trigger] y@[k] == if k < i {
                    drot_y(x0[k], y0[k], c, s)
                } else {
                    y0[k]
                },
        decreases len - i,
    {
        let (u, v) = drot_pair(x[i], y[i], c, s);
        x[i] = u;
        y[i] = v;
        i += 1;
    }
    assert(x@ =~= Seq::new(x0.len(), |i: int| drot_x(x0[i], y0[i], c, s)));
    assert(y@ =~= Seq::new(x0.len(), |i: int| drot_y(x0[i], y0[i], c, s)));
}

} // verus!
