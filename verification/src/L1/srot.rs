//! `srot` — apply a plane rotation to two vectors of binary32 bit
//! patterns: (xᵢ, yᵢ) ← (c·xᵢ + s·yᵢ, c·yᵢ − s·xᵢ).

use crate::ieee::{sadd, smul, ssub, ieee_sadd, ieee_smul, ieee_ssub};
use vstd::prelude::*;

verus! {

/// The new `x` element: `c·x + s·y`.
pub open spec fn srot_x(x: u32, y: u32, c: u32, s: u32) -> u32 {
    sadd(smul(c, x), smul(s, y))
}

/// The new `y` element: `c·y − s·x`.
pub open spec fn srot_y(x: u32, y: u32, c: u32, s: u32) -> u32 {
    ssub(smul(c, y), smul(s, x))
}

/// Both new elements from the old pair.
pub fn srot_pair(x: u32, y: u32, c: u32, s: u32) -> (r: (u32, u32))
    ensures
        r.0 == srot_x(x, y, c, s),
        r.1 == srot_y(x, y, c, s),
{
    (ieee_sadd(ieee_smul(c, x), ieee_smul(s, y)), ieee_ssub(ieee_smul(c, y), ieee_smul(s, x)))
}

/// Apply the rotation with cosine `c` and sine `s`. The two slices must
/// have the same length.
pub fn srot(x: &mut [u32], y: &mut [u32], c: u32, s: u32)
    requires
        old(x)@.len() == old(y)@.len(),
    ensures
        final(x)@ == Seq::new(old(x)@.len(), |i: int| srot_x(old(x)@[i], old(y)@[i], c, s)),
        final(y)@ == Seq::new(old(x)@.len(), |i: int| srot_y(old(x)@[i], old(y)@[i], c, s)),
{
    let ghost x0 = x@;
    let ghost y0 = y@;
    let len = x.len();
    let mut i: usize = 0;
    while i < len
        invariant
            i <= len,
            len == x0.len(),
            x0.len() == y0.len(),
            x@.len() == len,
            y@.len() == len,
            forall|k: int|
                0 <= k < len ==> #[trigger] x@[k] == if k < i {
                    srot_x(x0[k], y0[k], c, s)
                } else {
                    x0[k]
                },
            forall|k: int|
                0 <= k < len ==> #[trigger] y@[k] == if k < i {
                    srot_y(x0[k], y0[k], c, s)
                } else {
                    y0[k]
                },
        decreases len - i,
    {
        let (u, v) = srot_pair(x[i], y[i], c, s);
        x[i] = u;
        y[i] = v;
        i += 1;
    }
    assert(x@ =~= Seq::new(x0.len(), |i: int| srot_x(x0[i], y0[i], c, s)));
    assert(y@ =~= Seq::new(x0.len(), |i: int| srot_y(x0[i], y0[i], c, s)));
}

} // verus!
