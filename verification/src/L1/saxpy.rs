//! `saxpy` — scaled vector addition: y ← αx + y, the values given as
//! binary32 bit patterns. Every element is `y[i] + x[i]·α`: one multiply
//! rounding, one add rounding.

use crate::ieee::{sadd, smul, ieee_sadd, ieee_smul};
use vstd::prelude::*;

verus! {

/// `y` after `len` elements starting at `yo` received `x[xo + (k - yo)]·α`.
pub open spec fn saxpy_range(alpha: u32, x: Seq<u32>, xo: int, y: Seq<u32>, yo: int, len: int) -> Seq<
    u32,
> {
    Seq::new(
        y.len(),
        |k: int|
            if yo <= k < yo + len {
                sadd(y[k], smul(x[xo + (k - yo)], alpha))
            } else {
                y[k]
            },
    )
}

/// y[yo..yo+len] ← α·x[xo..xo+len] + y[yo..yo+len]; the rest of `y` is kept.
pub(crate) fn saxpy_at(alpha: u32, x: &[u32], xo: usize, y: &mut [u32], yo: usize, len: usize)
    requires
        xo + len <= x.len(),
        yo + len <= old(y)@.len(),
    ensures
        final(y)@ == saxpy_range(alpha, x@, xo as int, old(y)@, yo as int, len as int),
{
    let ghost y0 = y@;
    let mut i: usize = 0;
    while i < len
        invariant
            i <= len,
            xo + len <= x.len(),
            yo + len <= y.len(),
            y.len() == y0.len(),
            y@.len() == y0.len(),
            forall|k: int|
                0 <= k < y0.len() ==> #[trigger] y@[k] == if yo <= k < yo + i {
                    sadd(y0[k], smul(x@[xo + (k - yo)], alpha))
                } else {
                    y0[k]
                },
        decreases len - i,
    {
        let v = ieee_sadd(y[yo + i], ieee_smul(x[xo + i], alpha));
        y[yo + i] = v;
        i += 1;
    }
    assert(y@ =~= saxpy_range(alpha, x@, xo as int, y0, yo as int, len as int));
}

/// y ← αx + y. The two slices must have the same length.
pub fn saxpy(alpha: u32, x: &[u32], y: &mut [u32])
    requires
        x@.len() == old(y)@.len(),
    ensures
        final(y)@ == Seq::new(x@.len(), |i: int| sadd(old(y)@[i], smul(x@[i], alpha))),
{
    saxpy_at(alpha, x, 0, y, 0, x.len());
    assert(y@ =~= Seq::new(x@.len(), |i: int| sadd(old(y)@[i], smul(x@[i], alpha))));
}

} // verus!
