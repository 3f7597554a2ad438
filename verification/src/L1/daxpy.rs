//! `daxpy` — scaled vector addition: y ← αx + y, the values given as
//! binary64 bit patterns. Every element is `y[i] + x[i]·α`: one multiply
//! rounding, one add rounding.

use crate::ieee::{dadd, dmul, ieee_dadd, ieee_dmul};
use vstd::prelude::*;

verus! {

/// `y` after `len` elements starting at `yo` received `x[xo + (k - yo)]·α`.
pub open spec fn daxpy_range(alpha: u64, x: Seq<u64>, xo: int, y: Seq<u64>, yo: int, len: int) -> Seq<
    u64,
> {
    Seq::new(
        y.len(),
        |k: int|
            if yo <= k < yo + len {
                dadd(y[k], dmul(x[xo + (k - yo)], alpha))
            } else {
                y[k]
            },
    )
}

/// y[yo..yo+len] ← α·x[xo..xo+len] + y[yo..yo+len]; the rest of `y` is kept.
pub(crate) fn daxpy_at(alpha: u64, x: &[u64], xo: usize, y: &mut [u64], yo: usize, len: usize)
    requires
        xo + len <= x.len(),
        yo + len <= old(y)@.len(),
    ensures
        final(y)@ == daxpy_range(alpha, x@, xo as int, old(y)@, yo as int, len as int),
{
    let ghost y0 = y@;
    let mut i: usize = 0;
    while i < len
        invariant
            i <= len,
            xo + len <= x.len(),
            yo + len <= y.len(),
            y.len() == y0.len(),
            y@.len() == y0.len(),
            forall|k: int|
                0 <= k < y0.len() ==> #[trigger] y@[k] == if yo <= k < yo + i {
                    dadd(y0[k], dmul(x@[xo + (k - yo)], alpha))
                } else {
                    y0[k]
                },
        decreases len - i,
    {
        let v = ieee_dadd(y[yo + i], ieee_dmul(x[xo + i], alpha));
        y[yo + i] = v;
        i += 1;
    }
    assert(y@ =~= daxpy_range(alpha, x@, xo as int, y0, yo as int, len as int));
}

/// y ← αx + y. The two slices must have the same length.
pub fn daxpy(alpha: u64, x: &[u64], y: &mut [u64])
    requires
        x@.len() == old(y)@.len(),
    ensures
        final(y)@ == Seq::new(x@.len(), |i: int| dadd(old(y)@[i], dmul(x@[i], alpha))),
{
    daxpy_at(alpha, x, 0, y, 0, x.len());
    assert(y@ =~= Seq::new(x@.len(), |i: int| dadd(old(y)@[i], dmul(x@[i], alpha))));
}

} // verus!
