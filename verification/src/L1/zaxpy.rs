//! `zaxpy` — scaled vector addition, complex: y ← αx + y.
//!
//! Every element is `y[i] + α·x[i]` with the canonical complex product.

use crate::c64::{zadd, zmul, C64};
use vstd::prelude::*;

verus! {

/// `y` after `len` elements starting at `yo` received `α·x[xo + (k - yo)]`.
pub open spec fn zaxpy_range(alpha: C64, x: Seq<C64>, xo: int, y: Seq<C64>, yo: int, len: int) -> Seq<
    C64,
> {
    Seq::new(
        y.len(),
        |k: int|
            if yo <= k < yo + len {
                zadd(y[k], zmul(alpha, x[xo + (k - yo)]))
            } else {
                y[k]
            },
    )
}

/// y[yo..yo+len] ← α·x[xo..xo+len] + y[yo..yo+len]; the rest of `y` is kept.
pub(crate) fn zaxpy_at(alpha: C64, x: &[C64], xo: usize, y: &mut [C64], yo: usize, len: usize)
    requires
        xo + len <= x.len(),
        yo + len <= old(y)@.len(),
    ensures
        final(y)@ == zaxpy_range(alpha, x@, xo as int, old(y)@, yo as int, len as int),
{
    let ghost y0 = y@;
    let mut i: usize = 0;
    while i < len
        invariant
            i <= len,
            xo + len <= x.len(),
            yo + len <= y.len(),
            y.len() == y0.len(),
            y@.len() == y0.len(),
            forall|k: int|
                0 <= k < y0.len() ==> #[trigger] y@[k] == if yo <= k < yo + i {
                    zadd(y0[k], zmul(alpha, x@[xo + (k - yo)]))
                } else {
                    y0[k]
                },
        decreases len - i,
    {
        let v = y[yo + i].plus(alpha.times(x[xo + i]));
        y[yo + i] = v;
        i += 1;
    }
    assert(y@ =~= zaxpy_range(alpha, x@, xo as int, y0, yo as int, len as int));
}

/// y ← αx + y. The two slices must have the same length.
pub fn zaxpy(alpha: C64, x: &[C64], y: &mut [C64])
    requires
        x@.len() == old(y)@.len(),
    ensures
        final(y)@ == Seq::new(x@.len(), |i: int| zadd(old(y)@[i], zmul(alpha, x@[i]))),
{
    zaxpy_at(alpha, x, 0, y, 0, x.len());
    assert(y@ =~= Seq::new(x@.len(), |i: int| zadd(old(y)@[i], zmul(alpha, x@[i]))));
}

} // verus!
