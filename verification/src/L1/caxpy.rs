//! `caxpy` — scaled vector addition, complex: y ← αx + y.
//!
//! Every element is `y[i] + α·x[i]` with the canonical complex product.

use crate::c32::{cadd, cmul, C32};
use vstd::prelude::*;

verus! {

/// `y` after `len` elements starting at `yo` received `α·x[xo + (k - yo)]`.
pub open spec fn caxpy_range(alpha: C32, x: Seq<C32>, xo: int, y: Seq<C32>, yo: int, len: int) -> Seq<
    C32,
> {
    Seq::new(
        y.len(),
        |k: int|
            if yo <= k < yo + len {
                cadd(y[k], cmul(alpha, x[xo + (k - yo)]))
            } else {
                y[k]
            },
    )
}

/// y[yo..yo+len] ← α·x[xo..xo+len] + y[yo..yo+len]; the rest of `y` is kept.
pub(crate) fn caxpy_at(alpha: C32, x: &[C32], xo: usize, y: &mut [C32], yo: usize, len: usize)
    requires
        xo + len <= x.len(),
        yo + len <= old(y)@.len(),
    ensures
        final(y)@ == caxpy_range(alpha, x@, xo as int, old(y)@, yo as int, len as int),
{
    let ghost y0 = y@;
    let mut i: usize = 0;
    while i < len
        invariant
            i <= len,
            xo + len <= x.len(),
            yo + len <= y.len(),
            y.len() == y0.len(),
            y@.len() == y0.len(),
            forall|k: int|
                0 <= k < y0.len() ==> #[trigger] y@[k] == if yo <= k < yo + i {
                    cadd(y0[k], cmul(alpha, x@[xo + (k - yo)]))
                } else {
                    y0[k]
                },
        decreases len - i,
    {
        let v = y[yo + i].plus(alpha.times(x[xo + i]));
        y[yo + i] = v;
        i += 1;
    }
    assert(y@ =~= caxpy_range(alpha, x@, xo as int, y0, yo as int, len as int));
}

/// y ← αx + y. The two slices must have the same length.
pub fn caxpy(alpha: C32, x: &[C32], y: &mut [C32])
    requires
        x@.len() == old(y)@.len(),
    ensures
        final(y)@ == Seq::new(x@.len(), |i: int| cadd(old(y)@[i], cmul(alpha, x@[i]))),
{
    caxpy_at(alpha, x, 0, y, 0, x.len());
    assert(y@ =~= Seq::new(x@.len(), |i: int| cadd(old(y)@[i], cmul(alpha, x@[i]))));
}

} // verus!
