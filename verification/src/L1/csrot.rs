//! `csrot` — apply a real plane rotation to complex vectors:
//! (xᵢ, yᵢ) ← (c·xᵢ + s·yᵢ, c·yᵢ − s·xᵢ), c and s real. A real rotation
//! acts on the real and imaginary parts independently, exactly as
//! `srot` on the 2n-real views.

use super::srot::{srot_pair, srot_x, srot_y};
use crate::c32::{cre_view, C32};
use vstd::prelude::*;

verus! {

/// The new `x` element: both parts rotated with the same parts of `y`.
pub open spec fn csrot_x(x: C32, y: C32, c: u32, s: u32) -> C32 {
    C32 { re: srot_x(x.re, y.re, c, s), im: srot_x(x.im, y.im, c, s) }
}

/// The new `y` element.
pub open spec fn csrot_y(x: C32, y: C32, c: u32, s: u32) -> C32 {
    C32 { re: srot_y(x.re, y.re, c, s), im: srot_y(x.im, y.im, c, s) }
}

/// Apply the rotation with real cosine `c` and real sine `s`. The two
/// slices must have the same length.
pub fn csrot(x: &mut [C32], y: &mut [C32], c: u32, s: u32)
    requires
        old(x)@.len() == old(y)@.len(),
    ensures
        final(x)@ == Seq::new(old(x)@.len(), |i: int| csrot_x(old(x)@[i], old(y)@[i], c, s)),
        final(y)@ == Seq::new(old(x)@.len(), |i: int| csrot_y(old(x)@[i], old(y)@[i], c, s)),
{
    let ghost x0 = x@;
    let ghost y0 = y@;
    let len = x.len();
    let mut i: usize = 0;
    while i < len
        invariant
            i <= len,
            len == x0.len(),
            x0.len() == y0.len(),
            x@.len() == len,
            y@.len() == len,
            forall|k: int|
                0 <= k < len ==> #[trigger] x@[k] == if k < i {
                    csrot_x(x0[k], y0[k], c, s)
                } else {
                    x0[k]
                },
            forall|k: int|
                0 <= k < len ==> #[trigger] y@[k] == if k < i {
                    csrot_y(x0[k], y0[k], c, s)
                } else {
                    y0[k]
                },
        decreases len - i,
    {
        let xi = x[i];
        let yi = y[i];
        let (ur, vr) = srot_pair(xi.re, yi.re, c, s);
        let (ui, vi) = srot_pair(xi.im, yi.im, c, s);
        x[i] = C32::new(ur, ui);
        y[i] = C32::new(vr, vi);
        i += 1;
    }
    assert(x@ =~= Seq::new(x0.len(), |i: int| csrot_x(x0[i], y0[i], c, s)));
    assert(y@ =~= Seq::new(x0.len(), |i: int| csrot_y(x0[i], y0[i], c, s)));
}


/// A real rotation of complex vectors is the real rotation of their
/// 2n-real views: the parts are rotated independently.
pub proof fn lemma_csrot_is_srot_on_views(x: Seq<C32>, y: Seq<C32>, c: u32, s: u32)
    requires
        x.len() == y.len(),
    ensures
        cre_view(Seq::new(x.len(), |i: int| csrot_x(x[i], y[i], c, s))) == Seq::new(
            2 * x.len(),
            |e: int| srot_x(cre_view(x)[e], cre_view(y)[e], c, s),
        ),
        cre_view(Seq::new(x.len(), |i: int| csrot_y(x[i], y[i], c, s))) == Seq::new(
            2 * x.len(),
            |e: int| srot_y(cre_view(x)[e], cre_view(y)[e], c, s),
        ),
{
    assert(cre_view(Seq::new(x.len(), |i: int| csrot_x(x[i], y[i], c, s))) =~= Seq::new(
        2 * x.len(),
        |e: int| srot_x(cre_view(x)[e], cre_view(y)[e], c, s),
    ));
    assert(cre_view(Seq::new(x.len(), |i: int| csrot_y(x[i], y[i], c, s))) =~= Seq::new(
        2 * x.len(),
        |e: int| srot_y(cre_view(x)[e], cre_view(y)[e], c, s),
    ));
}

} // verus!
