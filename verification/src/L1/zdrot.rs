//! `zdrot` — apply a real plane rotation to complex vectors:
//! (xᵢ, yᵢ) ← (c·xᵢ + s·yᵢ, c·yᵢ − s·xᵢ), c and s real. A real rotation
//! acts on the real and imaginary parts independently, exactly as
//! `drot` on the 2n-real views.

use super::drot::{drot_pair, drot_x, drot_y};
use crate::c64::{zre_view, C64};
use vstd::prelude::*;

verus! {

/// The new `x` element: both parts rotated with the same parts of `y`.
pub open spec fn zdrot_x(x: C64, y: C64, c: u64, s: u64) -> C64 {
    C64 { re: drot_x(x.re, y.re, c, s), im: drot_x(x.im, y.im, c, s) }
}

/// The new `y` element.
pub open spec fn zdrot_y(x: C64, y: C64, c: u64, s: u64) -> C64 {
    C64 { re: drot_y(x.re, y.re, c, s), im: drot_y(x.im, y.im, c, s) }
}

/// Apply the rotation with real cosine `c` and real sine `s`. The two
/// slices must have the same length.
pub fn zdrot(x: &mut [C64], y: &mut [C64], c: u64, s: u64)
    requires
        old(x)@.len() == old(y)@.len(),
    ensures
        final(x)@ == Seq::new(old(x)@.len(), |i: int| zdrot_x(old(x)@[i], old(y)@[i], c, s)),
        final(y)@ == Seq::new(old(x)@.len(), |i: int| zdrot_y(old(x)@[i], old(y)@[i], c, s)),
{
    let ghost x0 = x@;
    let ghost y0 = y@;
    let len = x.len();
    let mut i: usize = 0;
    while i < len
        invariant
            i <= len,
            len == x0.len(),
            x0.len() == y0.len(),
            x@.len() == len,
            y@.len() == len,
            forall|k: int|
                0 <= k < len ==> #[trigger] x@[k] == if k < i {
                    zdrot_x(x0[k], y0[k], c, s)
                } else {
                    x0[k]
                },
            forall|k: int|
                0 <= k < len ==> #[trigger] y@[k] == if k < i {
                    zdrot_y(x0[k], y0[k], c, s)
                } else {
                    y0[k]
                },
        decreases len - i,
    {
        let xi = x[i];
        let yi = y[i];
        let (ur, vr) = drot_pair(xi.re, yi.re, c, s);
        let (ui, vi) = drot_pair(xi.im, yi.im, c, s);
        x[i] = C64::new(ur, ui);
        y[i] = C64::new(vr, vi);
        i += 1;
    }
    assert(x@ =~= Seq::new(x0.len(), |i: int| zdrot_x(x0[i], y0[i], c, s)));
    assert(y@ =~= Seq::new(x0.len(), |i: int| zdrot_y(x0[i], y0[i], c, s)));
}


/// A real rotation of complex vectors is the real rotation of their
/// 2n-real views: the parts are rotated independently.
pub proof fn lemma_zdrot_is_drot_on_views(x: Seq<C64>, y: Seq<C64>, c: u64, s: u64)
    requires
        x.len() == y.len(),
    ensures
        zre_view(Seq::new(x.len(), |i: int| zdrot_x(x[i], y[i], c, s))) == Seq::new(
            2 * x.len(),
            |e: int| drot_x(zre_view(x)[e], zre_view(y)[e], c, s),
        ),
        zre_view(Seq::new(x.len(), |i: int| zdrot_y(x[i], y[i], c, s))) == Seq::new(
            2 * x.len(),
            |e: int| drot_y(zre_view(x)[e], zre_view(y)[e], c, s),
        ),
{
    assert(zre_view(Seq::new(x.len(), |i: int| zdrot_x(x[i], y[i], c, s))) =~= Seq::new(
        2 * x.len(),
        |e: int| drot_x(zre_view(x)[e], zre_view(y)[e], c, s),
    ));
    assert(zre_view(Seq::new(x.len(), |i: int| zdrot_y(x[i], y[i], c, s))) =~= Seq::new(
        2 * x.len(),
        |e: int| drot_y(zre_view(x)[e], zre_view(y)[e], c, s),
    ));
}

} // verus!
