//! `zdscal` — real scalar × complex vector, in place: x ← αx, α real;
//! each component gets exactly one multiply rounding.

use crate::c64::{zre_view, zrscale, C64};
use crate::ieee::dmul;
use vstd::prelude::*;

verus! {

/// x ← αx with real α (a binary64 bit pattern): both parts of every
/// element multiplied by α.
pub fn zdscal(alpha: u64, x: &mut [C64])
    ensures
        final(x)@ == Seq::new(old(x)@.len(), |i: int| zrscale(old(x)@[i], alpha)),
{
    let ghost x0 = x@;
    let len = x.len();
    let mut i: usize = 0;
    while i < len
        invariant
            i <= len,
            len == x0.len(),
            x@.len() == len,
            forall|k: int|
                0 <= k < len ==> #[trigger] x@[k] == if k < i {
                    zrscale(x0[k], alpha)
                } else {
                    x0[k]
                },
        decreases len - i,
    {
        let v = x[i].scale(alpha);
        x[i] = v;
        i += 1;
    }
    assert(x@ =~= Seq::new(x0.len(), |i: int| zrscale(x0[i], alpha)));
}


/// A real scaling of a complex vector is the real scaling of its
/// 2n-real view: one product per part.
pub proof fn lemma_zdscal_is_dscal_on_view(x: Seq<C64>, alpha: u64)
    ensures
        zre_view(Seq::new(x.len(), |i: int| zrscale(x[i], alpha))) == Seq::new(
            2 * x.len(),
            |e: int| dmul(zre_view(x)[e], alpha),
        ),
{
    assert(zre_view(Seq::new(x.len(), |i: int| zrscale(x[i], alpha))) =~= Seq::new(
        2 * x.len(),
        |e: int| dmul(zre_view(x)[e], alpha),
    ));
}

} // verus!
