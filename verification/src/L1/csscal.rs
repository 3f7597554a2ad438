//! `csscal` — real scalar × complex vector, in place: x ← αx, α real;
//! each component gets exactly one multiply rounding.

use crate::c32::{cre_view, crscale, C32};
use crate::ieee::smul;
use vstd::prelude::*;

verus! {

/// x ← αx with real α (a binary32 bit pattern): both parts of every
/// element multiplied by α.
pub fn csscal(alpha: u32, x: &mut [C32])
    ensures
        final(x)@ == Seq::new(old(x)@.len(), |i: int| crscale(old(x)@[i], alpha)),
{
    let ghost x0 = x@;
    let len = x.len();
    let mut i: usize = 0;
    while i < len
        invariant
            i <= len,
            len == x0.len(),
            x@.len() == len,
            forall|k: int|
                0 <= k < len ==> #[trigger] x@[k] == if k < i {
                    crscale(x0[k], alpha)
                } else {
                    x0[k]
                },
        decreases len - i,
    {
        let v = x[i].scale(alpha);
        x[i] = v;
        i += 1;
    }
    assert(x@ =~= Seq::new(x0.len(), |i: int| crscale(x0[i], alpha)));
}


/// A real scaling of a complex vector is the real scaling of its
/// 2n-real view: one product per part.
pub proof fn lemma_csscal_is_sscal_on_view(x: Seq<C32>, alpha: u32)
    ensures
        cre_view(Seq::new(x.len(), |i: int| crscale(x[i], alpha))) == Seq::new(
            2 * x.len(),
            |e: int| smul(cre_view(x)[e], alpha),
        ),
{
    assert(cre_view(Seq::new(x.len(), |i: int| crscale(x[i], alpha))) =~= Seq::new(
        2 * x.len(),
        |e: int| smul(cre_view(x)[e], alpha),
    ));
}

} // verus!
