//! `dscal` — scalar × vector, in place: x ← αx, the values given as
//! binary64 bit patterns; one multiply rounding per element.

use crate::ieee::{dmul, ieee_dmul};
use vstd::prelude::*;

verus! {

/// x ← αx: every element becomes `x[i]·α`.
pub fn dscal(alpha: u64, x: &mut [u64])
    ensures
        final(x)@ == Seq::new(old(x)@.len(), |i: int| dmul(old(x)@[i], alpha)),
{
    let ghost x0 = x@;
    let len = x.len();
    let mut i: usize = 0;
    while i < len
        invariant
            i <= len,
            len == x0.len(),
            x@.len() == len,
            forall|k: int|
                0 <= k < len ==> #[trigger] x@[k] == if k < i {
                    dmul(x0[k], alpha)
                } else {
                    x0[k]
                },
        decreases len - i,
    {
        let v = ieee_dmul(x[i], alpha);
        x[i] = v;
        i += 1;
    }
    assert(x@ =~= Seq::new(x0.len(), |i: int| dmul(x0[i], alpha)));
}

} // verus!
