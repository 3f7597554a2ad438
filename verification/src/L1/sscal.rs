//! `sscal` — scalar × vector, in place: x ← αx, the values given as
//! binary32 bit patterns; one multiply rounding per element.

use crate::ieee::{smul, ieee_smul};
use vstd::prelude::*;

verus! {

/// x ← αx: every element becomes `x[i]·α`.
pub fn sscal(alpha: u32, x: &mut [u32])
    ensures
        final(x)@ == Seq::new(old(x)@.len(), |i: int| smul(old(x)@[i], alpha)),
{
    let ghost x0 = x@;
    let len = x.len();
    let mut i: usize = 0;
    while i < len
        invariant
            i <= len,
            len == x0.len(),
            x@.len() == len,
            forall|k: int|
                0 <= k < len ==> #[trigger] x@[k] == if k < i {
                    smul(x0[k], alpha)
                } else {
                    x0[k]
                },
        decreases len - i,
    {
        let v = ieee_smul(x[i], alpha);
        x[i] = v;
        i += 1;
    }
    assert(x@ =~= Seq::new(x0.len(), |i: int| smul(x0[i], alpha)));
}

} // verus!
