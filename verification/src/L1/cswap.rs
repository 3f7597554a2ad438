//! `cswap` — exchange two complex vectors. Bits move unchanged.

use crate::c32::C32;
use vstd::prelude::*;

verus! {

/// x ↔ y. The two slices must have the same length.
pub fn cswap(x: &mut [C32], y: &mut [C32])
    requires
        old(x)@.len() == old(y)@.len(),
    ensures
        final(x)@ == old(y)@,
        final(y)@ == old(x)@,
{
    let ghost x0 = x@;
    let ghost y0 = y@;
    let len = x.len();
    let mut i: usize = 0;
    while i < len
        invariant
            i <= len,
            len == x0.len(),
            x0.len() == y0.len(),
            x@.len() == len,
            y@.len() == len,
            forall|k: int| 0 <= k < len ==> #[trigger] x@[k] == if k < i { y0[k] } else { x0[k] },
            forall|k: int| 0 <= k < len ==> #[trigger] y@[k] == if k < i { x0[k] } else { y0[k] },
        decreases len - i,
    {
        let t = x[i];
        x[i] = y[i];
        y[i] = t;
        i += 1;
    }
    assert(x@ =~= y0);
    assert(y@ =~= x0);
}

} // verus!
