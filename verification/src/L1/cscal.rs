//! `cscal` — complex scalar × complex vector, in place: x ← αx.

use crate::c32::{cmul, C32};
use vstd::prelude::*;

verus! {

/// x ← αx, each element the canonical product `α·x[i]`.
pub fn cscal(alpha: C32, x: &mut [C32])
    ensures
        final(x)@ == Seq::new(old(x)@.len(), |i: int| cmul(alpha, old(x)@[i])),
{
    let ghost x0 = x@;
    let len = x.len();
    let mut i: usize = 0;
    while i < len
        invariant
            i <= len,
            len == x0.len(),
            x@.len() == len,
            forall|k: int|
                0 <= k < len ==> #[trigger] x@[k] == if k < i {
                    cmul(alpha, x0[k])
                } else {
                    x0[k]
                },
        decreases len - i,
    {
        let v = alpha.times(x[i]);
        x[i] = v;
        i += 1;
    }
    assert(x@ =~= Seq::new(x0.len(), |i: int| cmul(alpha, x0[i])));
}

} // verus!
