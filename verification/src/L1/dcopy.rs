//! `dcopy` — vector copy: y ← x, binary64 bit patterns. Bits move
//! unchanged.

use vstd::prelude::*;

verus! {

/// Copies `len` elements of `x` starting at `xo` into `y` starting at `yo`;
/// every other element of `y` is kept.
pub(crate) fn dcopy_at(x: &[u64], xo: usize, y: &mut [u64], yo: usize, len: usize)
    requires
        xo + len <= x.len(),
        yo + len <= old(y)@.len(),
    ensures
        final(y)@.len() == old(y)@.len(),
        forall|k: int|
            0 <= k < old(y)@.len() ==> #[trigger] final(y)@[k] == if yo <= k < yo + len {
                x@[xo + (k - yo)]
            } else {
                old(y)@[k]
            },
{
    let ghost y0 = y@;
    let mut i: usize = 0;
    while i < len
        invariant
            i <= len,
            xo + len <= x.len(),
            yo + len <= y.len(),
            y.len() == y0.len(),
            y@.len() == y0.len(),
            forall|k: int|
                0 <= k < y0.len() ==> #[trigger] y@[k] == if yo <= k < yo + i {
                    x@[xo + (k - yo)]
                } else {
                    y0[k]
                },
        decreases len - i,
    {
        y[yo + i] = x[xo + i];
        i += 1;
    }
}

/// y ← x. The two slices must have the same length.
pub fn dcopy(x: &[u64], y: &mut [u64])
    requires
        x@.len() == old(y)@.len(),
    ensures
        final(y)@ == x@,
{
    dcopy_at(x, 0, y, 0, x.len());
    assert(y@ =~= x@);
}

} // verus!
