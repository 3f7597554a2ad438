//! `dasum` — sum of absolute values (ℓ¹ norm): Σ|xᵢ|, the values given as
//! binary64 bit patterns.
//!
//! Eight accumulators (four registers of two lanes), accumulator `k`
//! summing every eighth element from `k` on; folded as
//! `((L0 + L2) + (L4 + L6)) + ((L1 + L3) + (L5 + L7))`, then the
//! remaining elements added one at a time.

use crate::ieee::{dabs, dadd, ieee_dabs, ieee_dadd};
use vstd::prelude::*;

verus! {

/// Accumulator `k` (of 8) after `m` blocks of 8 elements: the sum of
/// `|x[k]|`, `|x[k + 8]|`, ... starting from +0.
pub open spec fn dasum_lane(x: Seq<u64>, k: int, m: nat) -> u64
    decreases m,
{
    if m == 0 {
        0
    } else {
        dadd(dasum_lane(x, k, (m - 1) as nat), dabs(x[8 * (m - 1) + k]))
    }
}

/// `s` with `|x[i]|` added for `i` in `lo..hi`, in ascending order.
pub open spec fn dasum_tail(x: Seq<u64>, s: u64, lo: int, hi: int) -> u64
    decreases hi - lo,
{
    if hi <= lo {
        s
    } else {
        dadd(dasum_tail(x, s, lo, hi - 1), dabs(x[hi - 1]))
    }
}

/// The value `dasum` returns for `x`.
pub open spec fn dasum_spec(x: Seq<u64>) -> u64 {
    let m = x.len() / 8;
    let f0 = dadd(dadd(dasum_lane(x, 0, m), dasum_lane(x, 2, m)), dadd(dasum_lane(x, 4, m), dasum_lane(x, 6, m)));
    let f1 = dadd(dadd(dasum_lane(x, 1, m), dasum_lane(x, 3, m)), dadd(dasum_lane(x, 5, m), dasum_lane(x, 7, m)));
    dasum_tail(x, dadd(f0, f1), (8 * m) as int, x.len() as int)
}

/// Returns Σ|xᵢ|, accumulated as `dasum_spec` orders it.
pub fn dasum(x: &[u64]) -> (r: u64)
    ensures
        r == dasum_spec(x@),
{
    let len = x.len();
    let mut a0: u64 = 0;
    let mut a1: u64 = 0;
    let mut a2: u64 = 0;
    let mut a3: u64 = 0;
    let mut a4: u64 = 0;
    let mut a5: u64 = 0;
    let mut a6: u64 = 0;
    let mut a7: u64 = 0;
    let mut i: usize = 0;
    let ghost mut m: nat = 0;
    while len - i >= 8
        invariant
            i <= len,
            len == x@.len(),
            i == 8 * m,
            a0 == dasum_lane(x@, 0, m),
            a1 == dasum_lane(x@, 1, m),
            a2 == dasum_lane(x@, 2, m),
            a3 == dasum_lane(x@, 3, m),
            a4 == dasum_lane(x@, 4, m),
            a5 == dasum_lane(x@, 5, m),
            a6 == dasum_lane(x@, 6, m),
            a7 == dasum_lane(x@, 7, m),
        decreases len - i,
    {
        a0 = ieee_dadd(a0, ieee_dabs(x[i]));
        a1 = ieee_dadd(a1, ieee_dabs(x[i + 1]));
        a2 = ieee_dadd(a2, ieee_dabs(x[i + 2]));
        a3 = ieee_dadd(a3, ieee_dabs(x[i + 3]));
        a4 = ieee_dadd(a4, ieee_dabs(x[i + 4]));
        a5 = ieee_dadd(a5, ieee_dabs(x[i + 5]));
        a6 = ieee_dadd(a6, ieee_dabs(x[i + 6]));
        a7 = ieee_dadd(a7, ieee_dabs(x[i + 7]));
        proof {
            m = m + 1;
        }
        i += 8;
    }
    let f0 = ieee_dadd(ieee_dadd(a0, a2), ieee_dadd(a4, a6));
    let f1 = ieee_dadd(ieee_dadd(a1, a3), ieee_dadd(a5, a7));
    let mut s = ieee_dadd(f0, f1);
    let ghost f = s;
    assert(m == len / 8);
    while i < len
        invariant
            8 * m <= i <= len,
            len == x@.len(),
            m == len / 8,
            s == dasum_tail(x@, f, (8 * m) as int, i as int),
        decreases len - i,
    {
        s = ieee_dadd(s, ieee_dabs(x[i]));
        i += 1;
    }
    s
}

} // verus!
