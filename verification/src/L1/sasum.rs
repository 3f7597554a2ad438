//! `sasum` — sum of absolute values (ℓ¹ norm): Σ|xᵢ|, the values given as
//! binary32 bit patterns.
//!
//! Sixteen accumulators (four registers of four lanes), accumulator `k`
//! summing every sixteenth element from `k` on; lane `h` of the folded
//! register is `(L[h] + L[4+h]) + (L[8+h] + L[12+h])` and the lanes are
//! folded as `(lane0 + lane1) + (lane2 + lane3)`; then the remaining
//! elements are added one at a time.

use crate::ieee::{sabs, sadd, ieee_sabs, ieee_sadd};
use vstd::prelude::*;

verus! {

/// Accumulator `k` (of 16) after `m` blocks of 16 elements: the sum of
/// `|x[k]|`, `|x[k + 16]|`, ... starting from +0.
pub open spec fn sasum_lane(x: Seq<u32>, k: int, m: nat) -> u32
    decreases m,
{
    if m == 0 {
        0
    } else {
        sadd(sasum_lane(x, k, (m - 1) as nat), sabs(x[16 * (m - 1) + k]))
    }
}

/// `s` with `|x[i]|` added for `i` in `lo..hi`, in ascending order.
pub open spec fn sasum_tail(x: Seq<u32>, s: u32, lo: int, hi: int) -> u32
    decreases hi - lo,
{
    if hi <= lo {
        s
    } else {
        sadd(sasum_tail(x, s, lo, hi - 1), sabs(x[hi - 1]))
    }
}

/// The value `sasum` returns for `x`.
pub open spec fn sasum_spec(x: Seq<u32>) -> u32 {
    let m = x.len() / 16;
    let f0 = sadd(sadd(sasum_lane(x, 0, m), sasum_lane(x, 4, m)), sadd(sasum_lane(x, 8, m), sasum_lane(x, 12, m)));
    let f1 = sadd(sadd(sasum_lane(x, 1, m), sasum_lane(x, 5, m)), sadd(sasum_lane(x, 9, m), sasum_lane(x, 13, m)));
    let f2 = sadd(sadd(sasum_lane(x, 2, m), sasum_lane(x, 6, m)), sadd(sasum_lane(x, 10, m), sasum_lane(x, 14, m)));
    let f3 = sadd(sadd(sasum_lane(x, 3, m), sasum_lane(x, 7, m)), sadd(sasum_lane(x, 11, m), sasum_lane(x, 15, m)));
    sasum_tail(x, sadd(sadd(f0, f1), sadd(f2, f3)), (16 * m) as int, x.len() as int)
}

/// Returns Σ|xᵢ|, accumulated as `sasum_spec` orders it.
pub fn sasum(x: &[u32]) -> (r: u32)
    ensures
        r == sasum_spec(x@),
{
    let len = x.len();
    let mut a0: u32 = 0;
    let mut a1: u32 = 0;
    let mut a2: u32 = 0;
    let mut a3: u32 = 0;
    let mut a4: u32 = 0;
    let mut a5: u32 = 0;
    let mut a6: u32 = 0;
    let mut a7: u32 = 0;
    let mut a8: u32 = 0;
    let mut a9: u32 = 0;
    let mut a10: u32 = 0;
    let mut a11: u32 = 0;
    let mut a12: u32 = 0;
    let mut a13: u32 = 0;
    let mut a14: u32 = 0;
    let mut a15: u32 = 0;
    let mut i: usize = 0;
    let ghost mut m: nat = 0;
    while len - i >= 16
        invariant
            i <= len,
            len == x@.len(),
            i == 16 * m,
            a0 == sasum_lane(x@, 0, m),
            a1 == sasum_lane(x@, 1, m),
            a2 == sasum_lane(x@, 2, m),
            a3 == sasum_lane(x@, 3, m),
            a4 == sasum_lane(x@, 4, m),
            a5 == sasum_lane(x@, 5, m),
            a6 == sasum_lane(x@, 6, m),
            a7 == sasum_lane(x@, 7, m),
            a8 == sasum_lane(x@, 8, m),
            a9 == sasum_lane(x@, 9, m),
            a10 == sasum_lane(x@, 10, m),
            a11 == sasum_lane(x@, 11, m),
            a12 == sasum_lane(x@, 12, m),
            a13 == sasum_lane(x@, 13, m),
            a14 == sasum_lane(x@, 14, m),
            a15 == sasum_lane(x@, 15, m),
        decreases len - i,
    {
        a0 = ieee_sadd(a0, ieee_sabs(x[i]));
        a1 = ieee_sadd(a1, ieee_sabs(x[i + 1]));
        a2 = ieee_sadd(a2, ieee_sabs(x[i + 2]));
        a3 = ieee_sadd(a3, ieee_sabs(x[i + 3]));
        a4 = ieee_sadd(a4, ieee_sabs(x[i + 4]));
        a5 = ieee_sadd(a5, ieee_sabs(x[i + 5]));
        a6 = ieee_sadd(a6, ieee_sabs(x[i + 6]));
        a7 = ieee_sadd(a7, ieee_sabs(x[i + 7]));
        a8 = ieee_sadd(a8, ieee_sabs(x[i + 8]));
        a9 = ieee_sadd(a9, ieee_sabs(x[i + 9]));
        a10 = ieee_sadd(a10, ieee_sabs(x[i + 10]));
        a11 = ieee_sadd(a11, ieee_sabs(x[i + 11]));
        a12 = ieee_sadd(a12, ieee_sabs(x[i + 12]));
        a13 = ieee_sadd(a13, ieee_sabs(x[i + 13]));
        a14 = ieee_sadd(a14, ieee_sabs(x[i + 14]));
        a15 = ieee_sadd(a15, ieee_sabs(x[i + 15]));
        proof {
            m = m + 1;
        }
        i += 16;
    }
    let f0 = ieee_sadd(ieee_sadd(a0, a4), ieee_sadd(a8, a12));
    let f1 = ieee_sadd(ieee_sadd(a1, a5), ieee_sadd(a9, a13));
    let f2 = ieee_sadd(ieee_sadd(a2, a6), ieee_sadd(a10, a14));
    let f3 = ieee_sadd(ieee_sadd(a3, a7), ieee_sadd(a11, a15));
    let mut s = ieee_sadd(ieee_sadd(f0, f1), ieee_sadd(f2, f3));
    let ghost f = s;
    assert(m == len / 16);
    while i < len
        invariant
            16 * m <= i <= len,
            len == x@.len(),
            m == len / 16,
            s == sasum_tail(x@, f, (16 * m) as int, i as int),
        decreases len - i,
    {
        s = ieee_sadd(s, ieee_sabs(x[i]));
        i += 1;
    }
    s
}

} // verus!
