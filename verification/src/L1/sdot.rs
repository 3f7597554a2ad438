//! `sdot` — dot product xᵀy = Σ xᵢ·yᵢ, the values given as binary32
//! bit patterns.
//!
//! Sixteen accumulators (four registers of four lanes), accumulator
//! `k` summing the products at positions `k`, `k + 16`, ...; lane `h` of
//! the folded register is `(L[h] + L[4+h]) + (L[8+h] + L[12+h])` and the
//! lanes are folded as `(lane0 + lane1) + (lane2 + lane3)`; then the
//! remaining products are added one at a time.

use crate::ieee::{sadd, ieee_sadd, ieee_smul, smul};
use vstd::prelude::*;

verus! {

/// Accumulator `k` (of 16) after `m` blocks of 16 elements.
pub open spec fn sdot_lane(x: Seq<u32>, y: Seq<u32>, k: int, m: nat) -> u32
    decreases m,
{
    if m == 0 {
        0
    } else {
        sadd(sdot_lane(x, y, k, (m - 1) as nat), smul(x[16 * (m - 1) + k], y[16 * (m - 1) + k]))
    }
}

/// `s` with the products of elements `lo..hi` added in ascending order.
pub open spec fn sdot_tail(x: Seq<u32>, y: Seq<u32>, s: u32, lo: int, hi: int) -> u32
    decreases hi - lo,
{
    if hi <= lo {
        s
    } else {
        sadd(sdot_tail(x, y, s, lo, hi - 1), smul(x[hi - 1], y[hi - 1]))
    }
}

/// The value of the reduction over `x` and `y` (same length).
pub open spec fn sdot_spec(x: Seq<u32>, y: Seq<u32>) -> u32 {
    let m = x.len() / 16;
    let f0 = sadd(sadd(sdot_lane(x, y, 0, m), sdot_lane(x, y, 4, m)), sadd(sdot_lane(x, y, 8, m), sdot_lane(x, y, 12, m)));
    let f1 = sadd(sadd(sdot_lane(x, y, 1, m), sdot_lane(x, y, 5, m)), sadd(sdot_lane(x, y, 9, m), sdot_lane(x, y, 13, m)));
    let f2 = sadd(sadd(sdot_lane(x, y, 2, m), sdot_lane(x, y, 6, m)), sadd(sdot_lane(x, y, 10, m), sdot_lane(x, y, 14, m)));
    let f3 = sadd(sadd(sdot_lane(x, y, 3, m), sdot_lane(x, y, 7, m)), sadd(sdot_lane(x, y, 11, m), sdot_lane(x, y, 15, m)));
    sdot_tail(x, y, sadd(sadd(f0, f1), sadd(f2, f3)), (16 * m) as int, x.len() as int)
}

/// The reduction over `x[xo..xo+len]` and `y[yo..yo+len]`.
pub(crate) fn sdot_at(x: &[u32], xo: usize, y: &[u32], yo: usize, len: usize) -> (r: u32)
    requires
        xo + len <= x.len(),
        yo + len <= y.len(),
    ensures
        r == sdot_spec(x@.subrange(xo as int, xo + len), y@.subrange(yo as int, yo + len)),
{
    let ghost xs = x@.subrange(xo as int, xo + len);
    let ghost ys = y@.subrange(yo as int, yo + len);
    let mut a0: u32 = 0;
    let mut a1: u32 = 0;
    let mut a2: u32 = 0;
    let mut a3: u32 = 0;
    let mut a4: u32 = 0;
    let mut a5: u32 = 0;
    let mut a6: u32 = 0;
    let mut a7: u32 = 0;
    let mut a8: u32 = 0;
    let mut a9: u32 = 0;
    let mut a10: u32 = 0;
    let mut a11: u32 = 0;
    let mut a12: u32 = 0;
    let mut a13: u32 = 0;
    let mut a14: u32 = 0;
    let mut a15: u32 = 0;
    let mut i: usize = 0;
    let ghost mut m: nat = 0;
    while len - i >= 16
        invariant
            i <= len,
            i == 16 * m,
            xo + len <= x.len(),
            yo + len <= y.len(),
            xs == x@.subrange(xo as int, xo + len),
            ys == y@.subrange(yo as int, yo + len),
            a0 == sdot_lane(xs, ys, 0, m),
            a1 == sdot_lane(xs, ys, 1, m),
            a2 == sdot_lane(xs, ys, 2, m),
            a3 == sdot_lane(xs, ys, 3, m),
            a4 == sdot_lane(xs, ys, 4, m),
            a5 == sdot_lane(xs, ys, 5, m),
            a6 == sdot_lane(xs, ys, 6, m),
            a7 == sdot_lane(xs, ys, 7, m),
            a8 == sdot_lane(xs, ys, 8, m),
            a9 == sdot_lane(xs, ys, 9, m),
            a10 == sdot_lane(xs, ys, 10, m),
            a11 == sdot_lane(xs, ys, 11, m),
            a12 == sdot_lane(xs, ys, 12, m),
            a13 == sdot_lane(xs, ys, 13, m),
            a14 == sdot_lane(xs, ys, 14, m),
            a15 == sdot_lane(xs, ys, 15, m),
        decreases len - i,
    {
        a0 = ieee_sadd(a0, ieee_smul(x[xo + i], y[yo + i]));
        a1 = ieee_sadd(a1, ieee_smul(x[xo + i + 1], y[yo + i + 1]));
        a2 = ieee_sadd(a2, ieee_smul(x[xo + i + 2], y[yo + i + 2]));
        a3 = ieee_sadd(a3, ieee_smul(x[xo + i + 3], y[yo + i + 3]));
        a4 = ieee_sadd(a4, ieee_smul(x[xo + i + 4], y[yo + i + 4]));
        a5 = ieee_sadd(a5, ieee_smul(x[xo + i + 5], y[yo + i + 5]));
        a6 = ieee_sadd(a6, ieee_smul(x[xo + i + 6], y[yo + i + 6]));
        a7 = ieee_sadd(a7, ieee_smul(x[xo + i + 7], y[yo + i + 7]));
        a8 = ieee_sadd(a8, ieee_smul(x[xo + i + 8], y[yo + i + 8]));
        a9 = ieee_sadd(a9, ieee_smul(x[xo + i + 9], y[yo + i + 9]));
        a10 = ieee_sadd(a10, ieee_smul(x[xo + i + 10], y[yo + i + 10]));
        a11 = ieee_sadd(a11, ieee_smul(x[xo + i + 11], y[yo + i + 11]));
        a12 = ieee_sadd(a12, ieee_smul(x[xo + i + 12], y[yo + i + 12]));
        a13 = ieee_sadd(a13, ieee_smul(x[xo + i + 13], y[yo + i + 13]));
        a14 = ieee_sadd(a14, ieee_smul(x[xo + i + 14], y[yo + i + 14]));
        a15 = ieee_sadd(a15, ieee_smul(x[xo + i + 15], y[yo + i + 15]));
        proof {
            m = m + 1;
        }
        i += 16;
    }
    let f0 = ieee_sadd(ieee_sadd(a0, a4), ieee_sadd(a8, a12));
    let f1 = ieee_sadd(ieee_sadd(a1, a5), ieee_sadd(a9, a13));
    let f2 = ieee_sadd(ieee_sadd(a2, a6), ieee_sadd(a10, a14));
    let f3 = ieee_sadd(ieee_sadd(a3, a7), ieee_sadd(a11, a15));
    let mut s = ieee_sadd(ieee_sadd(f0, f1), ieee_sadd(f2, f3));
    let ghost f = s;
    assert(m == len / 16);
    while i < len
        invariant
            16 * m <= i <= len,
            m == len / 16,
            xo + len <= x.len(),
            yo + len <= y.len(),
            xs == x@.subrange(xo as int, xo + len),
            ys == y@.subrange(yo as int, yo + len),
            s == sdot_tail(xs, ys, f, (16 * m) as int, i as int),
        decreases len - i,
    {
        s = ieee_sadd(s, ieee_smul(x[xo + i], y[yo + i]));
        i += 1;
    }
    s
}

/// Returns xᵀy, accumulated as `sdot_spec` orders it. The two slices must
/// have the same length.
pub fn sdot(x: &[u32], y: &[u32]) -> (r: u32)
    requires
        x@.len() == y@.len(),
    ensures
        r == sdot_spec(x@, y@),
{
    let r = sdot_at(x, 0, y, 0, x.len());
    assert(x@.subrange(0, x@.len() as int) =~= x@);
    assert(y@.subrange(0, y@.len() as int) =~= y@);
    r
}

} // verus!
