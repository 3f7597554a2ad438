//! `ddot` — dot product xᵀy = Σ xᵢ·yᵢ, the values given as binary64
//! bit patterns.
//!
//! Eight accumulators (four registers of two lanes), accumulator `k`
//! summing the products at positions `k`, `k + 8`, ...; folded as
//! `((L0 + L2) + (L4 + L6)) + ((L1 + L3) + (L5 + L7))`, then the
//! remaining products added one at a time.

use crate::ieee::{dadd, ieee_dadd, ieee_dmul, dmul};
use vstd::prelude::*;

verus! {

/// Accumulator `k` (of 8) after `m` blocks of 8 elements.
pub open spec fn ddot_lane(x: Seq<u64>, y: Seq<u64>, k: int, m: nat) -> u64
    decreases m,
{
    if m == 0 {
        0
    } else {
        dadd(ddot_lane(x, y, k, (m - 1) as nat), dmul(x[8 * (m - 1) + k], y[8 * (m - 1) + k]))
    }
}

/// `s` with the products of elements `lo..hi` added in ascending order.
pub open spec fn ddot_tail(x: Seq<u64>, y: Seq<u64>, s: u64, lo: int, hi: int) -> u64
    decreases hi - lo,
{
    if hi <= lo {
        s
    } else {
        dadd(ddot_tail(x, y, s, lo, hi - 1), dmul(x[hi - 1], y[hi - 1]))
    }
}

/// The value of the reduction over `x` and `y` (same length).
pub open spec fn ddot_spec(x: Seq<u64>, y: Seq<u64>) -> u64 {
    let m = x.len() / 8;
    let f0 = dadd(dadd(ddot_lane(x, y, 0, m), ddot_lane(x, y, 2, m)), dadd(ddot_lane(x, y, 4, m), ddot_lane(x, y, 6, m)));
    let f1 = dadd(dadd(ddot_lane(x, y, 1, m), ddot_lane(x, y, 3, m)), dadd(ddot_lane(x, y, 5, m), ddot_lane(x, y, 7, m)));
    ddot_tail(x, y, dadd(f0, f1), (8 * m) as int, x.len() as int)
}

/// The reduction over `x[xo..xo+len]` and `y[yo..yo+len]`.
pub(crate) fn ddot_at(x: &[u64], xo: usize, y: &[u64], yo: usize, len: usize) -> (r: u64)
    requires
        xo + len <= x.len(),
        yo + len <= y.len(),
    ensures
        r == ddot_spec(x@.subrange(xo as int, xo + len), y@.subrange(yo as int, yo + len)),
{
    let ghost xs = x@.subrange(xo as int, xo + len);
    let ghost ys = y@.subrange(yo as int, yo + len);
    let mut a0: u64 = 0;
    let mut a1: u64 = 0;
    let mut a2: u64 = 0;
    let mut a3: u64 = 0;
    let mut a4: u64 = 0;
    let mut a5: u64 = 0;
    let mut a6: u64 = 0;
    let mut a7: u64 = 0;
    let mut i: usize = 0;
    let ghost mut m: nat = 0;
    while len - i >= 8
        invariant
            i <= len,
            i == 8 * m,
            xo + len <= x.len(),
            yo + len <= y.len(),
            xs == x@.subrange(xo as int, xo + len),
            ys == y@.subrange(yo as int, yo + len),
            a0 == ddot_lane(xs, ys, 0, m),
            a1 == ddot_lane(xs, ys, 1, m),
            a2 == ddot_lane(xs, ys, 2, m),
            a3 == ddot_lane(xs, ys, 3, m),
            a4 == ddot_lane(xs, ys, 4, m),
            a5 == ddot_lane(xs, ys, 5, m),
            a6 == ddot_lane(xs, ys, 6, m),
            a7 == ddot_lane(xs, ys, 7, m),
        decreases len - i,
    {
        a0 = ieee_dadd(a0, ieee_dmul(x[xo + i], y[yo + i]));
        a1 = ieee_dadd(a1, ieee_dmul(x[xo + i + 1], y[yo + i + 1]));
        a2 = ieee_dadd(a2, ieee_dmul(x[xo + i + 2], y[yo + i + 2]));
        a3 = ieee_dadd(a3, ieee_dmul(x[xo + i + 3], y[yo + i + 3]));
        a4 = ieee_dadd(a4, ieee_dmul(x[xo + i + 4], y[yo + i + 4]));
        a5 = ieee_dadd(a5, ieee_dmul(x[xo + i + 5], y[yo + i + 5]));
        a6 = ieee_dadd(a6, ieee_dmul(x[xo + i + 6], y[yo + i + 6]));
        a7 = ieee_dadd(a7, ieee_dmul(x[xo + i + 7], y[yo + i + 7]));
        proof {
            m = m + 1;
        }
        i += 8;
    }
    let f0 = ieee_dadd(ieee_dadd(a0, a2), ieee_dadd(a4, a6));
    let f1 = ieee_dadd(ieee_dadd(a1, a3), ieee_dadd(a5, a7));
    let mut s = ieee_dadd(f0, f1);
    let ghost f = s;
    assert(m == len / 8);
    while i < len
        invariant
            8 * m <= i <= len,
            m == len / 8,
            xo + len <= x.len(),
            yo + len <= y.len(),
            xs == x@.subrange(xo as int, xo + len),
            ys == y@.subrange(yo as int, yo + len),
            s == ddot_tail(xs, ys, f, (8 * m) as int, i as int),
        decreases len - i,
    {
        s = ieee_dadd(s, ieee_dmul(x[xo + i], y[yo + i]));
        i += 1;
    }
    s
}

/// Returns xᵀy, accumulated as `ddot_spec` orders it. The two slices must
/// have the same length.
pub fn ddot(x: &[u64], y: &[u64]) -> (r: u64)
    requires
        x@.len() == y@.len(),
    ensures
        r == ddot_spec(x@, y@),
{
    let r = ddot_at(x, 0, y, 0, x.len());
    assert(x@.subrange(0, x@.len() as int) =~= x@);
    assert(y@.subrange(0, y@.len() as int) =~= y@);
    r
}

} // verus!
