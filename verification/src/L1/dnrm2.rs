//! `dnrm2` — Euclidean length √(Σxᵢ²) of a binary64 vector, safe against
//! overflow and underflow, in two passes. The first pass sums the squares
//! in the accumulator layout of `dasum`. That sum
//! is kept (with scale 1) when it is finite and not below the smallest
//! normal value; otherwise a rescue pass takes the largest magnitude as
//! the scale and sums the squares of the elements divided by it. The
//! length is `scale · √ssq`: the square root is taken by the caller
//! between `dnrm2_ssq` and `dnrm2_finish`.

use crate::ieee::{
    dabs, dadd, ddiv, dis_zero, dlt, dmul, ieee_dabs, ieee_dadd, ieee_ddiv, ieee_dis_zero, ieee_dlt,
    ieee_dmul, INF_D, ONE_D,
};
use vstd::prelude::*;

verus! {

/// Bit pattern of the smallest positive normal binary64 value.
pub const MIN_NORMAL_D: u64 = 0x0010_0000_0000_0000u64;

/// Accumulator `k` (of 8) after `m` blocks of 8 elements: the sum of
/// `x[k]²`, `x[k + 8]²`, ... starting from +0.
pub open spec fn dnrm2_lane(x: Seq<u64>, k: int, m: nat) -> u64
    decreases m,
{
    if m == 0 {
        0
    } else {
        dadd(dnrm2_lane(x, k, (m - 1) as nat), dmul(x[8 * (m - 1) + k], x[8 * (m - 1) + k]))
    }
}

/// `s` with `x[i]²` added for `i` in `lo..hi`, in ascending order.
pub open spec fn dnrm2_tail(x: Seq<u64>, s: u64, lo: int, hi: int) -> u64
    decreases hi - lo,
{
    if hi <= lo {
        s
    } else {
        dadd(dnrm2_tail(x, s, lo, hi - 1), dmul(x[hi - 1], x[hi - 1]))
    }
}

/// The plain sum of squares, accumulated in the `dasum` layout.
pub open spec fn dnrm2_sumsq_spec(x: Seq<u64>) -> u64 {
    let m = x.len() / 8;
    let f0 = dadd(dadd(dnrm2_lane(x, 0, m), dnrm2_lane(x, 2, m)), dadd(dnrm2_lane(x, 4, m), dnrm2_lane(x, 6, m)));
    let f1 = dadd(dadd(dnrm2_lane(x, 1, m), dnrm2_lane(x, 3, m)), dadd(dnrm2_lane(x, 5, m), dnrm2_lane(x, 7, m)));
    dnrm2_tail(x, dadd(f0, f1), (8 * m) as int, x.len() as int)
}

/// Returns Σxᵢ², accumulated as `dnrm2_sumsq_spec` orders it.
pub(crate) fn dnrm2_sumsq(x: &[u64]) -> (r: u64)
    ensures
        r == dnrm2_sumsq_spec(x@),
{
    let len = x.len();
    let mut a0: u64 = 0;
    let mut a1: u64 = 0;
    let mut a2: u64 = 0;
    let mut a3: u64 = 0;
    let mut a4: u64 = 0;
    let mut a5: u64 = 0;
    let mut a6: u64 = 0;
    let mut a7: u64 = 0;
    let mut i: usize = 0;
    let ghost mut m: nat = 0;
    while len - i >= 8
        invariant
            i <= len,
            len == x@.len(),
            i == 8 * m,
            a0 == dnrm2_lane(x@, 0, m),
            a1 == dnrm2_lane(x@, 1, m),
            a2 == dnrm2_lane(x@, 2, m),
            a3 == dnrm2_lane(x@, 3, m),
            a4 == dnrm2_lane(x@, 4, m),
            a5 == dnrm2_lane(x@, 5, m),
            a6 == dnrm2_lane(x@, 6, m),
            a7 == dnrm2_lane(x@, 7, m),
        decreases len - i,
    {
        a0 = ieee_dadd(a0, ieee_dmul(x[i], x[i]));
        a1 = ieee_dadd(a1, ieee_dmul(x[i + 1], x[i + 1]));
        a2 = ieee_dadd(a2, ieee_dmul(x[i + 2], x[i + 2]));
        a3 = ieee_dadd(a3, ieee_dmul(x[i + 3], x[i + 3]));
        a4 = ieee_dadd(a4, ieee_dmul(x[i + 4], x[i + 4]));
        a5 = ieee_dadd(a5, ieee_dmul(x[i + 5], x[i + 5]));
        a6 = ieee_dadd(a6, ieee_dmul(x[i + 6], x[i + 6]));
        a7 = ieee_dadd(a7, ieee_dmul(x[i + 7], x[i + 7]));
        proof {
            m = m + 1;
        }
        i += 8;
    }
    let f0 = ieee_dadd(ieee_dadd(a0, a2), ieee_dadd(a4, a6));
    let f1 = ieee_dadd(ieee_dadd(a1, a3), ieee_dadd(a5, a7));
    let mut s = ieee_dadd(f0, f1);
    let ghost f = s;
    assert(m == len / 8);
    while i < len
        invariant
            8 * m <= i <= len,
            len == x@.len(),
            m == len / 8,
            s == dnrm2_tail(x@, f, (8 * m) as int, i as int),
        decreases len - i,
    {
        s = ieee_dadd(s, ieee_dmul(x[i], x[i]));
        i += 1;
    }
    s
}

/// The plain sum of squares is kept: it is finite and not below the
/// smallest normal value (so neither overflow nor underflow spoiled it).
pub open spec fn dnrm2_plain_ok(s: u64) -> bool {
    !dlt(s, MIN_NORMAL_D) && dlt(s, INF_D)
}

/// The largest magnitude among the first `n` elements, starting from +0:
/// a magnitude replaces the kept one when the kept one is below it.
pub open spec fn dnrm2_max(x: Seq<u64>, n: nat) -> u64
    decreases n,
{
    if n == 0 {
        0
    } else {
        let m = dnrm2_max(x, (n - 1) as nat);
        if dlt(m, dabs(x[n - 1])) {
            dabs(x[n - 1])
        } else {
            m
        }
    }
}

/// `Σ (|xᵢ| / scale)²` over the first `n` elements, added in ascending
/// order starting from +0.
pub open spec fn dnrm2_scaled(x: Seq<u64>, scale: u64, n: nat) -> u64
    decreases n,
{
    if n == 0 {
        0
    } else {
        let q = ddiv(dabs(x[n - 1]), scale);
        dadd(dnrm2_scaled(x, scale, (n - 1) as nat), dmul(q, q))
    }
}

/// The scale and sum of squares of `x`, whose `scale · √ssq` is the
/// length: the plain sum with scale 1 when it is kept; otherwise the
/// largest magnitude as scale with the sum of the scaled squares, or
/// with sum 1 when that magnitude is zero or infinite.
pub open spec fn dnrm2_spec(x: Seq<u64>) -> (u64, u64) {
    let s = dnrm2_sumsq_spec(x);
    if dnrm2_plain_ok(s) {
        (ONE_D, s)
    } else {
        let m = dnrm2_max(x, x.len());
        if dis_zero(m) || !dlt(m, INF_D) {
            (m, ONE_D)
        } else {
            (m, dnrm2_scaled(x, m, x.len()))
        }
    }
}

/// The scale and the sum of squares of `x`, as `dnrm2_spec` gives them.
pub fn dnrm2_ssq(x: &[u64]) -> (r: (u64, u64))
    ensures
        r == dnrm2_spec(x@),
{
    let s = dnrm2_sumsq(x);
    if !ieee_dlt(s, MIN_NORMAL_D) && ieee_dlt(s, INF_D) {
        return (ONE_D, s);
    }
    let len = x.len();
    let mut m: u64 = 0;
    let mut i: usize = 0;
    while i < len
        invariant
            i <= len,
            len == x@.len(),
            m == dnrm2_max(x@, i as nat),
        decreases len - i,
    {
        let a = ieee_dabs(x[i]);
        if ieee_dlt(m, a) {
            m = a;
        }
        i += 1;
    }
    if ieee_dis_zero(m) || !ieee_dlt(m, INF_D) {
        return (m, ONE_D);
    }
    let mut t: u64 = 0;
    let mut k: usize = 0;
    while k < len
        invariant
            k <= len,
            len == x@.len(),
            m == dnrm2_max(x@, len as nat),
            t == dnrm2_scaled(x@, m, k as nat),
        decreases len - k,
    {
        let q = ieee_ddiv(ieee_dabs(x[k]), m);
        t = ieee_dadd(t, ieee_dmul(q, q));
        k += 1;
    }
    (m, t)
}

/// The Euclidean length `scale · root` from the scale and the square
/// root of the sum of squares.
pub fn dnrm2_finish(scale: u64, root: u64) -> (r: u64)
    ensures
        r == dmul(scale, root),
{
    ieee_dmul(scale, root)
}

} // verus!
