//! `snrm2` — Euclidean length √(Σxᵢ²) of a binary32 vector, safe against
//! overflow and underflow, in two passes. The first pass sums the squares
//! in the accumulator layout of `sasum`. That sum
//! is kept (with scale 1) when it is finite and not below the smallest
//! normal value; otherwise a rescue pass takes the largest magnitude as
//! the scale and sums the squares of the elements divided by it. The
//! length is `scale · √ssq`: the square root is taken by the caller
//! between `snrm2_ssq` and `snrm2_finish`.

use crate::ieee::{
    sabs, sadd, sdiv, sis_zero, slt, smul, ieee_sabs, ieee_sadd, ieee_sdiv, ieee_sis_zero, ieee_slt,
    ieee_smul, INF_S, ONE_S,
};
use vstd::prelude::*;

verus! {

/// Bit pattern of the smallest positive normal binary32 value.
pub const MIN_NORMAL_S: u32 = 0x0080_0000u32;

/// Accumulator `k` (of 16) after `m` blocks of 16 elements: the sum of
/// `x[k]²`, `x[k + 16]²`, ... starting from +0.
pub open spec fn snrm2_lane(x: Seq<u32>, k: int, m: nat) -> u32
    decreases m,
{
    if m == 0 {
        0
    } else {
        sadd(snrm2_lane(x, k, (m - 1) as nat), smul(x[16 * (m - 1) + k], x[16 * (m - 1) + k]))
    }
}

/// `s` with `x[i]²` added for `i` in `lo..hi`, in ascending order.
pub open spec fn snrm2_tail(x: Seq<u32>, s: u32, lo: int, hi: int) -> u32
    decreases hi - lo,
{
    if hi <= lo {
        s
    } else {
        sadd(snrm2_tail(x, s, lo, hi - 1), smul(x[hi - 1], x[hi - 1]))
    }
}

/// The plain sum of squares, accumulated in the `sasum` layout.
pub open spec fn snrm2_sumsq_spec(x: Seq<u32>) -> u32 {
    let m = x.len() / 16;
    let f0 = sadd(sadd(snrm2_lane(x, 0, m), snrm2_lane(x, 4, m)), sadd(snrm2_lane(x, 8, m), snrm2_lane(x, 12, m)));
    let f1 = sadd(sadd(snrm2_lane(x, 1, m), snrm2_lane(x, 5, m)), sadd(snrm2_lane(x, 9, m), snrm2_lane(x, 13, m)));
    let f2 = sadd(sadd(snrm2_lane(x, 2, m), snrm2_lane(x, 6, m)), sadd(snrm2_lane(x, 10, m), snrm2_lane(x, 14, m)));
    let f3 = sadd(sadd(snrm2_lane(x, 3, m), snrm2_lane(x, 7, m)), sadd(snrm2_lane(x, 11, m), snrm2_lane(x, 15, m)));
    snrm2_tail(x, sadd(sadd(f0, f1), sadd(f2, f3)), (16 * m) as int, x.len() as int)
}

/// Returns Σxᵢ², accumulated as `snrm2_sumsq_spec` orders it.
pub(crate) fn snrm2_sumsq(x: &[u32]) -> (r: u32)
    ensures
        r == snrm2_sumsq_spec(x@),
{
    let len = x.len();
    let mut a0: u32 = 0;
    let mut a1: u32 = 0;
    let mut a2: u32 = 0;
    let mut a3: u32 = 0;
    let mut a4: u32 = 0;
    let mut a5: u32 = 0;
    let mut a6: u32 = 0;
    let mut a7: u32 = 0;
    let mut a8: u32 = 0;
    let mut a9: u32 = 0;
    let mut a10: u32 = 0;
    let mut a11: u32 = 0;
    let mut a12: u32 = 0;
    let mut a13: u32 = 0;
    let mut a14: u32 = 0;
    let mut a15: u32 = 0;
    let mut i: usize = 0;
    let ghost mut m: nat = 0;
    while len - i >= 16
        invariant
            i <= len,
            len == x@.len(),
            i == 16 * m,
            a0 == snrm2_lane(x@, 0, m),
            a1 == snrm2_lane(x@, 1, m),
            a2 == snrm2_lane(x@, 2, m),
            a3 == snrm2_lane(x@, 3, m),
            a4 == snrm2_lane(x@, 4, m),
            a5 == snrm2_lane(x@, 5, m),
            a6 == snrm2_lane(x@, 6, m),
            a7 == snrm2_lane(x@, 7, m),
            a8 == snrm2_lane(x@, 8, m),
            a9 == snrm2_lane(x@, 9, m),
            a10 == snrm2_lane(x@, 10, m),
            a11 == snrm2_lane(x@, 11, m),
            a12 == snrm2_lane(x@, 12, m),
            a13 == snrm2_lane(x@, 13, m),
            a14 == snrm2_lane(x@, 14, m),
            a15 == snrm2_lane(x@, 15, m),
        decreases len - i,
    {
        a0 = ieee_sadd(a0, ieee_smul(x[i], x[i]));
        a1 = ieee_sadd(a1, ieee_smul(x[i + 1], x[i + 1]));
        a2 = ieee_sadd(a2, ieee_smul(x[i + 2], x[i + 2]));
        a3 = ieee_sadd(a3, ieee_smul(x[i + 3], x[i + 3]));
        a4 = ieee_sadd(a4, ieee_smul(x[i + 4], x[i + 4]));
        a5 = ieee_sadd(a5, ieee_smul(x[i + 5], x[i + 5]));
        a6 = ieee_sadd(a6, ieee_smul(x[i + 6], x[i + 6]));
        a7 = ieee_sadd(a7, ieee_smul(x[i + 7], x[i + 7]));
        a8 = ieee_sadd(a8, ieee_smul(x[i + 8], x[i + 8]));
        a9 = ieee_sadd(a9, ieee_smul(x[i + 9], x[i + 9]));
        a10 = ieee_sadd(a10, ieee_smul(x[i + 10], x[i + 10]));
        a11 = ieee_sadd(a11, ieee_smul(x[i + 11], x[i + 11]));
        a12 = ieee_sadd(a12, ieee_smul(x[i + 12], x[i + 12]));
        a13 = ieee_sadd(a13, ieee_smul(x[i + 13], x[i + 13]));
        a14 = ieee_sadd(a14, ieee_smul(x[i + 14], x[i + 14]));
        a15 = ieee_sadd(a15, ieee_smul(x[i + 15], x[i + 15]));
        proof {
            m = m + 1;
        }
        i += 16;
    }
    let f0 = ieee_sadd(ieee_sadd(a0, a4), ieee_sadd(a8, a12));
    let f1 = ieee_sadd(ieee_sadd(a1, a5), ieee_sadd(a9, a13));
    let f2 = ieee_sadd(ieee_sadd(a2, a6), ieee_sadd(a10, a14));
    let f3 = ieee_sadd(ieee_sadd(a3, a7), ieee_sadd(a11, a15));
    let mut s = ieee_sadd(ieee_sadd(f0, f1), ieee_sadd(f2, f3));
    let ghost f = s;
    assert(m == len / 16);
    while i < len
        invariant
            16 * m <= i <= len,
            len == x@.len(),
            m == len / 16,
            s == snrm2_tail(x@, f, (16 * m) as int, i as int),
        decreases len - i,
    {
        s = ieee_sadd(s, ieee_smul(x[i], x[i]));
        i += 1;
    }
    s
}

/// The plain sum of squares is kept: it is finite and not below the
/// smallest normal value (so neither overflow nor underflow spoiled it).
pub open spec fn snrm2_plain_ok(s: u32) -> bool {
    !slt(s, MIN_NORMAL_S) && slt(s, INF_S)
}

/// The largest magnitude among the first `n` elements, starting from +0:
/// a magnitude replaces the kept one when the kept one is below it.
pub open spec fn snrm2_max(x: Seq<u32>, n: nat) -> u32
    decreases n,
{
    if n == 0 {
        0
    } else {
        let m = snrm2_max(x, (n - 1) as nat);
        if slt(m, sabs(x[n - 1])) {
            sabs(x[n - 1])
        } else {
            m
        }
    }
}

/// `Σ (|xᵢ| / scale)²` over the first `n` elements, added in ascending
/// order starting from +0.
pub open spec fn snrm2_scaled(x: Seq<u32>, scale: u32, n: nat) -> u32
    decreases n,
{
    if n == 0 {
        0
    } else {
        let q = sdiv(sabs(x[n - 1]), scale);
        sadd(snrm2_scaled(x, scale, (n - 1) as nat), smul(q, q))
    }
}

/// The scale and sum of squares of `x`, whose `scale · √ssq` is the
/// length: the plain sum with scale 1 when it is kept; otherwise the
/// largest magnitude as scale with the sum of the scaled squares, or
/// with sum 1 when that magnitude is zero or infinite.
pub open spec fn snrm2_spec(x: Seq<u32>) -> (u32, u32) {
    let s = snrm2_sumsq_spec(x);
    if snrm2_plain_ok(s) {
        (ONE_S, s)
    } else {
        let m = snrm2_max(x, x.len());
        if sis_zero(m) || !slt(m, INF_S) {
            (m, ONE_S)
        } else {
            (m, snrm2_scaled(x, m, x.len()))
        }
    }
}

/// The scale and the sum of squares of `x`, as `snrm2_spec` gives them.
pub fn snrm2_ssq(x: &[u32]) -> (r: (u32, u32))
    ensures
        r == snrm2_spec(x@),
{
    let s = snrm2_sumsq(x);
    if !ieee_slt(s, MIN_NORMAL_S) && ieee_slt(s, INF_S) {
        return (ONE_S, s);
    }
    let len = x.len();
    let mut m: u32 = 0;
    let mut i: usize = 0;
    while i < len
        invariant
            i <= len,
            len == x@.len(),
            m == snrm2_max(x@, i as nat),
        decreases len - i,
    {
        let a = ieee_sabs(x[i]);
        if ieee_slt(m, a) {
            m = a;
        }
        i += 1;
    }
    if ieee_sis_zero(m) || !ieee_slt(m, INF_S) {
        return (m, ONE_S);
    }
    let mut t: u32 = 0;
    let mut k: usize = 0;
    while k < len
        invariant
            k <= len,
            len == x@.len(),
            m == snrm2_max(x@, len as nat),
            t == snrm2_scaled(x@, m, k as nat),
        decreases len - k,
    {
        let q = ieee_sdiv(ieee_sabs(x[k]), m);
        t = ieee_sadd(t, ieee_smul(q, q));
        k += 1;
    }
    (m, t)
}

/// The Euclidean length `scale · root` from the scale and the square
/// root of the sum of squares.
pub fn snrm2_finish(scale: u32, root: u32) -> (r: u32)
    ensures
        r == smul(scale, root),
{
    ieee_smul(scale, root)
}

} // verus!
