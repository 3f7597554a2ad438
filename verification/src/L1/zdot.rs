//! The reduction shared by `zdotu` and `zdotc`: four accumulators, each
//! summing every fourth product of the leading multiple-of-four part,
//! folded as `(acc0 + acc1) + (acc2 + acc3)`, then the remaining
//! products added one at a time.

use crate::c64::{zadd, zconj, zmul, zzero, C64};
use vstd::prelude::*;

verus! {

/// One product of the reduction: `a·b`, or `conj(a)·b` when `conj` holds.
pub open spec fn zterm(a: C64, b: C64, conj: bool) -> C64 {
    if conj {
        zmul(zconj(a), b)
    } else {
        zmul(a, b)
    }
}

/// Accumulator `k` (of four) after `m` blocks of four elements.
pub open spec fn zdot_lane(x: Seq<C64>, y: Seq<C64>, conj: bool, k: int, m: nat) -> C64
    decreases m,
{
    if m == 0 {
        zzero()
    } else {
        zadd(
            zdot_lane(x, y, conj, k, (m - 1) as nat),
            zterm(x[4 * (m - 1) + k], y[4 * (m - 1) + k], conj),
        )
    }
}

/// `s` with the products of elements `lo..hi` added in ascending order.
pub open spec fn zdot_tail(x: Seq<C64>, y: Seq<C64>, conj: bool, s: C64, lo: int, hi: int) -> C64
    decreases hi - lo,
{
    if hi <= lo {
        s
    } else {
        zadd(zdot_tail(x, y, conj, s, lo, hi - 1), zterm(x[hi - 1], y[hi - 1], conj))
    }
}

/// The value of the reduction over `x` and `y` (same length).
pub open spec fn zdot_spec(x: Seq<C64>, y: Seq<C64>, conj: bool) -> C64 {
    let m = x.len() / 4;
    let f = zadd(
        zadd(zdot_lane(x, y, conj, 0, m), zdot_lane(x, y, conj, 1, m)),
        zadd(zdot_lane(x, y, conj, 2, m), zdot_lane(x, y, conj, 3, m)),
    );
    zdot_tail(x, y, conj, f, (4 * m) as int, x.len() as int)
}

fn zterm_exec(a: C64, b: C64, conj: bool) -> (r: C64)
    ensures
        r == zterm(a, b, conj),
{
    if conj {
        a.conj().times(b)
    } else {
        a.times(b)
    }
}

/// The reduction over `x[xo..xo+len]` and `y[yo..yo+len]`.
pub(crate) fn zdot_at(x: &[C64], xo: usize, y: &[C64], yo: usize, len: usize, conj: bool) -> (r: C64)
    requires
        xo + len <= x.len(),
        yo + len <= y.len(),
    ensures
        r == zdot_spec(
            x@.subrange(xo as int, xo + len),
            y@.subrange(yo as int, yo + len),
            conj,
        ),
{
    let ghost xs = x@.subrange(xo as int, xo + len);
    let ghost ys = y@.subrange(yo as int, yo + len);
    let mut a0 = C64::zero();
    let mut a1 = C64::zero();
    let mut a2 = C64::zero();
    let mut a3 = C64::zero();
    let mut i: usize = 0;
    let ghost mut m: nat = 0;
    while len - i >= 4
        invariant
            i <= len,
            i == 4 * m,
            xo + len <= x.len(),
            yo + len <= y.len(),
            xs == x@.subrange(xo as int, xo + len),
            ys == y@.subrange(yo as int, yo + len),
            a0 == zdot_lane(xs, ys, conj, 0, m),
            a1 == zdot_lane(xs, ys, conj, 1, m),
            a2 == zdot_lane(xs, ys, conj, 2, m),
            a3 == zdot_lane(xs, ys, conj, 3, m),
        decreases len - i,
    {
        a0 = a0.plus(zterm_exec(x[xo + i], y[yo + i], conj));
        a1 = a1.plus(zterm_exec(x[xo + i + 1], y[yo + i + 1], conj));
        a2 = a2.plus(zterm_exec(x[xo + i + 2], y[yo + i + 2], conj));
        a3 = a3.plus(zterm_exec(x[xo + i + 3], y[yo + i + 3], conj));
        proof {
            m = m + 1;
        }
        i += 4;
    }
    let mut s = a0.plus(a1).plus(a2.plus(a3));
    let ghost f = s;
    assert(m == len / 4);
    while i < len
        invariant
            4 * m <= i <= len,
            m == len / 4,
            xo + len <= x.len(),
            yo + len <= y.len(),
            xs == x@.subrange(xo as int, xo + len),
            ys == y@.subrange(yo as int, yo + len),
            s == zdot_tail(xs, ys, conj, f, (4 * m) as int, i as int),
        decreases len - i,
    {
        s = s.plus(zterm_exec(x[xo + i], y[yo + i], conj));
        i += 1;
    }
    s
}


/// Every element of `x` conjugated.
pub open spec fn zconj_all(x: Seq<C64>) -> Seq<C64> {
    Seq::new(x.len(), |i: int| zconj(x[i]))
}

proof fn lemma_zdot_lane_conj(x: Seq<C64>, y: Seq<C64>, k: int, m: nat)
    requires
        0 <= k < 4,
        4 * m <= x.len(),
    ensures
        zdot_lane(x, y, true, k, m) == zdot_lane(zconj_all(x), y, false, k, m),
    decreases m,
{
    if m > 0 {
        lemma_zdot_lane_conj(x, y, k, (m - 1) as nat);
    }
}

proof fn lemma_zdot_tail_conj(x: Seq<C64>, y: Seq<C64>, s: C64, lo: int, hi: int)
    requires
        0 <= lo,
        hi <= x.len(),
    ensures
        zdot_tail(x, y, true, s, lo, hi) == zdot_tail(zconj_all(x), y, false, s, lo, hi),
    decreases hi - lo,
{
    if hi > lo {
        lemma_zdot_tail_conj(x, y, s, lo, hi - 1);
    }
}

/// The conjugated reduction of `x` and `y` is the unconjugated reduction
/// of the conjugated `x` and `y`: the same products in the same order.
pub proof fn lemma_zdotc_is_zdotu_of_conj(x: Seq<C64>, y: Seq<C64>)
    ensures
        zdot_spec(x, y, true) == zdot_spec(zconj_all(x), y, false),
{
    let m = x.len() / 4;
    lemma_zdot_lane_conj(x, y, 0, m);
    lemma_zdot_lane_conj(x, y, 1, m);
    lemma_zdot_lane_conj(x, y, 2, m);
    lemma_zdot_lane_conj(x, y, 3, m);
    let f = zadd(
        zadd(zdot_lane(x, y, true, 0, m), zdot_lane(x, y, true, 1, m)),
        zadd(zdot_lane(x, y, true, 2, m), zdot_lane(x, y, true, 3, m)),
    );
    lemma_zdot_tail_conj(x, y, f, (4 * m) as int, x.len() as int);
}

} // verus!
