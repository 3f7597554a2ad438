//! The reduction shared by `cdotu` and `cdotc`: eight complex
//! accumulators (four registers of two complexes), accumulator `k`
//! summing the products at positions `k`, `k + 8`, ... of the leading
//! multiple-of-eight part; folded as `((L0 + L2) + (L4 + L6)) +
//! ((L1 + L3) + (L5 + L7))`, then the remaining products added one at
//! a time.

use crate::c32::{cadd, cconj, cmul, czero, C32};
use vstd::prelude::*;

verus! {

/// One product of the reduction: `a·b`, or `conj(a)·b` when `conj` holds.
pub open spec fn cterm(a: C32, b: C32, conj: bool) -> C32 {
    if conj {
        cmul(cconj(a), b)
    } else {
        cmul(a, b)
    }
}

/// Accumulator `k` (of eight) after `m` blocks of eight elements.
pub open spec fn cdot_lane(x: Seq<C32>, y: Seq<C32>, conj: bool, k: int, m: nat) -> C32
    decreases m,
{
    if m == 0 {
        czero()
    } else {
        cadd(
            cdot_lane(x, y, conj, k, (m - 1) as nat),
            cterm(x[8 * (m - 1) + k], y[8 * (m - 1) + k], conj),
        )
    }
}

/// `s` with the products of elements `lo..hi` added in ascending order.
pub open spec fn cdot_tail(x: Seq<C32>, y: Seq<C32>, conj: bool, s: C32, lo: int, hi: int) -> C32
    decreases hi - lo,
{
    if hi <= lo {
        s
    } else {
        cadd(cdot_tail(x, y, conj, s, lo, hi - 1), cterm(x[hi - 1], y[hi - 1], conj))
    }
}

/// The value of the reduction over `x` and `y` (same length).
pub open spec fn cdot_spec(x: Seq<C32>, y: Seq<C32>, conj: bool) -> C32 {
    let m = x.len() / 8;
    let f0 = cadd(
        cadd(cdot_lane(x, y, conj, 0, m), cdot_lane(x, y, conj, 2, m)),
        cadd(cdot_lane(x, y, conj, 4, m), cdot_lane(x, y, conj, 6, m)),
    );
    let f1 = cadd(
        cadd(cdot_lane(x, y, conj, 1, m), cdot_lane(x, y, conj, 3, m)),
        cadd(cdot_lane(x, y, conj, 5, m), cdot_lane(x, y, conj, 7, m)),
    );
    cdot_tail(x, y, conj, cadd(f0, f1), (8 * m) as int, x.len() as int)
}

fn cterm_exec(a: C32, b: C32, conj: bool) -> (r: C32)
    ensures
        r == cterm(a, b, conj),
{
    if conj {
        a.conj().times(b)
    } else {
        a.times(b)
    }
}

/// The reduction over `x[xo..xo+len]` and `y[yo..yo+len]`.
pub(crate) fn cdot_at(x: &[C32], xo: usize, y: &[C32], yo: usize, len: usize, conj: bool) -> (r: C32)
    requires
        xo + len <= x.len(),
        yo + len <= y.len(),
    ensures
        r == cdot_spec(
            x@.subrange(xo as int, xo + len),
            y@.subrange(yo as int, yo + len),
            conj,
        ),
{
    let ghost xs = x@.subrange(xo as int, xo + len);
    let ghost ys = y@.subrange(yo as int, yo + len);
    let mut a0 = C32::zero();
    let mut a1 = C32::zero();
    let mut a2 = C32::zero();
    let mut a3 = C32::zero();
    let mut a4 = C32::zero();
    let mut a5 = C32::zero();
    let mut a6 = C32::zero();
    let mut a7 = C32::zero();
    let mut i: usize = 0;
    let ghost mut m: nat = 0;
    while len - i >= 8
        invariant
            i <= len,
            i == 8 * m,
            xo + len <= x.len(),
            yo + len <= y.len(),
            xs == x@.subrange(xo as int, xo + len),
            ys == y@.subrange(yo as int, yo + len),
            a0 == cdot_lane(xs, ys, conj, 0, m),
            a1 == cdot_lane(xs, ys, conj, 1, m),
            a2 == cdot_lane(xs, ys, conj, 2, m),
            a3 == cdot_lane(xs, ys, conj, 3, m),
            a4 == cdot_lane(xs, ys, conj, 4, m),
            a5 == cdot_lane(xs, ys, conj, 5, m),
            a6 == cdot_lane(xs, ys, conj, 6, m),
            a7 == cdot_lane(xs, ys, conj, 7, m),
        decreases len - i,
    {
        a0 = a0.plus(cterm_exec(x[xo + i], y[yo + i], conj));
        a1 = a1.plus(cterm_exec(x[xo + i + 1], y[yo + i + 1], conj));
        a2 = a2.plus(cterm_exec(x[xo + i + 2], y[yo + i + 2], conj));
        a3 = a3.plus(cterm_exec(x[xo + i + 3], y[yo + i + 3], conj));
        a4 = a4.plus(cterm_exec(x[xo + i + 4], y[yo + i + 4], conj));
        a5 = a5.plus(cterm_exec(x[xo + i + 5], y[yo + i + 5], conj));
        a6 = a6.plus(cterm_exec(x[xo + i + 6], y[yo + i + 6], conj));
        a7 = a7.plus(cterm_exec(x[xo + i + 7], y[yo + i + 7], conj));
        proof {
            m = m + 1;
        }
        i += 8;
    }
    let f0 = a0.plus(a2).plus(a4.plus(a6));
    let f1 = a1.plus(a3).plus(a5.plus(a7));
    let mut s = f0.plus(f1);
    let ghost f = s;
    assert(m == len / 8);
    while i < len
        invariant
            8 * m <= i <= len,
            m == len / 8,
            xo + len <= x.len(),
            yo + len <= y.len(),
            xs == x@.subrange(xo as int, xo + len),
            ys == y@.subrange(yo as int, yo + len),
            s == cdot_tail(xs, ys, conj, f, (8 * m) as int, i as int),
        decreases len - i,
    {
        s = s.plus(cterm_exec(x[xo + i], y[yo + i], conj));
        i += 1;
    }
    s
}


/// Every element of `x` conjugated.
pub open spec fn cconj_all(x: Seq<C32>) -> Seq<C32> {
    Seq::new(x.len(), |i: int| cconj(x[i]))
}

proof fn lemma_cdot_lane_conj(x: Seq<C32>, y: Seq<C32>, k: int, m: nat)
    requires
        0 <= k < 8,
        8 * m <= x.len(),
    ensures
        cdot_lane(x, y, true, k, m) == cdot_lane(cconj_all(x), y, false, k, m),
    decreases m,
{
    if m > 0 {
        lemma_cdot_lane_conj(x, y, k, (m - 1) as nat);
    }
}

proof fn lemma_cdot_tail_conj(x: Seq<C32>, y: Seq<C32>, s: C32, lo: int, hi: int)
    requires
        0 <= lo,
        hi <= x.len(),
    ensures
        cdot_tail(x, y, true, s, lo, hi) == cdot_tail(cconj_all(x), y, false, s, lo, hi),
    decreases hi - lo,
{
    if hi > lo {
        lemma_cdot_tail_conj(x, y, s, lo, hi - 1);
    }
}

/// The conjugated reduction of `x` and `y` is the unconjugated reduction
/// of the conjugated `x` and `y`: the same products in the same order.
pub proof fn lemma_cdotc_is_cdotu_of_conj(x: Seq<C32>, y: Seq<C32>)
    ensures
        cdot_spec(x, y, true) == cdot_spec(cconj_all(x), y, false),
{
    let m = x.len() / 8;
    assert forall|k: int| 0 <= k < 8 implies #[trigger] cdot_lane(x, y, true, k, m) == cdot_lane(
        cconj_all(x),
        y,
        false,
        k,
        m,
    ) by {
        lemma_cdot_lane_conj(x, y, k, m);
    }
    let f0 = cadd(
        cadd(cdot_lane(x, y, true, 0, m), cdot_lane(x, y, true, 2, m)),
        cadd(cdot_lane(x, y, true, 4, m), cdot_lane(x, y, true, 6, m)),
    );
    let f1 = cadd(
        cadd(cdot_lane(x, y, true, 1, m), cdot_lane(x, y, true, 3, m)),
        cadd(cdot_lane(x, y, true, 5, m), cdot_lane(x, y, true, 7, m)),
    );
    lemma_cdot_tail_conj(x, y, cadd(f0, f1), (8 * m) as int, x.len() as int);
}

} // verus!
