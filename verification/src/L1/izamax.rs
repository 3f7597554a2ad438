//! `izamax` — index of the largest complex element by the BLAS
//! magnitude |re| + |im|: the first index whose magnitude no later
//! element exceeds in a left-to-right scan, which when no magnitude is
//! NaN is the first occurrence of the maximum; 0 for an empty vector.

use crate::c64::{zabs1, C64};
use crate::ieee::{dis_nan, dlt, ieee_dlt, lemma_dlt_not_above, lemma_dlt_transitive};
use vstd::prelude::*;

verus! {

/// The index kept after scanning the first `n` elements: element `k`
/// replaces the kept one exactly when the kept magnitude is below the
/// magnitude of element `k`.
pub open spec fn izamax_upto(x: Seq<C64>, n: nat) -> int
    decreases n,
{
    if n <= 1 {
        0
    } else {
        let b = izamax_upto(x, (n - 1) as nat);
        if dlt(zabs1(x[b]), zabs1(x[n - 1])) {
            n - 1
        } else {
            b
        }
    }
}

/// Returns the 0-based index of the first element with maximum
/// |re| + |im| (0 if `x` is empty), as `izamax_upto` scans: no later
/// element is larger and, when no magnitude is NaN, every earlier one is
/// smaller.
pub fn izamax(x: &[C64]) -> (r: usize)
    ensures
        r == izamax_upto(x@, x@.len()),
        x@.len() > 0 ==> r < x@.len(),
        x@.len() == 0 ==> r == 0,
        forall|k: int| r < k < x@.len() ==> !dlt(zabs1(x@[r as int]), #[trigger] zabs1(x@[k])),
        (forall|k: int| 0 <= k < x@.len() ==> !dis_nan(#[trigger] zabs1(x@[k]))) ==> forall|k: int|
            0 <= k < r ==> dlt(#[trigger] zabs1(x@[k]), zabs1(x@[r as int])),
{
    let len = x.len();
    if len == 0 {
        return 0;
    }
    let mut best: usize = 0;
    let mut bv = x[0].abs1();
    let mut k: usize = 1;
    while k < len
        invariant
            1 <= k <= len,
            len == x@.len(),
            best < k,
            best == izamax_upto(x@, k as nat),
            bv == zabs1(x@[best as int]),
        decreases len - k,
    {
        let v = x[k].abs1();
        if ieee_dlt(bv, v) {
            best = k;
            bv = v;
        }
        k += 1;
    }
    proof {
        assert forall|k: int| best < k < len implies !dlt(
            zabs1(x@[best as int]),
            #[trigger] zabs1(x@[k]),
        ) by {
            lemma_izamax_no_later_exceeds(x@, len as nat, k);
        }
        if forall|k: int| 0 <= k < len ==> !dis_nan(#[trigger] zabs1(x@[k])) {
            assert forall|k: int| 0 <= k < best implies dlt(
                #[trigger] zabs1(x@[k]),
                zabs1(x@[best as int]),
            ) by {
                lemma_izamax_earlier_below(x@, len as nat, k);
            }
        }
    }
    best
}


/// No element after the returned index has a larger magnitude: every
/// later element was compared with the kept one and did not replace it.
pub proof fn lemma_izamax_no_later_exceeds(x: Seq<C64>, n: nat, k: int)
    requires
        n <= x.len(),
        izamax_upto(x, n) < k < n,
    ensures
        !dlt(zabs1(x[izamax_upto(x, n)]), zabs1(x[k])),
    decreases n,
{
    if n > 1 {
        if k < n - 1 {
            lemma_izamax_upto_bound(x, (n - 1) as nat);
            lemma_izamax_no_later_exceeds(x, (n - 1) as nat, k);
        }
    }
}

/// When no scanned magnitude is NaN, every element before the kept index
/// has a strictly smaller magnitude: with no later element larger, the
/// kept index is the first occurrence of the maximum.
pub proof fn lemma_izamax_earlier_below(x: Seq<C64>, n: nat, k: int)
    requires
        n <= x.len(),
        forall|i: int| 0 <= i < n ==> !dis_nan(#[trigger] zabs1(x[i])),
        0 <= k < izamax_upto(x, n),
    ensures
        dlt(zabs1(x[k]), zabs1(x[izamax_upto(x, n)])),
    decreases n,
{
    if n > 1 {
        let m = (n - 1) as nat;
        let b = izamax_upto(x, m);
        lemma_izamax_upto_bound(x, m);
        if dlt(zabs1(x[b]), zabs1(x[n - 1])) {
            if k < b {
                lemma_izamax_earlier_below(x, m, k);
                lemma_dlt_transitive(zabs1(x[k]), zabs1(x[b]), zabs1(x[n - 1]));
            } else if k > b {
                lemma_izamax_no_later_exceeds(x, m, k);
                lemma_dlt_not_above(zabs1(x[b]), zabs1(x[k]), zabs1(x[n - 1]));
            }
        } else {
            lemma_izamax_earlier_below(x, m, k);
        }
    }
}

/// The kept index lies among the scanned elements.
pub proof fn lemma_izamax_upto_bound(x: Seq<C64>, n: nat)
    ensures
        0 <= izamax_upto(x, n),
        n > 0 ==> izamax_upto(x, n) < n,
    decreases n,
{
    if n > 1 {
        lemma_izamax_upto_bound(x, (n - 1) as nat);
    }
}

} // verus!
