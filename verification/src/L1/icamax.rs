//! `icamax` — index of the largest complex element by the BLAS
//! magnitude |re| + |im|: the first index whose magnitude no later
//! element exceeds in a left-to-right scan, which when no magnitude is
//! NaN is the first occurrence of the maximum; 0 for an empty vector.

use crate::c32::{cabs1, C32};
use crate::ieee::{sis_nan, slt, ieee_slt, lemma_slt_not_above, lemma_slt_transitive};
use vstd::prelude::*;

verus! {

/// The index kept after scanning the first `n` elements: element `k`
/// replaces the kept one exactly when the kept magnitude is below the
/// magnitude of element `k`.
pub open spec fn icamax_upto(x: Seq<C32>, n: nat) -> int
    decreases n,
{
    if n <= 1 {
        0
    } else {
        let b = icamax_upto(x, (n - 1) as nat);
        if slt(cabs1(x[b]), cabs1(x[n - 1])) {
            n - 1
        } else {
            b
        }
    }
}

/// Returns the 0-based index of the first element with maximum
/// |re| + |im| (0 if `x` is empty), as `icamax_upto` scans: no later
/// element is larger and, when no magnitude is NaN, every earlier one is
/// smaller.
pub fn icamax(x: &[C32]) -> (r: usize)
    ensures
        r == icamax_upto(x@, x@.len()),
        x@.len() > 0 ==> r < x@.len(),
        x@.len() == 0 ==> r == 0,
        forall|k: int| r < k < x@.len() ==> !slt(cabs1(x@[r as int]), #[trigger] cabs1(x@[k])),
        (forall|k: int| 0 <= k < x@.len() ==> !sis_nan(#[trigger] cabs1(x@[k]))) ==> forall|k: int|
            0 <= k < r ==> slt(#[trigger] cabs1(x@[k]), cabs1(x@[r as int])),
{
    let len = x.len();
    if len == 0 {
        return 0;
    }
    let mut best: usize = 0;
    let mut bv = x[0].abs1();
    let mut k: usize = 1;
    while k < len
        invariant
            1 <= k <= len,
            len == x@.len(),
            best < k,
            best == icamax_upto(x@, k as nat),
            bv == cabs1(x@[best as int]),
        decreases len - k,
    {
        let v = x[k].abs1();
        if ieee_slt(bv, v) {
            best = k;
            bv = v;
        }
        k += 1;
    }
    proof {
        assert forall|k: int| best < k < len implies !slt(
            cabs1(x@[best as int]),
            #[trigger] cabs1(x@[k]),
        ) by {
            lemma_icamax_no_later_exceeds(x@, len as nat, k);
        }
        if forall|k: int| 0 <= k < len ==> !sis_nan(#[trigger] cabs1(x@[k])) {
            assert forall|k: int| 0 <= k < best implies slt(
                #[trigger] cabs1(x@[k]),
                cabs1(x@[best as int]),
            ) by {
                lemma_icamax_earlier_below(x@, len as nat, k);
            }
        }
    }
    best
}


/// No element after the returned index has a larger magnitude: every
/// later element was compared with the kept one and did not replace it.
pub proof fn lemma_icamax_no_later_exceeds(x: Seq<C32>, n: nat, k: int)
    requires
        n <= x.len(),
        icamax_upto(x, n) < k < n,
    ensures
        !slt(cabs1(x[icamax_upto(x, n)]), cabs1(x[k])),
    decreases n,
{
    if n > 1 {
        if k < n - 1 {
            lemma_icamax_upto_bound(x, (n - 1) as nat);
            lemma_icamax_no_later_exceeds(x, (n - 1) as nat, k);
        }
    }
}

/// When no scanned magnitude is NaN, every element before the kept index
/// has a strictly smaller magnitude: with no later element larger, the
/// kept index is the first occurrence of the maximum.
pub proof fn lemma_icamax_earlier_below(x: Seq<C32>, n: nat, k: int)
    requires
        n <= x.len(),
        forall|i: int| 0 <= i < n ==> !sis_nan(#[trigger] cabs1(x[i])),
        0 <= k < icamax_upto(x, n),
    ensures
        slt(cabs1(x[k]), cabs1(x[icamax_upto(x, n)])),
    decreases n,
{
    if n > 1 {
        let m = (n - 1) as nat;
        let b = icamax_upto(x, m);
        lemma_icamax_upto_bound(x, m);
        if slt(cabs1(x[b]), cabs1(x[n - 1])) {
            if k < b {
                lemma_icamax_earlier_below(x, m, k);
                lemma_slt_transitive(cabs1(x[k]), cabs1(x[b]), cabs1(x[n - 1]));
            } else if k > b {
                lemma_icamax_no_later_exceeds(x, m, k);
                lemma_slt_not_above(cabs1(x[b]), cabs1(x[k]), cabs1(x[n - 1]));
            }
        } else {
            lemma_icamax_earlier_below(x, m, k);
        }
    }
}

/// The kept index lies among the scanned elements.
pub proof fn lemma_icamax_upto_bound(x: Seq<C32>, n: nat)
    ensures
        0 <= icamax_upto(x, n),
        n > 0 ==> icamax_upto(x, n) < n,
    decreases n,
{
    if n > 1 {
        lemma_icamax_upto_bound(x, (n - 1) as nat);
    }
}

} // verus!
