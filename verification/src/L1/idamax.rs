//! `idamax` — index of the element of largest magnitude |x| (binary64
//! bit patterns): the first index whose magnitude no later element
//! exceeds in a left-to-right scan, which when no element is NaN is the
//! first occurrence of the maximum; 0 for an empty vector.

use crate::ieee::{
    dabs, dis_nan, dlt, ieee_dabs, ieee_dlt, lemma_dabs_idempotent, lemma_dlt_not_above,
    lemma_dlt_transitive,
};
use vstd::prelude::*;

verus! {

/// The index kept after scanning the first `n` elements: element `k`
/// replaces the kept one exactly when the kept magnitude is below the
/// magnitude of element `k`.
pub open spec fn idamax_upto(x: Seq<u64>, n: nat) -> int
    decreases n,
{
    if n <= 1 {
        0
    } else {
        let b = idamax_upto(x, (n - 1) as nat);
        if dlt(dabs(x[b]), dabs(x[n - 1])) {
            n - 1
        } else {
            b
        }
    }
}

/// Returns the 0-based index of the first element with maximum |x|
/// (0 if `x` is empty), as `idamax_upto` scans: no later element is
/// larger and, when no element is NaN, every earlier one is smaller.
pub fn idamax(x: &[u64]) -> (r: usize)
    ensures
        r == idamax_upto(x@, x@.len()),
        x@.len() > 0 ==> r < x@.len(),
        x@.len() == 0 ==> r == 0,
        forall|k: int| r < k < x@.len() ==> !dlt(dabs(x@[r as int]), #[trigger] dabs(x@[k])),
        (forall|k: int| 0 <= k < x@.len() ==> !dis_nan(#[trigger] x@[k])) ==> forall|k: int|
            0 <= k < r ==> dlt(#[trigger] dabs(x@[k]), dabs(x@[r as int])),
{
    let len = x.len();
    if len == 0 {
        return 0;
    }
    let mut best: usize = 0;
    let mut bv = ieee_dabs(x[0]);
    let mut k: usize = 1;
    while k < len
        invariant
            1 <= k <= len,
            len == x@.len(),
            best < k,
            best == idamax_upto(x@, k as nat),
            bv == dabs(x@[best as int]),
        decreases len - k,
    {
        let v = ieee_dabs(x[k]);
        if ieee_dlt(bv, v) {
            best = k;
            bv = v;
        }
        k += 1;
    }
    proof {
        assert forall|k: int| best < k < len implies !dlt(
            dabs(x@[best as int]),
            #[trigger] dabs(x@[k]),
        ) by {
            lemma_idamax_no_later_exceeds(x@, len as nat, k);
        }
        if forall|k: int| 0 <= k < len ==> !dis_nan(#[trigger] x@[k]) {
            assert forall|k: int| 0 <= k < len implies !dis_nan(#[trigger] dabs(x@[k])) by {
                lemma_dabs_idempotent(x@[k]);
            }
            assert forall|k: int| 0 <= k < best implies dlt(
                #[trigger] dabs(x@[k]),
                dabs(x@[best as int]),
            ) by {
                lemma_idamax_earlier_below(x@, len as nat, k);
            }
        }
    }
    best
}


/// No element after the returned index has a larger magnitude: every
/// later element was compared with the kept one and did not replace it.
pub proof fn lemma_idamax_no_later_exceeds(x: Seq<u64>, n: nat, k: int)
    requires
        n <= x.len(),
        idamax_upto(x, n) < k < n,
    ensures
        !dlt(dabs(x[idamax_upto(x, n)]), dabs(x[k])),
    decreases n,
{
    if n > 1 {
        if k < n - 1 {
            lemma_idamax_upto_bound(x, (n - 1) as nat);
            lemma_idamax_no_later_exceeds(x, (n - 1) as nat, k);
        }
    }
}

/// When no scanned magnitude is NaN, every element before the kept index
/// has a strictly smaller magnitude: with no later element larger, the
/// kept index is the first occurrence of the maximum.
pub proof fn lemma_idamax_earlier_below(x: Seq<u64>, n: nat, k: int)
    requires
        n <= x.len(),
        forall|i: int| 0 <= i < n ==> !dis_nan(#[trigger] dabs(x[i])),
        0 <= k < idamax_upto(x, n),
    ensures
        dlt(dabs(x[k]), dabs(x[idamax_upto(x, n)])),
    decreases n,
{
    if n > 1 {
        let m = (n - 1) as nat;
        let b = idamax_upto(x, m);
        lemma_idamax_upto_bound(x, m);
        if dlt(dabs(x[b]), dabs(x[n - 1])) {
            if k < b {
                lemma_idamax_earlier_below(x, m, k);
                lemma_dlt_transitive(dabs(x[k]), dabs(x[b]), dabs(x[n - 1]));
            } else if k > b {
                lemma_idamax_no_later_exceeds(x, m, k);
                lemma_dlt_not_above(dabs(x[b]), dabs(x[k]), dabs(x[n - 1]));
            }
        } else {
            lemma_idamax_earlier_below(x, m, k);
        }
    }
}

/// The kept index lies among the scanned elements.
pub proof fn lemma_idamax_upto_bound(x: Seq<u64>, n: nat)
    ensures
        0 <= idamax_upto(x, n),
        n > 0 ==> idamax_upto(x, n) < n,
    decreases n,
{
    if n > 1 {
        lemma_idamax_upto_bound(x, (n - 1) as nat);
    }
}

} // verus!
