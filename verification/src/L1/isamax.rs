//! `isamax` — index of the element of largest magnitude |x| (binary32
//! bit patterns): the first index whose magnitude no later element
//! exceeds in a left-to-right scan, which when no element is NaN is the
//! first occurrence of the maximum; 0 for an empty vector.

use crate::ieee::{
    sabs, sis_nan, slt, ieee_sabs, ieee_slt, lemma_sabs_idempotent, lemma_slt_not_above,
    lemma_slt_transitive,
};
use vstd::prelude::*;

verus! {

/// The index kept after scanning the first `n` elements: element `k`
/// replaces the kept one exactly when the kept magnitude is below the
/// magnitude of element `k`.
pub open spec fn isamax_upto(x: Seq<u32>, n: nat) -> int
    decreases n,
{
    if n <= 1 {
        0
    } else {
        let b = isamax_upto(x, (n - 1) as nat);
        if slt(sabs(x[b]), sabs(x[n - 1])) {
            n - 1
        } else {
            b
        }
    }
}

/// Returns the 0-based index of the first element with maximum |x|
/// (0 if `x` is empty), as `isamax_upto` scans: no later element is
/// larger and, when no element is NaN, every earlier one is smaller.
pub fn isamax(x: &[u32]) -> (r: usize)
    ensures
        r == isamax_upto(x@, x@.len()),
        x@.len() > 0 ==> r < x@.len(),
        x@.len() == 0 ==> r == 0,
        forall|k: int| r < k < x@.len() ==> !slt(sabs(x@[r as int]), #[trigger] sabs(x@[k])),
        (forall|k: int| 0 <= k < x@.len() ==> !sis_nan(#[trigger] x@[k])) ==> forall|k: int|
            0 <= k < r ==> slt(#[trigger] sabs(x@[k]), sabs(x@[r as int])),
{
    let len = x.len();
    if len == 0 {
        return 0;
    }
    let mut best: usize = 0;
    let mut bv = ieee_sabs(x[0]);
    let mut k: usize = 1;
    while k < len
        invariant
            1 <= k <= len,
            len == x@.len(),
            best < k,
            best == isamax_upto(x@, k as nat),
            bv == sabs(x@[best as int]),
        decreases len - k,
    {
        let v = ieee_sabs(x[k]);
        if ieee_slt(bv, v) {
            best = k;
            bv = v;
        }
        k += 1;
    }
    proof {
        assert forall|k: int| best < k < len implies !slt(
            sabs(x@[best as int]),
            #[trigger] sabs(x@[k]),
        ) by {
            lemma_isamax_no_later_exceeds(x@, len as nat, k);
        }
        if forall|k: int| 0 <= k < len ==> !sis_nan(#[trigger] x@[k]) {
            assert forall|k: int| 0 <= k < len implies !sis_nan(#[trigger] sabs(x@[k])) by {
                lemma_sabs_idempotent(x@[k]);
            }
            assert forall|k: int| 0 <= k < best implies slt(
                #[trigger] sabs(x@[k]),
                sabs(x@[best as int]),
            ) by {
                lemma_isamax_earlier_below(x@, len as nat, k);
            }
        }
    }
    best
}


/// No element after the returned index has a larger magnitude: every
/// later element was compared with the kept one and did not replace it.
pub proof fn lemma_isamax_no_later_exceeds(x: Seq<u32>, n: nat, k: int)
    requires
        n <= x.len(),
        isamax_upto(x, n) < k < n,
    ensures
        !slt(sabs(x[isamax_upto(x, n)]), sabs(x[k])),
    decreases n,
{
    if n > 1 {
        if k < n - 1 {
            lemma_isamax_upto_bound(x, (n - 1) as nat);
            lemma_isamax_no_later_exceeds(x, (n - 1) as nat, k);
        }
    }
}

/// When no scanned magnitude is NaN, every element before the kept index
/// has a strictly smaller magnitude: with no later element larger, the
/// kept index is the first occurrence of the maximum.
pub proof fn lemma_isamax_earlier_below(x: Seq<u32>, n: nat, k: int)
    requires
        n <= x.len(),
        forall|i: int| 0 <= i < n ==> !sis_nan(#[trigger] sabs(x[i])),
        0 <= k < isamax_upto(x, n),
    ensures
        slt(sabs(x[k]), sabs(x[isamax_upto(x, n)])),
    decreases n,
{
    if n > 1 {
        let m = (n - 1) as nat;
        let b = isamax_upto(x, m);
        lemma_isamax_upto_bound(x, m);
        if slt(sabs(x[b]), sabs(x[n - 1])) {
            if k < b {
                lemma_isamax_earlier_below(x, m, k);
                lemma_slt_transitive(sabs(x[k]), sabs(x[b]), sabs(x[n - 1]));
            } else if k > b {
                lemma_isamax_no_later_exceeds(x, m, k);
                lemma_slt_not_above(sabs(x[b]), sabs(x[k]), sabs(x[n - 1]));
            }
        } else {
            lemma_isamax_earlier_below(x, m, k);
        }
    }
}

/// The kept index lies among the scanned elements.
pub proof fn lemma_isamax_upto_bound(x: Seq<u32>, n: nat)
    ensures
        0 <= isamax_upto(x, n),
        n > 0 ==> isamax_upto(x, n) < n,
    decreases n,
{
    if n > 1 {
        lemma_isamax_upto_bound(x, (n - 1) as nat);
    }
}

} // verus!
