//! `cgerc` — conjugated rank-1 update: A ← A + αx·yᴴ. Identical to
//! `cgeru` except that column j's scalar is α·conj(y[j]).

use super::{in_mat, lemma_cell, lemma_column_in_bounds, lemma_column_of, mat_fits};
use crate::L1::cdot::cconj_all;
use super::cgeru::{cger_impl, cger_spec};
use crate::c32::{cadd, cconj, cmul, C32};
use vstd::prelude::*;

verus! {

/// A ← A + αx·yᴴ. A is nrows×ncols at column stride `cs`; x has nrows
/// elements, y has ncols. The storage must hold A (`check_mat`) and the lengths must match.
pub fn cgerc(
    alpha: C32,
    nrows: usize,
    ncols: usize,
    a: &mut [C32],
    cs: usize,
    x: &[C32],
    y: &[C32],
)
    requires
        mat_fits(old(a)@.len() as int, nrows as int, ncols as int, cs as int),
        x@.len() == nrows,
        y@.len() == ncols,
    ensures
        final(a)@ == cger_spec(alpha, nrows as int, ncols as int, old(a)@, cs as int, x@, y@, true),
{
    cger_impl(alpha, nrows, ncols, a, cs, x, y, true);
}


/// The conjugated update with `y` is the unconjugated update with the
/// elementwise conjugate of `y`: the conjugation lands on the column
/// scalars only.
pub proof fn lemma_cgerc_is_cgeru_of_conj(
    alpha: C32,
    nrows: int,
    ncols: int,
    a: Seq<C32>,
    cs: int,
    x: Seq<C32>,
    y: Seq<C32>,
)
    requires
        y.len() == ncols,
    ensures
        cger_spec(alpha, nrows, ncols, a, cs, x, y, true) == cger_spec(
            alpha,
            nrows,
            ncols,
            a,
            cs,
            x,
            cconj_all(y),
            false,
        ),
{
    assert forall|k: int| 0 <= k < a.len() && in_mat(k, nrows, ncols, cs) implies 0 <= #[trigger] (k
        / cs) < ncols by {
        lemma_column_of(k, ncols, cs);
    }
    assert(cger_spec(alpha, nrows, ncols, a, cs, x, y, true) =~= cger_spec(
        alpha,
        nrows,
        ncols,
        a,
        cs,
        x,
        cconj_all(y),
        false,
    ));
}

/// Every entry (i, j) of `cgerc`'s result is
/// `a[i, j] + (α·conj(y[j]))·x[i]`; all storage outside the matrix is
/// kept.
pub proof fn lemma_cgerc_entries(alpha: C32, nrows: int, ncols: int, a: Seq<C32>, cs: int, x: Seq<C32>, y: Seq<C32>)
    requires
        0 <= nrows,
        0 <= ncols,
        mat_fits(a.len() as int, nrows, ncols, cs),
    ensures
        cger_spec(alpha, nrows, ncols, a, cs, x, y, true).len() == a.len(),
        forall|i: int, j: int|
            0 <= i < nrows && 0 <= j < ncols ==> #[trigger] cger_spec(alpha, nrows, ncols, a, cs, x, y, true)[j * cs + i] == if true {
                cadd(a[j * cs + i], cmul(cmul(alpha, cconj(y[j])), x[i]))
            } else {
                a[j * cs + i]
            },
        forall|k: int| 0 <= k < a.len() && !in_mat(k, nrows, ncols, cs) ==> #[trigger] cger_spec(alpha, nrows, ncols, a, cs, x, y, true)[k] == a[k],
{
    assert forall|i: int, j: int| 0 <= i < nrows && 0 <= j < ncols implies #[trigger] cger_spec(alpha, nrows, ncols, a, cs, x, y, true)[j * cs + i] == if true {
        cadd(a[j * cs + i], cmul(cmul(alpha, cconj(y[j])), x[i]))
    } else {
        a[j * cs + i]
    } by {
        let k = j * cs + i;
        lemma_column_in_bounds(a.len() as int, nrows, ncols, cs, j);
        lemma_cell(k, j, cs);
        assert((j + 1) * cs <= ncols * cs) by (nonlinear_arith)
            requires
                j + 1 <= ncols,
                0 < cs,
        ;
        assert((j + 1) * cs == j * cs + cs) by (nonlinear_arith);
        assert(in_mat(k, nrows, ncols, cs));
    }
}

} // verus!
