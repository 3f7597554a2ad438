//! `cgemv` — complex matrix × vector: y ← αAx + βy, with the transpose
//! twin (Aᵀx, unconjugated) and the conjugate-transpose twin (Aᴴx).
//!
//! The no-transpose form adds the columns one after the other, each as
//! a `caxpy` stream with scalar α·x[j] (the per-element rounding
//! sequence of the plain column loop); the transpose forms are one
//! `cdotu`/`cdotc` reduction per column.

use super::{
    column, lemma_column_in_bounds, lemma_cscale_zero_forgets_one_keeps, mat_fits, cscale_spec,
    cscale_y,
};
use crate::c32::{cadd, cis_zero, cmul, C32};
use crate::L1::caxpy::{caxpy_at, caxpy_range};
use crate::L1::cdot::{lemma_cdotc_is_cdotu_of_conj, cconj_all, cdot_at, cdot_spec};
use vstd::prelude::*;

verus! {

/// `y` after the first `m` columns were added: column `j` adds
/// `(α·x[j])·a[i, j]` to every `y[i]`, columns in ascending order.
pub open spec fn cgemv_cols(
    alpha: C32,
    nrows: int,
    a: Seq<C32>,
    cs: int,
    x: Seq<C32>,
    y: Seq<C32>,
    m: nat,
) -> Seq<C32>
    decreases m,
{
    if m == 0 {
        y
    } else {
        caxpy_range(
            cmul(alpha, x[m - 1]),
            a,
            (m - 1) * cs,
            cgemv_cols(alpha, nrows, a, cs, x, y, (m - 1) as nat),
            0,
            nrows,
        )
    }
}

/// `αAx + βy` with the column-ordered accumulation of `cgemv_cols`.
pub open spec fn cgemv_spec(
    alpha: C32,
    nrows: int,
    ncols: int,
    a: Seq<C32>,
    cs: int,
    x: Seq<C32>,
    beta: C32,
    y: Seq<C32>,
) -> Seq<C32> {
    cgemv_cols(alpha, nrows, a, cs, x, cscale_spec(beta, y), ncols as nat)
}

/// y ← αAx + βy. A is nrows×ncols at column stride `cs`; x has ncols
/// elements, y has nrows. The storage must hold A (`check_mat`) and the lengths must match.
pub fn cgemv(
    alpha: C32,
    nrows: usize,
    ncols: usize,
    a: &[C32],
    cs: usize,
    x: &[C32],
    beta: C32,
    y: &mut [C32],
)
    requires
        mat_fits(a.len() as int, nrows as int, ncols as int, cs as int),
        x@.len() == ncols,
        old(y)@.len() == nrows,
    ensures
        final(y)@ == cgemv_spec(
            alpha,
            nrows as int,
            ncols as int,
            a@,
            cs as int,
            x@,
            beta,
            old(y)@,
        ),
{
    let ghost ys = cscale_spec(beta, y@);
    cscale_y(beta, y);
    let mut j: usize = 0;
    while j < ncols
        invariant
            j <= ncols,
            mat_fits(a.len() as int, nrows as int, ncols as int, cs as int),
            x@.len() == ncols,
            y@.len() == nrows,
            ys.len() == nrows,
            y@ == cgemv_cols(alpha, nrows as int, a@, cs as int, x@, ys, j as nat),
        decreases ncols - j,
    {
        proof {
            lemma_column_in_bounds(a.len() as int, nrows as int, ncols as int, cs as int, j as int);
        }
        let t = alpha.times(x[j]);
        caxpy_at(t, a, j * cs, y, 0, nrows);
        j += 1;
    }
}

/// `βy + α·(column j of A)·x` for every column `j`, the column reduction
/// conjugated when `conj` holds.
pub open spec fn cgemv_t_spec(
    alpha: C32,
    nrows: int,
    ncols: int,
    a: Seq<C32>,
    cs: int,
    x: Seq<C32>,
    beta: C32,
    y: Seq<C32>,
    conj: bool,
) -> Seq<C32> {
    let ys = cscale_spec(beta, y);
    Seq::new(
        ncols as nat,
        |j: int| cadd(ys[j], cmul(alpha, cdot_spec(column(a, nrows, cs, j), x, conj))),
    )
}

fn cgemv_t_impl(
    alpha: C32,
    nrows: usize,
    ncols: usize,
    a: &[C32],
    cs: usize,
    x: &[C32],
    beta: C32,
    y: &mut [C32],
    conj: bool,
)
    requires
        mat_fits(a.len() as int, nrows as int, ncols as int, cs as int),
        x@.len() == nrows,
        old(y)@.len() == ncols,
    ensures
        final(y)@ == cgemv_t_spec(
            alpha,
            nrows as int,
            ncols as int,
            a@,
            cs as int,
            x@,
            beta,
            old(y)@,
            conj,
        ),
{
    let ghost ys = cscale_spec(beta, y@);
    cscale_y(beta, y);
    let mut j: usize = 0;
    while j < ncols
        invariant
            j <= ncols,
            mat_fits(a.len() as int, nrows as int, ncols as int, cs as int),
            x@.len() == nrows,
            y@.len() == ncols,
            ys.len() == ncols,
            forall|k: int|
                0 <= k < ncols ==> #[trigger] y@[k] == if k < j {
                    cadd(ys[k], cmul(alpha, cdot_spec(column(a@, nrows as int, cs as int, k), x@, conj)))
                } else {
                    ys[k]
                },
        decreases ncols - j,
    {
        proof {
            lemma_column_in_bounds(a.len() as int, nrows as int, ncols as int, cs as int, j as int);
        }
        let d = cdot_at(a, j * cs, x, 0, nrows, conj);
        assert(x@.subrange(0, nrows as int) =~= x@);
        let v = y[j].plus(alpha.times(d));
        y[j] = v;
        j += 1;
    }
    assert(y@ =~= cgemv_t_spec(alpha, nrows as int, ncols as int, a@, cs as int, x@, beta, old(y)@, conj));
}

/// y ← αAᵀx + βy (unconjugated transpose). A is nrows×ncols at column
/// stride `cs`; x has nrows elements, y has ncols. The storage must hold A (`check_mat`) and the lengths must match.
pub fn cgemv_t(
    alpha: C32,
    nrows: usize,
    ncols: usize,
    a: &[C32],
    cs: usize,
    x: &[C32],
    beta: C32,
    y: &mut [C32],
)
    requires
        mat_fits(a.len() as int, nrows as int, ncols as int, cs as int),
        x@.len() == nrows,
        old(y)@.len() == ncols,
    ensures
        final(y)@ == cgemv_t_spec(
            alpha,
            nrows as int,
            ncols as int,
            a@,
            cs as int,
            x@,
            beta,
            old(y)@,
            false,
        ),
{
    cgemv_t_impl(alpha, nrows, ncols, a, cs, x, beta, y, false);
}

/// y ← αAᴴx + βy (conjugate transpose). A is nrows×ncols at column
/// stride `cs`; x has nrows elements, y has ncols. The storage must hold A (`check_mat`) and the lengths must match.
pub fn cgemv_c(
    alpha: C32,
    nrows: usize,
    ncols: usize,
    a: &[C32],
    cs: usize,
    x: &[C32],
    beta: C32,
    y: &mut [C32],
)
    requires
        mat_fits(a.len() as int, nrows as int, ncols as int, cs as int),
        x@.len() == nrows,
        old(y)@.len() == ncols,
    ensures
        final(y)@ == cgemv_t_spec(
            alpha,
            nrows as int,
            ncols as int,
            a@,
            cs as int,
            x@,
            beta,
            old(y)@,
            true,
        ),
{
    cgemv_t_impl(alpha, nrows, ncols, a, cs, x, beta, y, true);
}


/// The conjugate-transpose product of A is the transpose product of the
/// elementwise conjugate of A: the conjugation lands on the matrix
/// elements, in the same reductions.
pub proof fn lemma_cgemv_c_is_cgemv_t_of_conj(
    alpha: C32,
    nrows: int,
    ncols: int,
    a: Seq<C32>,
    cs: int,
    x: Seq<C32>,
    beta: C32,
    y: Seq<C32>,
)
    requires
        0 <= nrows,
        0 <= ncols,
        mat_fits(a.len() as int, nrows, ncols, cs),
    ensures
        cgemv_t_spec(alpha, nrows, ncols, a, cs, x, beta, y, true) == cgemv_t_spec(
            alpha,
            nrows,
            ncols,
            cconj_all(a),
            cs,
            x,
            beta,
            y,
            false,
        ),
{
    assert forall|j: int| 0 <= j < ncols implies #[trigger] cdot_spec(column(a, nrows, cs, j), x, true)
        == cdot_spec(column(cconj_all(a), nrows, cs, j), x, false) by {
        lemma_column_in_bounds(a.len() as int, nrows, ncols, cs, j);
        lemma_cdotc_is_cdotu_of_conj(column(a, nrows, cs, j), x);
        assert(column(cconj_all(a), nrows, cs, j) =~= cconj_all(column(a, nrows, cs, j)));
    }
    assert(cgemv_t_spec(alpha, nrows, ncols, a, cs, x, beta, y, true) =~= cgemv_t_spec(
        alpha,
        nrows,
        ncols,
        cconj_all(a),
        cs,
        x,
        beta,
        y,
        false,
    ));
}


/// With β = 0 the old contents of `y` (stale NaN or infinity included)
/// do not reach the result: two `y` of one length give the same result,
/// in the plain and in the transpose forms.
pub proof fn lemma_cgemv_beta_zero_ignores_y(
    alpha: C32,
    nrows: int,
    ncols: int,
    a: Seq<C32>,
    cs: int,
    x: Seq<C32>,
    beta: C32,
    y1: Seq<C32>,
    y2: Seq<C32>,
    conj: bool,
)
    requires
        cis_zero(beta),
        y1.len() == y2.len(),
    ensures
        cgemv_spec(alpha, nrows, ncols, a, cs, x, beta, y1) == cgemv_spec(
            alpha,
            nrows,
            ncols,
            a,
            cs,
            x,
            beta,
            y2,
        ),
        cgemv_t_spec(alpha, nrows, ncols, a, cs, x, beta, y1, conj) == cgemv_t_spec(
            alpha,
            nrows,
            ncols,
            a,
            cs,
            x,
            beta,
            y2,
            conj,
        ),
{
    lemma_cscale_zero_forgets_one_keeps(beta, y1, y2);
}

/// Row `i` of the product added to `y0`, column after column:
/// `((y0 + (α·x[0])·a[i, 0]) + (α·x[1])·a[i, 1]) + …` over the first `m`
/// columns.
pub open spec fn cgemv_row(alpha: C32, a: Seq<C32>, cs: int, x: Seq<C32>, y0: C32, i: int, m: nat) -> C32
    decreases m,
{
    if m == 0 {
        y0
    } else {
        cadd(cgemv_row(alpha, a, cs, x, y0, i, (m - 1) as nat), cmul(cmul(alpha, x[m - 1]), a[(m - 1) * cs + i]))
    }
}

/// After `m` columns every row holds its own row sum.
proof fn lemma_cgemv_cols_rows(alpha: C32, nrows: int, a: Seq<C32>, cs: int, x: Seq<C32>, y: Seq<C32>, m: nat)
    requires
        y.len() == nrows,
    ensures
        cgemv_cols(alpha, nrows, a, cs, x, y, m).len() == nrows,
        forall|i: int|
            0 <= i < nrows ==> #[trigger] cgemv_cols(alpha, nrows, a, cs, x, y, m)[i] == cgemv_row(
                alpha,
                a,
                cs,
                x,
                y[i],
                i,
                m,
            ),
    decreases m,
{
    if m > 0 {
        lemma_cgemv_cols_rows(alpha, nrows, a, cs, x, y, (m - 1) as nat);
    }
}

/// `cgemv` computes, for every row `i`, `β·y[i]` (the BLAS β rule) plus
/// the terms `(α·x[j])·a[i, j]` of the row added in ascending column
/// order: α scales every column's contribution, and row `i` of column `j`
/// is `a[j*cs + i]`.
pub proof fn lemma_cgemv_row_sums(
    alpha: C32,
    nrows: int,
    ncols: int,
    a: Seq<C32>,
    cs: int,
    x: Seq<C32>,
    beta: C32,
    y: Seq<C32>,
)
    requires
        y.len() == nrows,
    ensures
        cgemv_spec(alpha, nrows, ncols, a, cs, x, beta, y).len() == nrows,
        forall|i: int|
            0 <= i < nrows ==> #[trigger] cgemv_spec(alpha, nrows, ncols, a, cs, x, beta, y)[i]
                == cgemv_row(alpha, a, cs, x, cscale_spec(beta, y)[i], i, ncols as nat),
{
    lemma_cgemv_cols_rows(alpha, nrows, a, cs, x, cscale_spec(beta, y), ncols as nat);
}

/// α and x enter `cgemv` only through the column scalars `α·x[j]`: two
/// calls whose scalars agree give the same result.
pub proof fn lemma_cgemv_column_scalars(
    alpha1: C32,
    x1: Seq<C32>,
    alpha2: C32,
    x2: Seq<C32>,
    nrows: int,
    ncols: int,
    a: Seq<C32>,
    cs: int,
    beta: C32,
    y: Seq<C32>,
)
    requires
        0 <= ncols,
        y.len() == nrows,
        forall|j: int| 0 <= j < ncols ==> #[trigger] cmul(alpha1, x1[j]) == cmul(alpha2, x2[j]),
    ensures
        cgemv_spec(alpha1, nrows, ncols, a, cs, x1, beta, y) == cgemv_spec(alpha2, nrows, ncols, a, cs, x2, beta, y),
{
    lemma_cgemv_row_sums(alpha1, nrows, ncols, a, cs, x1, beta, y);
    lemma_cgemv_row_sums(alpha2, nrows, ncols, a, cs, x2, beta, y);
    assert forall|i: int| 0 <= i < nrows implies cgemv_row(alpha1, a, cs, x1, cscale_spec(beta, y)[i], i, ncols as nat)
        == cgemv_row(alpha2, a, cs, x2, cscale_spec(beta, y)[i], i, ncols as nat) by {
        lemma_cgemv_row_scalars(alpha1, x1, alpha2, x2, a, cs, cscale_spec(beta, y)[i], i, ncols as nat);
    }
    assert(cgemv_spec(alpha1, nrows, ncols, a, cs, x1, beta, y) =~= cgemv_spec(alpha2, nrows, ncols, a, cs, x2, beta, y));
}

/// Row sums with agreeing column scalars agree.
proof fn lemma_cgemv_row_scalars(
    alpha1: C32,
    x1: Seq<C32>,
    alpha2: C32,
    x2: Seq<C32>,
    a: Seq<C32>,
    cs: int,
    y0: C32,
    i: int,
    m: nat,
)
    requires
        forall|j: int| 0 <= j < m ==> #[trigger] cmul(alpha1, x1[j]) == cmul(alpha2, x2[j]),
    ensures
        cgemv_row(alpha1, a, cs, x1, y0, i, m) == cgemv_row(alpha2, a, cs, x2, y0, i, m),
    decreases m,
{
    if m > 0 {
        lemma_cgemv_row_scalars(alpha1, x1, alpha2, x2, a, cs, y0, i, (m - 1) as nat);
        assert(cmul(alpha1, x1[m - 1]) == cmul(alpha2, x2[m - 1]));
    }
}

/// `cgemv_t` and `cgemv_c` give one entry per column: entry `j` is
/// `β·y[j]` (the BLAS β rule) plus `α·d`, where `d` is the product of the
/// stored column `j`, `a[j*cs .. j*cs + nrows]`, with `x` as `cdotu`
/// reduces it (`cgemv_t`) or as `cdotc` reduces it, the column conjugated
/// (`cgemv_c`).
pub proof fn lemma_cgemv_t_entries(
    alpha: C32,
    nrows: int,
    ncols: int,
    a: Seq<C32>,
    cs: int,
    x: Seq<C32>,
    beta: C32,
    y: Seq<C32>,
    conj: bool,
)
    requires
        0 <= ncols,
    ensures
        cgemv_t_spec(alpha, nrows, ncols, a, cs, x, beta, y, conj).len() == ncols,
        forall|j: int|
            0 <= j < ncols ==> #[trigger] cgemv_t_spec(alpha, nrows, ncols, a, cs, x, beta, y, conj)[j] == cadd(
                cscale_spec(beta, y)[j],
                cmul(alpha, cdot_spec(a.subrange(j * cs, j * cs + nrows), x, conj)),
            ),
{
}

} // verus!
