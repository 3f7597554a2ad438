//! `zgemv` — complex matrix × vector: y ← αAx + βy, with the transpose
//! twin (Aᵀx, unconjugated) and the conjugate-transpose twin (Aᴴx).
//!
//! The no-transpose form adds the columns one after the other, each as
//! a `zaxpy` stream with scalar α·x[j] (the per-element rounding
//! sequence of the plain column loop); the transpose forms are one
//! `zdotu`/`zdotc` reduction per column.

use super::{
    column, lemma_column_in_bounds, lemma_zscale_zero_forgets_one_keeps, mat_fits, zscale_spec,
    zscale_y,
};
use crate::c64::{zadd, zis_zero, zmul, C64};
use crate::L1::zaxpy::{zaxpy_at, zaxpy_range};
use crate::L1::zdot::{lemma_zdotc_is_zdotu_of_conj, zconj_all, zdot_at, zdot_spec};
use vstd::prelude::*;

verus! {

/// `y` after the first `m` columns were added: column `j` adds
/// `(α·x[j])·a[i, j]` to every `y[i]`, columns in ascending order.
pub open spec fn zgemv_cols(
    alpha: C64,
    nrows: int,
    a: Seq<C64>,
    cs: int,
    x: Seq<C64>,
    y: Seq<C64>,
    m: nat,
) -> Seq<C64>
    decreases m,
{
    if m == 0 {
        y
    } else {
        zaxpy_range(
            zmul(alpha, x[m - 1]),
            a,
            (m - 1) * cs,
            zgemv_cols(alpha, nrows, a, cs, x, y, (m - 1) as nat),
            0,
            nrows,
        )
    }
}

/// `αAx + βy` with the column-ordered accumulation of `zgemv_cols`.
pub open spec fn zgemv_spec(
    alpha: C64,
    nrows: int,
    ncols: int,
    a: Seq<C64>,
    cs: int,
    x: Seq<C64>,
    beta: C64,
    y: Seq<C64>,
) -> Seq<C64> {
    zgemv_cols(alpha, nrows, a, cs, x, zscale_spec(beta, y), ncols as nat)
}

/// y ← αAx + βy. A is nrows×ncols at column stride `cs`; x has ncols
/// elements, y has nrows. The storage must hold A (`check_mat`) and the lengths must match.
pub fn zgemv(
    alpha: C64,
    nrows: usize,
    ncols: usize,
    a: &[C64],
    cs: usize,
    x: &[C64],
    beta: C64,
    y: &mut [C64],
)
    requires
        mat_fits(a.len() as int, nrows as int, ncols as int, cs as int),
        x@.len() == ncols,
        old(y)@.len() == nrows,
    ensures
        final(y)@ == zgemv_spec(
            alpha,
            nrows as int,
            ncols as int,
            a@,
            cs as int,
            x@,
            beta,
            old(y)@,
        ),
{
    let ghost ys = zscale_spec(beta, y@);
    zscale_y(beta, y);
    let mut j: usize = 0;
    while j < ncols
        invariant
            j <= ncols,
            mat_fits(a.len() as int, nrows as int, ncols as int, cs as int),
            x@.len() == ncols,
            y@.len() == nrows,
            ys.len() == nrows,
            y@ == zgemv_cols(alpha, nrows as int, a@, cs as int, x@, ys, j as nat),
        decreases ncols - j,
    {
        proof {
            lemma_column_in_bounds(a.len() as int, nrows as int, ncols as int, cs as int, j as int);
        }
        let t = alpha.times(x[j]);
        zaxpy_at(t, a, j * cs, y, 0, nrows);
        j += 1;
    }
}

/// `βy + α·(column j of A)·x` for every column `j`, the column reduction
/// conjugated when `conj` holds.
pub open spec fn zgemv_t_spec(
    alpha: C64,
    nrows: int,
    ncols: int,
    a: Seq<C64>,
    cs: int,
    x: Seq<C64>,
    beta: C64,
    y: Seq<C64>,
    conj: bool,
) -> Seq<C64> {
    let ys = zscale_spec(beta, y);
    Seq::new(
        ncols as nat,
        |j: int| zadd(ys[j], zmul(alpha, zdot_spec(column(a, nrows, cs, j), x, conj))),
    )
}

fn zgemv_t_impl(
    alpha: C64,
    nrows: usize,
    ncols: usize,
    a: &[C64],
    cs: usize,
    x: &[C64],
    beta: C64,
    y: &mut [C64],
    conj: bool,
)
    requires
        mat_fits(a.len() as int, nrows as int, ncols as int, cs as int),
        x@.len() == nrows,
        old(y)@.len() == ncols,
    ensures
        final(y)@ == zgemv_t_spec(
            alpha,
            nrows as int,
            ncols as int,
            a@,
            cs as int,
            x@,
            beta,
            old(y)@,
            conj,
        ),
{
    let ghost ys = zscale_spec(beta, y@);
    zscale_y(beta, y);
    let mut j: usize = 0;
    while j < ncols
        invariant
            j <= ncols,
            mat_fits(a.len() as int, nrows as int, ncols as int, cs as int),
            x@.len() == nrows,
            y@.len() == ncols,
            ys.len() == ncols,
            forall|k: int|
                0 <= k < ncols ==> #[trigger] y@[k] == if k < j {
                    zadd(ys[k], zmul(alpha, zdot_spec(column(a@, nrows as int, cs as int, k), x@, conj)))
                } else {
                    ys[k]
                },
        decreases ncols - j,
    {
        proof {
            lemma_column_in_bounds(a.len() as int, nrows as int, ncols as int, cs as int, j as int);
        }
        let d = zdot_at(a, j * cs, x, 0, nrows, conj);
        assert(x@.subrange(0, nrows as int) =~= x@);
        let v = y[j].plus(alpha.times(d));
        y[j] = v;
        j += 1;
    }
    assert(y@ =~= zgemv_t_spec(alpha, nrows as int, ncols as int, a@, cs as int, x@, beta, old(y)@, conj));
}

/// y ← αAᵀx + βy (unconjugated transpose). A is nrows×ncols at column
/// stride `cs`; x has nrows elements, y has ncols. The storage must hold A (`check_mat`) and the lengths must match.
pub fn zgemv_t(
    alpha: C64,
    nrows: usize,
    ncols: usize,
    a: &[C64],
    cs: usize,
    x: &[C64],
    beta: C64,
    y: &mut [C64],
)
    requires
        mat_fits(a.len() as int, nrows as int, ncols as int, cs as int),
        x@.len() == nrows,
        old(y)@.len() == ncols,
    ensures
        final(y)@ == zgemv_t_spec(
            alpha,
            nrows as int,
            ncols as int,
            a@,
            cs as int,
            x@,
            beta,
            old(y)@,
            false,
        ),
{
    zgemv_t_impl(alpha, nrows, ncols, a, cs, x, beta, y, false);
}

/// y ← αAᴴx + βy (conjugate transpose). A is nrows×ncols at column
/// stride `cs`; x has nrows elements, y has ncols. The storage must hold A (`check_mat`) and the lengths must match.
pub fn zgemv_c(
    alpha: C64,
    nrows: usize,
    ncols: usize,
    a: &[C64],
    cs: usize,
    x: &[C64],
    beta: C64,
    y: &mut [C64],
)
    requires
        mat_fits(a.len() as int, nrows as int, ncols as int, cs as int),
        x@.len() == nrows,
        old(y)@.len() == ncols,
    ensures
        final(y)@ == zgemv_t_spec(
            alpha,
            nrows as int,
            ncols as int,
            a@,
            cs as int,
            x@,
            beta,
            old(y)@,
            true,
        ),
{
    zgemv_t_impl(alpha, nrows, ncols, a, cs, x, beta, y, true);
}


/// The conjugate-transpose product of A is the transpose product of the
/// elementwise conjugate of A: the conjugation lands on the matrix
/// elements, in the same reductions.
pub proof fn lemma_zgemv_c_is_zgemv_t_of_conj(
    alpha: C64,
    nrows: int,
    ncols: int,
    a: Seq<C64>,
    cs: int,
    x: Seq<C64>,
    beta: C64,
    y: Seq<C64>,
)
    requires
        0 <= nrows,
        0 <= ncols,
        mat_fits(a.len() as int, nrows, ncols, cs),
    ensures
        zgemv_t_spec(alpha, nrows, ncols, a, cs, x, beta, y, true) == zgemv_t_spec(
            alpha,
            nrows,
            ncols,
            zconj_all(a),
            cs,
            x,
            beta,
            y,
            false,
        ),
{
    assert forall|j: int| 0 <= j < ncols implies #[trigger] zdot_spec(column(a, nrows, cs, j), x, true)
        == zdot_spec(column(zconj_all(a), nrows, cs, j), x, false) by {
        lemma_column_in_bounds(a.len() as int, nrows, ncols, cs, j);
        lemma_zdotc_is_zdotu_of_conj(column(a, nrows, cs, j), x);
        assert(column(zconj_all(a), nrows, cs, j) =~= zconj_all(column(a, nrows, cs, j)));
    }
    assert(zgemv_t_spec(alpha, nrows, ncols, a, cs, x, beta, y, true) =~= zgemv_t_spec(
        alpha,
        nrows,
        ncols,
        zconj_all(a),
        cs,
        x,
        beta,
        y,
        false,
    ));
}


/// With β = 0 the old contents of `y` (stale NaN or infinity included)
/// do not reach the result: two `y` of one length give the same result,
/// in the plain and in the transpose forms.
pub proof fn lemma_zgemv_beta_zero_ignores_y(
    alpha: C64,
    nrows: int,
    ncols: int,
    a: Seq<C64>,
    cs: int,
    x: Seq<C64>,
    beta: C64,
    y1: Seq<C64>,
    y2: Seq<C64>,
    conj: bool,
)
    requires
        zis_zero(beta),
        y1.len() == y2.len(),
    ensures
        zgemv_spec(alpha, nrows, ncols, a, cs, x, beta, y1) == zgemv_spec(
            alpha,
            nrows,
            ncols,
            a,
            cs,
            x,
            beta,
            y2,
        ),
        zgemv_t_spec(alpha, nrows, ncols, a, cs, x, beta, y1, conj) == zgemv_t_spec(
            alpha,
            nrows,
            ncols,
            a,
            cs,
            x,
            beta,
            y2,
            conj,
        ),
{
    lemma_zscale_zero_forgets_one_keeps(beta, y1, y2);
}

/// Row `i` of the product added to `y0`, column after column:
/// `((y0 + (α·x[0])·a[i, 0]) + (α·x[1])·a[i, 1]) + …` over the first `m`
/// columns.
pub open spec fn zgemv_row(alpha: C64, a: Seq<C64>, cs: int, x: Seq<C64>, y0: C64, i: int, m: nat) -> C64
    decreases m,
{
    if m == 0 {
        y0
    } else {
        zadd(zgemv_row(alpha, a, cs, x, y0, i, (m - 1) as nat), zmul(zmul(alpha, x[m - 1]), a[(m - 1) * cs + i]))
    }
}

/// After `m` columns every row holds its own row sum.
proof fn lemma_zgemv_cols_rows(alpha: C64, nrows: int, a: Seq<C64>, cs: int, x: Seq<C64>, y: Seq<C64>, m: nat)
    requires
        y.len() == nrows,
    ensures
        zgemv_cols(alpha, nrows, a, cs, x, y, m).len() == nrows,
        forall|i: int|
            0 <= i < nrows ==> #[trigger] zgemv_cols(alpha, nrows, a, cs, x, y, m)[i] == zgemv_row(
                alpha,
                a,
                cs,
                x,
                y[i],
                i,
                m,
            ),
    decreases m,
{
    if m > 0 {
        lemma_zgemv_cols_rows(alpha, nrows, a, cs, x, y, (m - 1) as nat);
    }
}

/// `zgemv` computes, for every row `i`, `β·y[i]` (the BLAS β rule) plus
/// the terms `(α·x[j])·a[i, j]` of the row added in ascending column
/// order: α scales every column's contribution, and row `i` of column `j`
/// is `a[j*cs + i]`.
pub proof fn lemma_zgemv_row_sums(
    alpha: C64,
    nrows: int,
    ncols: int,
    a: Seq<C64>,
    cs: int,
    x: Seq<C64>,
    beta: C64,
    y: Seq<C64>,
)
    requires
        y.len() == nrows,
    ensures
        zgemv_spec(alpha, nrows, ncols, a, cs, x, beta, y).len() == nrows,
        forall|i: int|
            0 <= i < nrows ==> #[trigger] zgemv_spec(alpha, nrows, ncols, a, cs, x, beta, y)[i]
                == zgemv_row(alpha, a, cs, x, zscale_spec(beta, y)[i], i, ncols as nat),
{
    lemma_zgemv_cols_rows(alpha, nrows, a, cs, x, zscale_spec(beta, y), ncols as nat);
}

/// α and x enter `zgemv` only through the column scalars `α·x[j]`: two
/// calls whose scalars agree give the same result.
pub proof fn lemma_zgemv_column_scalars(
    alpha1: C64,
    x1: Seq<C64>,
    alpha2: C64,
    x2: Seq<C64>,
    nrows: int,
    ncols: int,
    a: Seq<C64>,
    cs: int,
    beta: C64,
    y: Seq<C64>,
)
    requires
        0 <= ncols,
        y.len() == nrows,
        forall|j: int| 0 <= j < ncols ==> #[trigger] zmul(alpha1, x1[j]) == zmul(alpha2, x2[j]),
    ensures
        zgemv_spec(alpha1, nrows, ncols, a, cs, x1, beta, y) == zgemv_spec(alpha2, nrows, ncols, a, cs, x2, beta, y),
{
    lemma_zgemv_row_sums(alpha1, nrows, ncols, a, cs, x1, beta, y);
    lemma_zgemv_row_sums(alpha2, nrows, ncols, a, cs, x2, beta, y);
    assert forall|i: int| 0 <= i < nrows implies zgemv_row(alpha1, a, cs, x1, zscale_spec(beta, y)[i], i, ncols as nat)
        == zgemv_row(alpha2, a, cs, x2, zscale_spec(beta, y)[i], i, ncols as nat) by {
        lemma_zgemv_row_scalars(alpha1, x1, alpha2, x2, a, cs, zscale_spec(beta, y)[i], i, ncols as nat);
    }
    assert(zgemv_spec(alpha1, nrows, ncols, a, cs, x1, beta, y) =~= zgemv_spec(alpha2, nrows, ncols, a, cs, x2, beta, y));
}

/// Row sums with agreeing column scalars agree.
proof fn lemma_zgemv_row_scalars(
    alpha1: C64,
    x1: Seq<C64>,
    alpha2: C64,
    x2: Seq<C64>,
    a: Seq<C64>,
    cs: int,
    y0: C64,
    i: int,
    m: nat,
)
    requires
        forall|j: int| 0 <= j < m ==> #[trigger] zmul(alpha1, x1[j]) == zmul(alpha2, x2[j]),
    ensures
        zgemv_row(alpha1, a, cs, x1, y0, i, m) == zgemv_row(alpha2, a, cs, x2, y0, i, m),
    decreases m,
{
    if m > 0 {
        lemma_zgemv_row_scalars(alpha1, x1, alpha2, x2, a, cs, y0, i, (m - 1) as nat);
        assert(zmul(alpha1, x1[m - 1]) == zmul(alpha2, x2[m - 1]));
    }
}

/// `zgemv_t` and `zgemv_c` give one entry per column: entry `j` is
/// `β·y[j]` (the BLAS β rule) plus `α·d`, where `d` is the product of the
/// stored column `j`, `a[j*cs .. j*cs + nrows]`, with `x` as `zdotu`
/// reduces it (`zgemv_t`) or as `zdotc` reduces it, the column conjugated
/// (`zgemv_c`).
pub proof fn lemma_zgemv_t_entries(
    alpha: C64,
    nrows: int,
    ncols: int,
    a: Seq<C64>,
    cs: int,
    x: Seq<C64>,
    beta: C64,
    y: Seq<C64>,
    conj: bool,
)
    requires
        0 <= ncols,
    ensures
        zgemv_t_spec(alpha, nrows, ncols, a, cs, x, beta, y, conj).len() == ncols,
        forall|j: int|
            0 <= j < ncols ==> #[trigger] zgemv_t_spec(alpha, nrows, ncols, a, cs, x, beta, y, conj)[j] == zadd(
                zscale_spec(beta, y)[j],
                zmul(alpha, zdot_spec(a.subrange(j * cs, j * cs + nrows), x, conj)),
            ),
{
}

} // verus!
