//! `dgemv` — matrix × vector: y ← αAx + βy (and the transpose twin
//! y ← αAᵀx + βy), the values given as binary64 bit patterns. The
//! columns are added one after the other, each as a `daxpy` stream with
//! scalar α·x[j] (the per-element rounding sequence of the plain column
//! loop); the transpose form is one `ddot` reduction per column.

use super::{column, dscale_spec, dscale_y, lemma_column_in_bounds, mat_fits};
use crate::ieee::{dadd, dmul, ieee_dadd, ieee_dmul};
use crate::L1::ddot::{ddot_at, ddot_spec};
use crate::L1::daxpy::{daxpy_at, daxpy_range};
use vstd::prelude::*;

verus! {

/// `y` after the first `m` columns were added: column `j` adds
/// `a[i, j]·(α·x[j])` to every `y[i]`, columns in ascending order.
pub open spec fn dgemv_cols(
    alpha: u64,
    nrows: int,
    a: Seq<u64>,
    cs: int,
    x: Seq<u64>,
    y: Seq<u64>,
    m: nat,
) -> Seq<u64>
    decreases m,
{
    if m == 0 {
        y
    } else {
        daxpy_range(
            dmul(alpha, x[m - 1]),
            a,
            (m - 1) * cs,
            dgemv_cols(alpha, nrows, a, cs, x, y, (m - 1) as nat),
            0,
            nrows,
        )
    }
}

/// `αAx + βy` with the column-ordered accumulation of `dgemv_cols`.
pub open spec fn dgemv_spec(
    alpha: u64,
    nrows: int,
    ncols: int,
    a: Seq<u64>,
    cs: int,
    x: Seq<u64>,
    beta: u64,
    y: Seq<u64>,
) -> Seq<u64> {
    dgemv_cols(alpha, nrows, a, cs, x, dscale_spec(beta, y), ncols as nat)
}

/// y ← αAx + βy. A is nrows×ncols at column stride `cs`; x has ncols
/// elements, y has nrows. The storage must hold A (`check_mat`) and the lengths must match.
pub fn dgemv(
    alpha: u64,
    nrows: usize,
    ncols: usize,
    a: &[u64],
    cs: usize,
    x: &[u64],
    beta: u64,
    y: &mut [u64],
)
    requires
        mat_fits(a.len() as int, nrows as int, ncols as int, cs as int),
        x@.len() == ncols,
        old(y)@.len() == nrows,
    ensures
        final(y)@ == dgemv_spec(
            alpha,
            nrows as int,
            ncols as int,
            a@,
            cs as int,
            x@,
            beta,
            old(y)@,
        ),
{
    let ghost ys = dscale_spec(beta, y@);
    dscale_y(beta, y);
    let mut j: usize = 0;
    while j < ncols
        invariant
            j <= ncols,
            mat_fits(a.len() as int, nrows as int, ncols as int, cs as int),
            x@.len() == ncols,
            y@.len() == nrows,
            ys.len() == nrows,
            y@ == dgemv_cols(alpha, nrows as int, a@, cs as int, x@, ys, j as nat),
        decreases ncols - j,
    {
        proof {
            lemma_column_in_bounds(a.len() as int, nrows as int, ncols as int, cs as int, j as int);
        }
        let t = ieee_dmul(alpha, x[j]);
        daxpy_at(t, a, j * cs, y, 0, nrows);
        j += 1;
    }
}

/// `βy + α·((column j of A)·x)` for every column `j`.
pub open spec fn dgemv_t_spec(
    alpha: u64,
    nrows: int,
    ncols: int,
    a: Seq<u64>,
    cs: int,
    x: Seq<u64>,
    beta: u64,
    y: Seq<u64>,
) -> Seq<u64> {
    let ys = dscale_spec(beta, y);
    Seq::new(ncols as nat, |j: int| dadd(ys[j], dmul(alpha, ddot_spec(column(a, nrows, cs, j), x))))
}

/// y ← αAᵀx + βy. A is nrows×ncols at column stride `cs`; x has nrows
/// elements, y has ncols. The storage must hold A (`check_mat`) and the lengths must match.
pub fn dgemv_t(
    alpha: u64,
    nrows: usize,
    ncols: usize,
    a: &[u64],
    cs: usize,
    x: &[u64],
    beta: u64,
    y: &mut [u64],
)
    requires
        mat_fits(a.len() as int, nrows as int, ncols as int, cs as int),
        x@.len() == nrows,
        old(y)@.len() == ncols,
    ensures
        final(y)@ == dgemv_t_spec(
            alpha,
            nrows as int,
            ncols as int,
            a@,
            cs as int,
            x@,
            beta,
            old(y)@,
        ),
{
    let ghost ys = dscale_spec(beta, y@);
    dscale_y(beta, y);
    let mut j: usize = 0;
    while j < ncols
        invariant
            j <= ncols,
            mat_fits(a.len() as int, nrows as int, ncols as int, cs as int),
            x@.len() == nrows,
            y@.len() == ncols,
            ys.len() == ncols,
            forall|k: int|
                0 <= k < ncols ==> #[trigger] y@[k] == if k < j {
                    dadd(ys[k], dmul(alpha, ddot_spec(column(a@, nrows as int, cs as int, k), x@)))
                } else {
                    ys[k]
                },
        decreases ncols - j,
    {
        proof {
            lemma_column_in_bounds(a.len() as int, nrows as int, ncols as int, cs as int, j as int);
        }
        let d = ddot_at(a, j * cs, x, 0, nrows);
        assert(x@.subrange(0, nrows as int) =~= x@);
        let v = ieee_dadd(y[j], ieee_dmul(alpha, d));
        y[j] = v;
        j += 1;
    }
    assert(y@ =~= dgemv_t_spec(alpha, nrows as int, ncols as int, a@, cs as int, x@, beta, old(y)@));
}

/// Row `i` of the product added to `y0`, column after column:
/// `((y0 + a[i, 0]·(α·x[0])) + a[i, 1]·(α·x[1])) + …` over the first `m`
/// columns.
pub open spec fn dgemv_row(alpha: u64, a: Seq<u64>, cs: int, x: Seq<u64>, y0: u64, i: int, m: nat) -> u64
    decreases m,
{
    if m == 0 {
        y0
    } else {
        dadd(dgemv_row(alpha, a, cs, x, y0, i, (m - 1) as nat), dmul(a[(m - 1) * cs + i], dmul(alpha, x[m - 1])))
    }
}

/// After `m` columns every row holds its own row sum.
proof fn lemma_dgemv_cols_rows(alpha: u64, nrows: int, a: Seq<u64>, cs: int, x: Seq<u64>, y: Seq<u64>, m: nat)
    requires
        y.len() == nrows,
    ensures
        dgemv_cols(alpha, nrows, a, cs, x, y, m).len() == nrows,
        forall|i: int|
            0 <= i < nrows ==> #[trigger] dgemv_cols(alpha, nrows, a, cs, x, y, m)[i] == dgemv_row(
                alpha,
                a,
                cs,
                x,
                y[i],
                i,
                m,
            ),
    decreases m,
{
    if m > 0 {
        lemma_dgemv_cols_rows(alpha, nrows, a, cs, x, y, (m - 1) as nat);
    }
}

/// `dgemv` computes, for every row `i`, `β·y[i]` (the BLAS β rule) plus
/// the terms `a[i, j]·(α·x[j])` of the row added in ascending column
/// order: α scales every column's contribution, and row `i` of column `j`
/// is `a[j*cs + i]`.
pub proof fn lemma_dgemv_row_sums(
    alpha: u64,
    nrows: int,
    ncols: int,
    a: Seq<u64>,
    cs: int,
    x: Seq<u64>,
    beta: u64,
    y: Seq<u64>,
)
    requires
        y.len() == nrows,
    ensures
        dgemv_spec(alpha, nrows, ncols, a, cs, x, beta, y).len() == nrows,
        forall|i: int|
            0 <= i < nrows ==> #[trigger] dgemv_spec(alpha, nrows, ncols, a, cs, x, beta, y)[i]
                == dgemv_row(alpha, a, cs, x, dscale_spec(beta, y)[i], i, ncols as nat),
{
    lemma_dgemv_cols_rows(alpha, nrows, a, cs, x, dscale_spec(beta, y), ncols as nat);
}

/// α and x enter `dgemv` only through the column scalars `α·x[j]`: two
/// calls whose scalars agree give the same result.
pub proof fn lemma_dgemv_column_scalars(
    alpha1: u64,
    x1: Seq<u64>,
    alpha2: u64,
    x2: Seq<u64>,
    nrows: int,
    ncols: int,
    a: Seq<u64>,
    cs: int,
    beta: u64,
    y: Seq<u64>,
)
    requires
        0 <= ncols,
        y.len() == nrows,
        forall|j: int| 0 <= j < ncols ==> #[trigger] dmul(alpha1, x1[j]) == dmul(alpha2, x2[j]),
    ensures
        dgemv_spec(alpha1, nrows, ncols, a, cs, x1, beta, y) == dgemv_spec(alpha2, nrows, ncols, a, cs, x2, beta, y),
{
    lemma_dgemv_row_sums(alpha1, nrows, ncols, a, cs, x1, beta, y);
    lemma_dgemv_row_sums(alpha2, nrows, ncols, a, cs, x2, beta, y);
    assert forall|i: int| 0 <= i < nrows implies dgemv_row(alpha1, a, cs, x1, dscale_spec(beta, y)[i], i, ncols as nat)
        == dgemv_row(alpha2, a, cs, x2, dscale_spec(beta, y)[i], i, ncols as nat) by {
        lemma_dgemv_row_scalars(alpha1, x1, alpha2, x2, a, cs, dscale_spec(beta, y)[i], i, ncols as nat);
    }
    assert(dgemv_spec(alpha1, nrows, ncols, a, cs, x1, beta, y) =~= dgemv_spec(alpha2, nrows, ncols, a, cs, x2, beta, y));
}

/// Row sums with agreeing column scalars agree.
proof fn lemma_dgemv_row_scalars(
    alpha1: u64,
    x1: Seq<u64>,
    alpha2: u64,
    x2: Seq<u64>,
    a: Seq<u64>,
    cs: int,
    y0: u64,
    i: int,
    m: nat,
)
    requires
        forall|j: int| 0 <= j < m ==> #[trigger] dmul(alpha1, x1[j]) == dmul(alpha2, x2[j]),
    ensures
        dgemv_row(alpha1, a, cs, x1, y0, i, m) == dgemv_row(alpha2, a, cs, x2, y0, i, m),
    decreases m,
{
    if m > 0 {
        lemma_dgemv_row_scalars(alpha1, x1, alpha2, x2, a, cs, y0, i, (m - 1) as nat);
        assert(dmul(alpha1, x1[m - 1]) == dmul(alpha2, x2[m - 1]));
    }
}

/// `dgemv_t` gives one entry per column: entry `j` is `β·y[j]` (the BLAS
/// β rule) plus `α·d`, where `d` is the dot product of the stored column
/// `j`, `a[j*cs .. j*cs + nrows]`, with `x`, reduced as `ddot` reduces it.
pub proof fn lemma_dgemv_t_entries(
    alpha: u64,
    nrows: int,
    ncols: int,
    a: Seq<u64>,
    cs: int,
    x: Seq<u64>,
    beta: u64,
    y: Seq<u64>,
)
    requires
        0 <= ncols,
    ensures
        dgemv_t_spec(alpha, nrows, ncols, a, cs, x, beta, y).len() == ncols,
        forall|j: int|
            0 <= j < ncols ==> #[trigger] dgemv_t_spec(alpha, nrows, ncols, a, cs, x, beta, y)[j] == dadd(
                dscale_spec(beta, y)[j],
                dmul(alpha, ddot_spec(a.subrange(j * cs, j * cs + nrows), x)),
            ),
{
}

} // verus!
