//! `sgemv` — matrix × vector: y ← αAx + βy (and the transpose twin
//! y ← αAᵀx + βy), the values given as binary32 bit patterns. The
//! columns are added one after the other, each as a `saxpy` stream with
//! scalar α·x[j] (the per-element rounding sequence of the plain column
//! loop); the transpose form is one `sdot` reduction per column.

use super::{column, sscale_spec, sscale_y, lemma_column_in_bounds, mat_fits};
use crate::ieee::{sadd, smul, ieee_sadd, ieee_smul};
use crate::L1::sdot::{sdot_at, sdot_spec};
use crate::L1::saxpy::{saxpy_at, saxpy_range};
use vstd::prelude::*;

verus! {

/// `y` after the first `m` columns were added: column `j` adds
/// `a[i, j]·(α·x[j])` to every `y[i]`, columns in ascending order.
pub open spec fn sgemv_cols(
    alpha: u32,
    nrows: int,
    a: Seq<u32>,
    cs: int,
    x: Seq<u32>,
    y: Seq<u32>,
    m: nat,
) -> Seq<u32>
    decreases m,
{
    if m == 0 {
        y
    } else {
        saxpy_range(
            smul(alpha, x[m - 1]),
            a,
            (m - 1) * cs,
            sgemv_cols(alpha, nrows, a, cs, x, y, (m - 1) as nat),
            0,
            nrows,
        )
    }
}

/// `αAx + βy` with the column-ordered accumulation of `sgemv_cols`.
pub open spec fn sgemv_spec(
    alpha: u32,
    nrows: int,
    ncols: int,
    a: Seq<u32>,
    cs: int,
    x: Seq<u32>,
    beta: u32,
    y: Seq<u32>,
) -> Seq<u32> {
    sgemv_cols(alpha, nrows, a, cs, x, sscale_spec(beta, y), ncols as nat)
}

/// y ← αAx + βy. A is nrows×ncols at column stride `cs`; x has ncols
/// elements, y has nrows. The storage must hold A (`check_mat`) and the lengths must match.
pub fn sgemv(
    alpha: u32,
    nrows: usize,
    ncols: usize,
    a: &[u32],
    cs: usize,
    x: &[u32],
    beta: u32,
    y: &mut [u32],
)
    requires
        mat_fits(a.len() as int, nrows as int, ncols as int, cs as int),
        x@.len() == ncols,
        old(y)@.len() == nrows,
    ensures
        final(y)@ == sgemv_spec(
            alpha,
            nrows as int,
            ncols as int,
            a@,
            cs as int,
            x@,
            beta,
            old(y)@,
        ),
{
    let ghost ys = sscale_spec(beta, y@);
    sscale_y(beta, y);
    let mut j: usize = 0;
    while j < ncols
        invariant
            j <= ncols,
            mat_fits(a.len() as int, nrows as int, ncols as int, cs as int),
            x@.len() == ncols,
            y@.len() == nrows,
            ys.len() == nrows,
            y@ == sgemv_cols(alpha, nrows as int, a@, cs as int, x@, ys, j as nat),
        decreases ncols - j,
    {
        proof {
            lemma_column_in_bounds(a.len() as int, nrows as int, ncols as int, cs as int, j as int);
        }
        let t = ieee_smul(alpha, x[j]);
        saxpy_at(t, a, j * cs, y, 0, nrows);
        j += 1;
    }
}

/// `βy + α·((column j of A)·x)` for every column `j`.
pub open spec fn sgemv_t_spec(
    alpha: u32,
    nrows: int,
    ncols: int,
    a: Seq<u32>,
    cs: int,
    x: Seq<u32>,
    beta: u32,
    y: Seq<u32>,
) -> Seq<u32> {
    let ys = sscale_spec(beta, y);
    Seq::new(ncols as nat, |j: int| sadd(ys[j], smul(alpha, sdot_spec(column(a, nrows, cs, j), x))))
}

/// y ← αAᵀx + βy. A is nrows×ncols at column stride `cs`; x has nrows
/// elements, y has ncols. The storage must hold A (`check_mat`) and the lengths must match.
pub fn sgemv_t(
    alpha: u32,
    nrows: usize,
    ncols: usize,
    a: &[u32],
    cs: usize,
    x: &[u32],
    beta: u32,
    y: &mut [u32],
)
    requires
        mat_fits(a.len() as int, nrows as int, ncols as int, cs as int),
        x@.len() == nrows,
        old(y)@.len() == ncols,
    ensures
        final(y)@ == sgemv_t_spec(
            alpha,
            nrows as int,
            ncols as int,
            a@,
            cs as int,
            x@,
            beta,
            old(y)@,
        ),
{
    let ghost ys = sscale_spec(beta, y@);
    sscale_y(beta, y);
    let mut j: usize = 0;
    while j < ncols
        invariant
            j <= ncols,
            mat_fits(a.len() as int, nrows as int, ncols as int, cs as int),
            x@.len() == nrows,
            y@.len() == ncols,
            ys.len() == ncols,
            forall|k: int|
                0 <= k < ncols ==> #[trigger] y@[k] == if k < j {
                    sadd(ys[k], smul(alpha, sdot_spec(column(a@, nrows as int, cs as int, k), x@)))
                } else {
                    ys[k]
                },
        decreases ncols - j,
    {
        proof {
            lemma_column_in_bounds(a.len() as int, nrows as int, ncols as int, cs as int, j as int);
        }
        let d = sdot_at(a, j * cs, x, 0, nrows);
        assert(x@.subrange(0, nrows as int) =~= x@);
        let v = ieee_sadd(y[j], ieee_smul(alpha, d));
        y[j] = v;
        j += 1;
    }
    assert(y@ =~= sgemv_t_spec(alpha, nrows as int, ncols as int, a@, cs as int, x@, beta, old(y)@));
}

/// Row `i` of the product added to `y0`, column after column:
/// `((y0 + a[i, 0]·(α·x[0])) + a[i, 1]·(α·x[1])) + …` over the first `m`
/// columns.
pub open spec fn sgemv_row(alpha: u32, a: Seq<u32>, cs: int, x: Seq<u32>, y0: u32, i: int, m: nat) -> u32
    decreases m,
{
    if m == 0 {
        y0
    } else {
        sadd(sgemv_row(alpha, a, cs, x, y0, i, (m - 1) as nat), smul(a[(m - 1) * cs + i], smul(alpha, x[m - 1])))
    }
}

/// After `m` columns every row holds its own row sum.
proof fn lemma_sgemv_cols_rows(alpha: u32, nrows: int, a: Seq<u32>, cs: int, x: Seq<u32>, y: Seq<u32>, m: nat)
    requires
        y.len() == nrows,
    ensures
        sgemv_cols(alpha, nrows, a, cs, x, y, m).len() == nrows,
        forall|i: int|
            0 <= i < nrows ==> #[trigger] sgemv_cols(alpha, nrows, a, cs, x, y, m)[i] == sgemv_row(
                alpha,
                a,
                cs,
                x,
                y[i],
                i,
                m,
            ),
    decreases m,
{
    if m > 0 {
        lemma_sgemv_cols_rows(alpha, nrows, a, cs, x, y, (m - 1) as nat);
    }
}

/// `sgemv` computes, for every row `i`, `β·y[i]` (the BLAS β rule) plus
/// the terms `a[i, j]·(α·x[j])` of the row added in ascending column
/// order: α scales every column's contribution, and row `i` of column `j`
/// is `a[j*cs + i]`.
pub proof fn lemma_sgemv_row_sums(
    alpha: u32,
    nrows: int,
    ncols: int,
    a: Seq<u32>,
    cs: int,
    x: Seq<u32>,
    beta: u32,
    y: Seq<u32>,
)
    requires
        y.len() == nrows,
    ensures
        sgemv_spec(alpha, nrows, ncols, a, cs, x, beta, y).len() == nrows,
        forall|i: int|
            0 <= i < nrows ==> #[trigger] sgemv_spec(alpha, nrows, ncols, a, cs, x, beta, y)[i]
                == sgemv_row(alpha, a, cs, x, sscale_spec(beta, y)[i], i, ncols as nat),
{
    lemma_sgemv_cols_rows(alpha, nrows, a, cs, x, sscale_spec(beta, y), ncols as nat);
}

/// α and x enter `sgemv` only through the column scalars `α·x[j]`: two
/// calls whose scalars agree give the same result.
pub proof fn lemma_sgemv_column_scalars(
    alpha1: u32,
    x1: Seq<u32>,
    alpha2: u32,
    x2: Seq<u32>,
    nrows: int,
    ncols: int,
    a: Seq<u32>,
    cs: int,
    beta: u32,
    y: Seq<u32>,
)
    requires
        0 <= ncols,
        y.len() == nrows,
        forall|j: int| 0 <= j < ncols ==> #[trigger] smul(alpha1, x1[j]) == smul(alpha2, x2[j]),
    ensures
        sgemv_spec(alpha1, nrows, ncols, a, cs, x1, beta, y) == sgemv_spec(alpha2, nrows, ncols, a, cs, x2, beta, y),
{
    lemma_sgemv_row_sums(alpha1, nrows, ncols, a, cs, x1, beta, y);
    lemma_sgemv_row_sums(alpha2, nrows, ncols, a, cs, x2, beta, y);
    assert forall|i: int| 0 <= i < nrows implies sgemv_row(alpha1, a, cs, x1, sscale_spec(beta, y)[i], i, ncols as nat)
        == sgemv_row(alpha2, a, cs, x2, sscale_spec(beta, y)[i], i, ncols as nat) by {
        lemma_sgemv_row_scalars(alpha1, x1, alpha2, x2, a, cs, sscale_spec(beta, y)[i], i, ncols as nat);
    }
    assert(sgemv_spec(alpha1, nrows, ncols, a, cs, x1, beta, y) =~= sgemv_spec(alpha2, nrows, ncols, a, cs, x2, beta, y));
}

/// Row sums with agreeing column scalars agree.
proof fn lemma_sgemv_row_scalars(
    alpha1: u32,
    x1: Seq<u32>,
    alpha2: u32,
    x2: Seq<u32>,
    a: Seq<u32>,
    cs: int,
    y0: u32,
    i: int,
    m: nat,
)
    requires
        forall|j: int| 0 <= j < m ==> #[trigger] smul(alpha1, x1[j]) == smul(alpha2, x2[j]),
    ensures
        sgemv_row(alpha1, a, cs, x1, y0, i, m) == sgemv_row(alpha2, a, cs, x2, y0, i, m),
    decreases m,
{
    if m > 0 {
        lemma_sgemv_row_scalars(alpha1, x1, alpha2, x2, a, cs, y0, i, (m - 1) as nat);
        assert(smul(alpha1, x1[m - 1]) == smul(alpha2, x2[m - 1]));
    }
}

/// `sgemv_t` gives one entry per column: entry `j` is `β·y[j]` (the BLAS
/// β rule) plus `α·d`, where `d` is the dot product of the stored column
/// `j`, `a[j*cs .. j*cs + nrows]`, with `x`, reduced as `sdot` reduces it.
pub proof fn lemma_sgemv_t_entries(
    alpha: u32,
    nrows: int,
    ncols: int,
    a: Seq<u32>,
    cs: int,
    x: Seq<u32>,
    beta: u32,
    y: Seq<u32>,
)
    requires
        0 <= ncols,
    ensures
        sgemv_t_spec(alpha, nrows, ncols, a, cs, x, beta, y).len() == ncols,
        forall|j: int|
            0 <= j < ncols ==> #[trigger] sgemv_t_spec(alpha, nrows, ncols, a, cs, x, beta, y)[j] == sadd(
                sscale_spec(beta, y)[j],
                smul(alpha, sdot_spec(a.subrange(j * cs, j * cs + nrows), x)),
            ),
{
}

} // verus!
