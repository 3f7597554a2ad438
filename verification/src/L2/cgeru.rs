//! `cgeru` — unconjugated rank-1 update: A ← A + αxyᵀ, one `caxpy`
//! stream per column (column j gets α·y[j] times x).

use super::{in_mat, lemma_cell, lemma_column_in_bounds, lemma_in_mat_step, mat_fits};
use crate::c32::{cadd, cconj, cmul, C32};
use crate::L1::caxpy::caxpy_at;
use vstd::prelude::*;

verus! {

/// The scalar column `j` is scaled by: `α·y[j]`, or `α·conj(y[j])`
/// when `conj` holds.
pub open spec fn cger_scalar(alpha: C32, yj: C32, conj: bool) -> C32 {
    if conj {
        cmul(alpha, cconj(yj))
    } else {
        cmul(alpha, yj)
    }
}

/// A after the rank-1 update of its first `ncols` columns: element
/// (i, j) becomes `a[i,j] + s_j·x[i]`; storage outside the matrix is kept.
pub open spec fn cger_spec(
    alpha: C32,
    nrows: int,
    ncols: int,
    a: Seq<C32>,
    cs: int,
    x: Seq<C32>,
    y: Seq<C32>,
    conj: bool,
) -> Seq<C32> {
    Seq::new(
        a.len(),
        |k: int|
            if in_mat(k, nrows, ncols, cs) {
                cadd(a[k], cmul(cger_scalar(alpha, y[k / cs], conj), x[k % cs]))
            } else {
                a[k]
            },
    )
}

fn cger_scalar_exec(alpha: C32, yj: C32, conj: bool) -> (r: C32)
    ensures
        r == cger_scalar(alpha, yj, conj),
{
    if conj {
        alpha.times(yj.conj())
    } else {
        alpha.times(yj)
    }
}

/// The rank-1 update shared by `cgeru` and `cgerc`.
pub(crate) fn cger_impl(
    alpha: C32,
    nrows: usize,
    ncols: usize,
    a: &mut [C32],
    cs: usize,
    x: &[C32],
    y: &[C32],
    conj: bool,
)
    requires
        mat_fits(old(a).len() as int, nrows as int, ncols as int, cs as int),
        x@.len() == nrows,
        y@.len() == ncols,
    ensures
        final(a)@ == cger_spec(alpha, nrows as int, ncols as int, old(a)@, cs as int, x@, y@, conj),
{
    let ghost a0 = a@;
    let mut j: usize = 0;
    while j < ncols
        invariant
            j <= ncols,
            mat_fits(a.len() as int, nrows as int, ncols as int, cs as int),
            a.len() == a0.len(),
            x@.len() == nrows,
            y@.len() == ncols,
            a@ =~= cger_spec(alpha, nrows as int, j as int, a0, cs as int, x@, y@, conj),
        decreases ncols - j,
    {
        proof {
            lemma_column_in_bounds(a.len() as int, nrows as int, ncols as int, cs as int, j as int);
        }
        let s = cger_scalar_exec(alpha, y[j], conj);
        let ghost before = a@;
        caxpy_at(s, x, 0, a, j * cs, nrows);
        proof {
            let nr = nrows as int;
            let c = cs as int;
            let jj = j as int;
            assert forall|k: int| 0 <= k < a0.len() implies #[trigger] a@[k] == cger_spec(
                alpha,
                nr,
                jj + 1,
                a0,
                c,
                x@,
                y@,
                conj,
            )[k] by {
                if c > 0 {
                    lemma_in_mat_step(k, nr, jj, c);
                    if jj * c <= k < jj * c + nr {
                        lemma_cell(k, jj, c);
                    }
                }
            }
            assert(a@ =~= cger_spec(alpha, nr, jj + 1, a0, c, x@, y@, conj));
        }
        j += 1;
    }
}

/// A ← A + αxyᵀ. A is nrows×ncols at column stride `cs`; x has nrows
/// elements, y has ncols. The storage must hold A (`check_mat`) and the lengths must match.
pub fn cgeru(
    alpha: C32,
    nrows: usize,
    ncols: usize,
    a: &mut [C32],
    cs: usize,
    x: &[C32],
    y: &[C32],
)
    requires
        mat_fits(old(a)@.len() as int, nrows as int, ncols as int, cs as int),
        x@.len() == nrows,
        y@.len() == ncols,
    ensures
        final(a)@ == cger_spec(alpha, nrows as int, ncols as int, old(a)@, cs as int, x@, y@, false),
{
    cger_impl(alpha, nrows, ncols, a, cs, x, y, false);
}

/// Every entry (i, j) of `cgeru`'s result is `a[i, j] + (α·y[j])·x[i]`,
/// y not conjugated; all storage outside the matrix is kept.
pub proof fn lemma_cgeru_entries(alpha: C32, nrows: int, ncols: int, a: Seq<C32>, cs: int, x: Seq<C32>, y: Seq<C32>)
    requires
        0 <= nrows,
        0 <= ncols,
        mat_fits(a.len() as int, nrows, ncols, cs),
    ensures
        cger_spec(alpha, nrows, ncols, a, cs, x, y, false).len() == a.len(),
        forall|i: int, j: int|
            0 <= i < nrows && 0 <= j < ncols ==> #[trigger] cger_spec(alpha, nrows, ncols, a, cs, x, y, false)[j * cs + i] == if true {
                cadd(a[j * cs + i], cmul(cmul(alpha, y[j]), x[i]))
            } else {
                a[j * cs + i]
            },
        forall|k: int| 0 <= k < a.len() && !in_mat(k, nrows, ncols, cs) ==> #[trigger] cger_spec(alpha, nrows, ncols, a, cs, x, y, false)[k] == a[k],
{
    assert forall|i: int, j: int| 0 <= i < nrows && 0 <= j < ncols implies #[trigger] cger_spec(alpha, nrows, ncols, a, cs, x, y, false)[j * cs + i] == if true {
        cadd(a[j * cs + i], cmul(cmul(alpha, y[j]), x[i]))
    } else {
        a[j * cs + i]
    } by {
        let k = j * cs + i;
        lemma_column_in_bounds(a.len() as int, nrows, ncols, cs, j);
        lemma_cell(k, j, cs);
        assert((j + 1) * cs <= ncols * cs) by (nonlinear_arith)
            requires
                j + 1 <= ncols,
                0 < cs,
        ;
        assert((j + 1) * cs == j * cs + cs) by (nonlinear_arith);
        assert(in_mat(k, nrows, ncols, cs));
    }
}

} // verus!
