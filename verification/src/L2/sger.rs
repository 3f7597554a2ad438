//! `sger` — rank-1 update: A ← A + αxyᵀ, the values given as binary32
//! bit patterns; one `saxpy` stream per column (column j gets x times
//! α·y[j]).

use super::{in_mat, lemma_cell, lemma_column_in_bounds, lemma_in_mat_step, mat_fits};
use crate::ieee::{sadd, smul, ieee_smul};
use crate::L1::saxpy::saxpy_at;
use vstd::prelude::*;

verus! {

/// A after the rank-1 update of its first `ncols` columns: element
/// (i, j) becomes `a[i,j] + x[i]·(α·y[j])`; storage outside the matrix is
/// kept.
pub open spec fn sger_spec(
    alpha: u32,
    nrows: int,
    ncols: int,
    a: Seq<u32>,
    cs: int,
    x: Seq<u32>,
    y: Seq<u32>,
) -> Seq<u32> {
    Seq::new(
        a.len(),
        |k: int|
            if in_mat(k, nrows, ncols, cs) {
                sadd(a[k], smul(x[k % cs], smul(alpha, y[k / cs])))
            } else {
                a[k]
            },
    )
}

/// A ← A + αxyᵀ. A is nrows×ncols at column stride `cs`; x has nrows
/// elements, y has ncols. The storage must hold A (`check_mat`) and the lengths must match.
pub fn sger(
    alpha: u32,
    nrows: usize,
    ncols: usize,
    a: &mut [u32],
    cs: usize,
    x: &[u32],
    y: &[u32],
)
    requires
        mat_fits(old(a).len() as int, nrows as int, ncols as int, cs as int),
        x@.len() == nrows,
        y@.len() == ncols,
    ensures
        final(a)@ == sger_spec(alpha, nrows as int, ncols as int, old(a)@, cs as int, x@, y@),
{
    let ghost a0 = a@;
    let mut j: usize = 0;
    while j < ncols
        invariant
            j <= ncols,
            mat_fits(a.len() as int, nrows as int, ncols as int, cs as int),
            a.len() == a0.len(),
            x@.len() == nrows,
            y@.len() == ncols,
            a@ =~= sger_spec(alpha, nrows as int, j as int, a0, cs as int, x@, y@),
        decreases ncols - j,
    {
        proof {
            lemma_column_in_bounds(a.len() as int, nrows as int, ncols as int, cs as int, j as int);
        }
        let s = ieee_smul(alpha, y[j]);
        let ghost before = a@;
        saxpy_at(s, x, 0, a, j * cs, nrows);
        proof {
            let nr = nrows as int;
            let c = cs as int;
            let jj = j as int;
            assert forall|k: int| 0 <= k < a0.len() implies #[trigger] a@[k] == sger_spec(
                alpha,
                nr,
                jj + 1,
                a0,
                c,
                x@,
                y@,
            )[k] by {
                if c > 0 {
                    lemma_in_mat_step(k, nr, jj, c);
                    if jj * c <= k < jj * c + nr {
                        lemma_cell(k, jj, c);
                    }
                }
            }
            assert(a@ =~= sger_spec(alpha, nr, jj + 1, a0, c, x@, y@));
        }
        j += 1;
    }
}

/// Every entry (i, j) of `sger`'s result is `a[i, j] + x[i]·(α·y[j])`;
/// all storage outside the matrix is kept.
pub proof fn lemma_sger_entries(alpha: u32, nrows: int, ncols: int, a: Seq<u32>, cs: int, x: Seq<u32>, y: Seq<u32>)
    requires
        0 <= nrows,
        0 <= ncols,
        mat_fits(a.len() as int, nrows, ncols, cs),
    ensures
        sger_spec(alpha, nrows, ncols, a, cs, x, y).len() == a.len(),
        forall|i: int, j: int|
            0 <= i < nrows && 0 <= j < ncols ==> #[trigger] sger_spec(alpha, nrows, ncols, a, cs, x, y)[j * cs + i] == if true {
                sadd(a[j * cs + i], smul(x[i], smul(alpha, y[j])))
            } else {
                a[j * cs + i]
            },
        forall|k: int| 0 <= k < a.len() && !in_mat(k, nrows, ncols, cs) ==> #[trigger] sger_spec(alpha, nrows, ncols, a, cs, x, y)[k] == a[k],
{
    assert forall|i: int, j: int| 0 <= i < nrows && 0 <= j < ncols implies #[trigger] sger_spec(alpha, nrows, ncols, a, cs, x, y)[j * cs + i] == if true {
        sadd(a[j * cs + i], smul(x[i], smul(alpha, y[j])))
    } else {
        a[j * cs + i]
    } by {
        let k = j * cs + i;
        lemma_column_in_bounds(a.len() as int, nrows, ncols, cs, j);
        lemma_cell(k, j, cs);
        assert((j + 1) * cs <= ncols * cs) by (nonlinear_arith)
            requires
                j + 1 <= ncols,
                0 < cs,
        ;
        assert((j + 1) * cs == j * cs + cs) by (nonlinear_arith);
        assert(in_mat(k, nrows, ncols, cs));
    }
}

} // verus!
