//! `dsyr2` — symmetric rank-2 update: A ← A + α(xyᵀ + yxᵀ), one
//! triangle stored, the values given as binary64 bit patterns. Two
//! `daxpy` streams per stored column segment (diagonal included):
//! first `x` scaled by α·y[j], then `y` scaled by α·x[j].

use super::{in_mat, lemma_cell, lemma_column_in_bounds, lemma_in_mat_step, mat_fits};
use crate::ieee::{dadd, dmul, ieee_dmul};
use crate::L1::daxpy::daxpy_at;
use vstd::prelude::*;

verus! {

/// Row `i` of column `j` lies in the stored triangle (diagonal included).
pub open spec fn stored(i: int, j: int, upper: bool) -> bool {
    if upper {
        i <= j
    } else {
        i >= j
    }
}

/// A after the update of its first `m` columns (of `n`).
pub open spec fn dsyr2_cols(
    alpha: u64,
    n: int,
    m: int,
    a: Seq<u64>,
    cs: int,
    upper: bool,
    x: Seq<u64>,
    y: Seq<u64>,
) -> Seq<u64> {
    Seq::new(
        a.len(),
        |k: int|
            if in_mat(k, n, m, cs) && stored(k % cs, k / cs, upper) {
                dadd(
                    dadd(a[k], dmul(x[k % cs], dmul(alpha, y[k / cs]))),
                    dmul(y[k % cs], dmul(alpha, x[k / cs])),
                )
            } else {
                a[k]
            },
    )
}

/// A after the whole update: the stored triangle gets both streams, the
/// other triangle and all storage outside the matrix are kept.
pub open spec fn dsyr2_spec(
    alpha: u64,
    n: int,
    a: Seq<u64>,
    cs: int,
    upper: bool,
    x: Seq<u64>,
    y: Seq<u64>,
) -> Seq<u64> {
    dsyr2_cols(alpha, n, n, a, cs, upper, x, y)
}

/// A ← A + α(xyᵀ + yxᵀ), A symmetric n×n at column stride `cs`,
/// `upper` (or lower) triangle stored. The storage must hold A (`check_mat`) and the lengths must match.
pub fn dsyr2(alpha: u64, n: usize, a: &mut [u64], cs: usize, upper: bool, x: &[u64], y: &[u64])
    requires
        mat_fits(old(a)@.len() as int, n as int, n as int, cs as int),
        x@.len() == n,
        y@.len() == n,
    ensures
        final(a)@ == dsyr2_spec(alpha, n as int, old(a)@, cs as int, upper, x@, y@),
{
    let ghost a0 = a@;
    let mut j: usize = 0;
    while j < n
        invariant
            j <= n,
            mat_fits(a.len() as int, n as int, n as int, cs as int),
            a.len() == a0.len(),
            x@.len() == n,
            y@.len() == n,
            a@ =~= dsyr2_cols(alpha, n as int, j as int, a0, cs as int, upper, x@, y@),
        decreases n - j,
    {
        proof {
            lemma_column_in_bounds(a.len() as int, n as int, n as int, cs as int, j as int);
        }
        let cj = j * cs;
        let ty = ieee_dmul(alpha, y[j]);
        let tx = ieee_dmul(alpha, x[j]);
        if upper {
            daxpy_at(ty, x, 0, a, cj, j + 1);
            daxpy_at(tx, y, 0, a, cj, j + 1);
        } else {
            daxpy_at(ty, x, j, a, cj + j, n - j);
            daxpy_at(tx, y, j, a, cj + j, n - j);
        }
        proof {
            let nn = n as int;
            let c = cs as int;
            let jj = j as int;
            assert forall|k: int| 0 <= k < a0.len() implies #[trigger] a@[k] == dsyr2_cols(
                alpha,
                nn,
                jj + 1,
                a0,
                c,
                upper,
                x@,
                y@,
            )[k] by {
                if c > 0 {
                    lemma_in_mat_step(k, nn, jj, c);
                    if jj * c <= k < jj * c + nn {
                        lemma_cell(k, jj, c);
                    }
                }
            }
            assert(a@ =~= dsyr2_cols(alpha, nn, jj + 1, a0, c, upper, x@, y@));
        }
        j += 1;
    }
}

/// Every entry of the stored triangle of `dsyr2`'s result, diagonal
/// included, is `a[i, j] + x[i]·(α·y[j]) + y[i]·(α·x[j])` (added in that
/// order); every entry of the other triangle, and all storage outside the
/// matrix, is kept.
pub proof fn lemma_dsyr2_entries(
    alpha: u64,
    n: int,
    a: Seq<u64>,
    cs: int,
    upper: bool,
    x: Seq<u64>,
    y: Seq<u64>,
)
    requires
        0 <= n,
        mat_fits(a.len() as int, n, n, cs),
    ensures
        dsyr2_spec(alpha, n, a, cs, upper, x, y).len() == a.len(),
        forall|i: int, j: int|
            0 <= i < n && 0 <= j < n ==> #[trigger] dsyr2_spec(alpha, n, a, cs, upper, x, y)[j * cs + i]
                == if (upper && i <= j) || (!upper && j <= i) {
                dadd(dadd(a[j * cs + i], dmul(x[i], dmul(alpha, y[j]))), dmul(y[i], dmul(alpha, x[j])))
            } else {
                a[j * cs + i]
            },
        forall|k: int|
            0 <= k < a.len() && !in_mat(k, n, n, cs) ==> #[trigger] dsyr2_spec(alpha, n, a, cs, upper, x, y)[k]
                == a[k],
{
    assert forall|i: int, j: int| 0 <= i < n && 0 <= j < n implies #[trigger] dsyr2_spec(
        alpha,
        n,
        a,
        cs,
        upper,
        x,
        y,
    )[j * cs + i] == if (upper && i <= j) || (!upper && j <= i) {
        dadd(dadd(a[j * cs + i], dmul(x[i], dmul(alpha, y[j]))), dmul(y[i], dmul(alpha, x[j])))
    } else {
        a[j * cs + i]
    } by {
        let k = j * cs + i;
        lemma_column_in_bounds(a.len() as int, n, n, cs, j);
        lemma_cell(k, j, cs);
        assert((j + 1) * cs <= n * cs) by (nonlinear_arith)
            requires
                j + 1 <= n,
                0 < cs,
        ;
        assert((j + 1) * cs == j * cs + cs) by (nonlinear_arith);
        assert(in_mat(k, n, n, cs));
    }
}

} // verus!
