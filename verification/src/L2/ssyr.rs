//! `ssyr` — symmetric rank-1 update: A ← A + αxxᵀ, one triangle
//! stored, the values given as binary32 bit patterns. One `saxpy` stream
//! per stored column segment (diagonal included), `x` scaled by α·x[j].

use super::ssyr2::stored;
use super::{in_mat, lemma_cell, lemma_column_in_bounds, lemma_in_mat_step, mat_fits};
use crate::ieee::{sadd, smul, ieee_smul};
use crate::L1::saxpy::saxpy_at;
use vstd::prelude::*;

verus! {

/// A after the update of its first `m` columns (of `n`).
pub open spec fn ssyr_cols(
    alpha: u32,
    n: int,
    m: int,
    a: Seq<u32>,
    cs: int,
    upper: bool,
    x: Seq<u32>,
) -> Seq<u32> {
    Seq::new(
        a.len(),
        |k: int|
            if in_mat(k, n, m, cs) && stored(k % cs, k / cs, upper) {
                sadd(a[k], smul(x[k % cs], smul(alpha, x[k / cs])))
            } else {
                a[k]
            },
    )
}

/// A after the whole update: the stored triangle gets the stream, the
/// other triangle and all storage outside the matrix are kept.
pub open spec fn ssyr_spec(
    alpha: u32,
    n: int,
    a: Seq<u32>,
    cs: int,
    upper: bool,
    x: Seq<u32>,
) -> Seq<u32> {
    ssyr_cols(alpha, n, n, a, cs, upper, x)
}

/// A ← A + αxxᵀ, A symmetric n×n at column stride `cs`,
/// `upper` (or lower) triangle stored. The storage must hold A (`check_mat`) and the lengths must match.
pub fn ssyr(alpha: u32, n: usize, a: &mut [u32], cs: usize, upper: bool, x: &[u32])
    requires
        mat_fits(old(a)@.len() as int, n as int, n as int, cs as int),
        x@.len() == n,
    ensures
        final(a)@ == ssyr_spec(alpha, n as int, old(a)@, cs as int, upper, x@),
{
    let ghost a0 = a@;
    let mut j: usize = 0;
    while j < n
        invariant
            j <= n,
            mat_fits(a.len() as int, n as int, n as int, cs as int),
            a.len() == a0.len(),
            x@.len() == n,
            a@ =~= ssyr_cols(alpha, n as int, j as int, a0, cs as int, upper, x@),
        decreases n - j,
    {
        proof {
            lemma_column_in_bounds(a.len() as int, n as int, n as int, cs as int, j as int);
        }
        let cj = j * cs;
        let t = ieee_smul(alpha, x[j]);
        if upper {
            saxpy_at(t, x, 0, a, cj, j + 1);
        } else {
            saxpy_at(t, x, j, a, cj + j, n - j);
        }
        proof {
            let nn = n as int;
            let c = cs as int;
            let jj = j as int;
            assert forall|k: int| 0 <= k < a0.len() implies #[trigger] a@[k] == ssyr_cols(
                alpha,
                nn,
                jj + 1,
                a0,
                c,
                upper,
                x@,
            )[k] by {
                if c > 0 {
                    lemma_in_mat_step(k, nn, jj, c);
                    if jj * c <= k < jj * c + nn {
                        lemma_cell(k, jj, c);
                    }
                }
            }
            assert(a@ =~= ssyr_cols(alpha, nn, jj + 1, a0, c, upper, x@));
        }
        j += 1;
    }
}

/// Every entry of the stored triangle of `ssyr`'s result, diagonal
/// included, is `a[i, j] + x[i]·(α·x[j])`; every entry of the other
/// triangle, and all storage outside the matrix, is kept.
pub proof fn lemma_ssyr_entries(alpha: u32, n: int, a: Seq<u32>, cs: int, upper: bool, x: Seq<u32>)
    requires
        0 <= n,
        0 <= n,
        mat_fits(a.len() as int, n, n, cs),
    ensures
        ssyr_spec(alpha, n, a, cs, upper, x).len() == a.len(),
        forall|i: int, j: int|
            0 <= i < n && 0 <= j < n ==> #[trigger] ssyr_spec(alpha, n, a, cs, upper, x)[j * cs + i] == if (upper && i <= j) || (!upper && j <= i) {
                sadd(a[j * cs + i], smul(x[i], smul(alpha, x[j])))
            } else {
                a[j * cs + i]
            },
        forall|k: int| 0 <= k < a.len() && !in_mat(k, n, n, cs) ==> #[trigger] ssyr_spec(alpha, n, a, cs, upper, x)[k] == a[k],
{
    assert forall|i: int, j: int| 0 <= i < n && 0 <= j < n implies #[trigger] ssyr_spec(alpha, n, a, cs, upper, x)[j * cs + i] == if (upper && i <= j) || (!upper && j <= i) {
        sadd(a[j * cs + i], smul(x[i], smul(alpha, x[j])))
    } else {
        a[j * cs + i]
    } by {
        let k = j * cs + i;
        lemma_column_in_bounds(a.len() as int, n, n, cs, j);
        lemma_cell(k, j, cs);
        assert((j + 1) * cs <= n * cs) by (nonlinear_arith)
            requires
                j + 1 <= n,
                0 < cs,
        ;
        assert((j + 1) * cs == j * cs + cs) by (nonlinear_arith);
        assert(in_mat(k, n, n, cs));
    }
}

} // verus!
