//! `zher2` — Hermitian rank-2 update: A ← A + αx·yᴴ + conj(α)y·xᴴ, one
//! triangle stored. Two `zaxpy` streams per stored strict segment
//! (scalars α·conj(y[j]) and conj(α·x[j])); the diagonal update is real
//! and stored with imaginary part exactly +0, so stored diagonals stay
//! exactly real.

use super::{in_mat, lemma_cell, lemma_column_in_bounds, lemma_in_mat_step, mat_fits, strictly_stored};
use crate::c64::{zadd, zconj, zmul, C64};
use crate::ieee::{dadd, ieee_dadd};
use crate::L1::zaxpy::zaxpy_at;
use vstd::prelude::*;

verus! {

/// Scalar of the x-stream of column `j`: `α·conj(y[j])`.
pub open spec fn zher2_t1(alpha: C64, yj: C64) -> C64 {
    zmul(alpha, zconj(yj))
}

/// Scalar of the y-stream of column `j`: `conj(α·x[j])`.
pub open spec fn zher2_t2(alpha: C64, xj: C64) -> C64 {
    zconj(zmul(alpha, xj))
}

/// The new diagonal element of column `j`: real part
/// `re(a[j,j]) + (re(x[j]·t1) + re(y[j]·t2))`, imaginary part +0.
pub open spec fn zher2_diag(alpha: C64, ajj: C64, xj: C64, yj: C64) -> C64 {
    C64 {
        re: dadd(
            ajj.re,
            dadd(zmul(xj, zher2_t1(alpha, yj)).re, zmul(yj, zher2_t2(alpha, xj)).re),
        ),
        im: 0,
    }
}

/// A after the update of its first `m` columns (of `n`).
pub open spec fn zher2_cols(
    alpha: C64,
    n: int,
    m: int,
    a: Seq<C64>,
    cs: int,
    upper: bool,
    x: Seq<C64>,
    y: Seq<C64>,
) -> Seq<C64> {
    Seq::new(
        a.len(),
        |k: int|
            if in_mat(k, n, m, cs) {
                let i = k % cs;
                let j = k / cs;
                if i == j {
                    zher2_diag(alpha, a[k], x[j], y[j])
                } else if strictly_stored(i, j, upper) {
                    zadd(zadd(a[k], zmul(zher2_t1(alpha, y[j]), x[i])), zmul(zher2_t2(alpha, x[j]), y[i]))
                } else {
                    a[k]
                }
            } else {
                a[k]
            },
    )
}

/// A after the whole update: stored strict entries get both streams,
/// diagonal entries become real, the other triangle and all storage
/// outside the matrix are kept.
pub open spec fn zher2_spec(
    alpha: C64,
    n: int,
    a: Seq<C64>,
    cs: int,
    upper: bool,
    x: Seq<C64>,
    y: Seq<C64>,
) -> Seq<C64> {
    zher2_cols(alpha, n, n, a, cs, upper, x, y)
}

/// A ← A + αx·yᴴ + conj(α)y·xᴴ. A is Hermitian n×n at column stride
/// `cs`, `upper` (or lower) triangle stored. The storage must hold A (`check_mat`) and the lengths must match.
pub fn zher2(alpha: C64, n: usize, a: &mut [C64], cs: usize, upper: bool, x: &[C64], y: &[C64])
    requires
        mat_fits(old(a)@.len() as int, n as int, n as int, cs as int),
        x@.len() == n,
        y@.len() == n,
    ensures
        final(a)@ == zher2_spec(alpha, n as int, old(a)@, cs as int, upper, x@, y@),
{
    let ghost a0 = a@;
    let mut j: usize = 0;
    while j < n
        invariant
            j <= n,
            mat_fits(a.len() as int, n as int, n as int, cs as int),
            a.len() == a0.len(),
            x@.len() == n,
            y@.len() == n,
            a@ =~= zher2_cols(alpha, n as int, j as int, a0, cs as int, upper, x@, y@),
        decreases n - j,
    {
        proof {
            lemma_column_in_bounds(a.len() as int, n as int, n as int, cs as int, j as int);
        }
        let cj = j * cs;
        let t1 = alpha.times(y[j].conj());
        let t2 = alpha.times(x[j]).conj();
        let p1 = x[j].times(t1);
        let p2 = y[j].times(t2);
        let d = ieee_dadd(p1.re, p2.re);
        let ghost before = a@;
        if upper {
            zaxpy_at(t1, x, 0, a, cj, j);
            zaxpy_at(t2, y, 0, a, cj, j);
            let ajj = a[cj + j];
            a[cj + j] = C64::new(ieee_dadd(ajj.re, d), 0);
        } else {
            let ajj = a[cj + j];
            a[cj + j] = C64::new(ieee_dadd(ajj.re, d), 0);
            zaxpy_at(t1, x, j + 1, a, cj + j + 1, n - j - 1);
            zaxpy_at(t2, y, j + 1, a, cj + j + 1, n - j - 1);
        }
        proof {
            let nn = n as int;
            let c = cs as int;
            let jj = j as int;
            assert forall|k: int| 0 <= k < a0.len() implies #[trigger] a@[k] == zher2_cols(
                alpha,
                nn,
                jj + 1,
                a0,
                c,
                upper,
                x@,
                y@,
            )[k] by {
                if c > 0 {
                    lemma_in_mat_step(k, nn, jj, c);
                    if jj * c <= k < jj * c + nn {
                        lemma_cell(k, jj, c);
                    }
                }
            }
            assert(a@ =~= zher2_cols(alpha, nn, jj + 1, a0, c, upper, x@, y@));
        }
        j += 1;
    }
}


/// The Hermitian storage invariant of the update: every diagonal element
/// of the result has imaginary part exactly +0, and every storage
/// element outside the stored triangle (the other triangle, the padding
/// rows, the storage past the matrix) is unchanged.
pub proof fn lemma_zher2_keeps_hermitian_storage(
    alpha: C64,
    n: int,
    a: Seq<C64>,
    cs: int,
    upper: bool,
    x: Seq<C64>,
    y: Seq<C64>,
    k: int,
)
    requires
        0 <= k < a.len(),
    ensures
        in_mat(k, n, n, cs) && k % cs == k / cs ==> zher2_spec(alpha, n, a, cs, upper, x, y)[k].im
            == 0,
        !(in_mat(k, n, n, cs) && (k % cs == k / cs || strictly_stored(k % cs, k / cs, upper)))
            ==> zher2_spec(alpha, n, a, cs, upper, x, y)[k] == a[k],
{
}

/// Every stored strict entry of `zher2`'s result is
/// `a[i, j] + (α·conj(y[j]))·x[i] + conj(α·x[j])·y[i]`; every diagonal
/// entry is real: `re(a[i, i]) + (re(x[i]·(α·conj(y[i]))) +
/// re(y[i]·conj(α·x[i])))` with imaginary part +0; the other triangle and
/// all storage outside the matrix are kept.
pub proof fn lemma_zher2_entries(alpha: C64, n: int, a: Seq<C64>, cs: int, upper: bool, x: Seq<C64>, y: Seq<C64>)
    requires
        0 <= n,
        0 <= n,
        mat_fits(a.len() as int, n, n, cs),
    ensures
        zher2_spec(alpha, n, a, cs, upper, x, y).len() == a.len(),
        forall|i: int, j: int|
            0 <= i < n && 0 <= j < n ==> #[trigger] zher2_spec(alpha, n, a, cs, upper, x, y)[j * cs + i] == if (upper && i <= j) || (!upper && j <= i) {
                if i == j {
                    C64 {
                        re: dadd(
                            a[j * cs + i].re,
                            dadd(zmul(x[i], zmul(alpha, zconj(y[i]))).re, zmul(y[i], zconj(zmul(alpha, x[i]))).re),
                        ),
                        im: 0,
                    }
                } else {
                    zadd(zadd(a[j * cs + i], zmul(zmul(alpha, zconj(y[j])), x[i])), zmul(zconj(zmul(alpha, x[j])), y[i]))
                }
            } else {
                a[j * cs + i]
            },
        forall|k: int| 0 <= k < a.len() && !in_mat(k, n, n, cs) ==> #[trigger] zher2_spec(alpha, n, a, cs, upper, x, y)[k] == a[k],
{
    assert forall|i: int, j: int| 0 <= i < n && 0 <= j < n implies #[trigger] zher2_spec(alpha, n, a, cs, upper, x, y)[j * cs + i] == if (upper && i <= j) || (!upper && j <= i) {
        if i == j {
                    C64 {
                        re: dadd(
                            a[j * cs + i].re,
                            dadd(zmul(x[i], zmul(alpha, zconj(y[i]))).re, zmul(y[i], zconj(zmul(alpha, x[i]))).re),
                        ),
                        im: 0,
                    }
                } else {
                    zadd(zadd(a[j * cs + i], zmul(zmul(alpha, zconj(y[j])), x[i])), zmul(zconj(zmul(alpha, x[j])), y[i]))
                }
    } else {
        a[j * cs + i]
    } by {
        let k = j * cs + i;
        lemma_column_in_bounds(a.len() as int, n, n, cs, j);
        lemma_cell(k, j, cs);
        assert((j + 1) * cs <= n * cs) by (nonlinear_arith)
            requires
                j + 1 <= n,
                0 < cs,
        ;
        assert((j + 1) * cs == j * cs + cs) by (nonlinear_arith);
        assert(in_mat(k, n, n, cs));
    }
}

} // verus!
