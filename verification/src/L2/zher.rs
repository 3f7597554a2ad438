//! `zher` — Hermitian rank-1 update: A ← A + αx·xᴴ, α real, one
//! triangle stored. One `zaxpy` stream per stored strict segment (scalar
//! α·conj(x[j])); the diagonal update is real and stored with imaginary
//! part exactly +0, so stored diagonals stay exactly real.

use super::{in_mat, lemma_cell, lemma_column_in_bounds, lemma_in_mat_step, mat_fits, strictly_stored};
use crate::c64::{zadd, zconj, zmul, zrscale, C64};
use crate::ieee::{dadd, ieee_dadd};
use crate::L1::zaxpy::zaxpy_at;
use vstd::prelude::*;

verus! {

/// Scalar of column `j`: `conj(x[j])` scaled by the real `α`.
pub open spec fn zher_t(alpha: u64, xj: C64) -> C64 {
    zrscale(zconj(xj), alpha)
}

/// The new diagonal element of column `j`: real part
/// `re(a[j,j]) + re(x[j]·t)`, imaginary part +0.
pub open spec fn zher_diag(alpha: u64, ajj: C64, xj: C64) -> C64 {
    C64 { re: dadd(ajj.re, zmul(xj, zher_t(alpha, xj)).re), im: 0 }
}

/// A after the update of its first `m` columns (of `n`).
pub open spec fn zher_cols(
    alpha: u64,
    n: int,
    m: int,
    a: Seq<C64>,
    cs: int,
    upper: bool,
    x: Seq<C64>,
) -> Seq<C64> {
    Seq::new(
        a.len(),
        |k: int|
            if in_mat(k, n, m, cs) {
                let i = k % cs;
                let j = k / cs;
                if i == j {
                    zher_diag(alpha, a[k], x[j])
                } else if strictly_stored(i, j, upper) {
                    zadd(a[k], zmul(zher_t(alpha, x[j]), x[i]))
                } else {
                    a[k]
                }
            } else {
                a[k]
            },
    )
}

/// A after the whole update: stored strict entries get the stream,
/// diagonal entries become real, the other triangle and all storage
/// outside the matrix are kept.
pub open spec fn zher_spec(
    alpha: u64,
    n: int,
    a: Seq<C64>,
    cs: int,
    upper: bool,
    x: Seq<C64>,
) -> Seq<C64> {
    zher_cols(alpha, n, n, a, cs, upper, x)
}

/// A ← A + αx·xᴴ with real α. A is Hermitian n×n at column stride
/// `cs`, `upper` (or lower) triangle stored. The storage must hold A (`check_mat`) and the lengths must match.
pub fn zher(alpha: u64, n: usize, a: &mut [C64], cs: usize, upper: bool, x: &[C64])
    requires
        mat_fits(old(a)@.len() as int, n as int, n as int, cs as int),
        x@.len() == n,
    ensures
        final(a)@ == zher_spec(alpha, n as int, old(a)@, cs as int, upper, x@),
{
    let ghost a0 = a@;
    let mut j: usize = 0;
    while j < n
        invariant
            j <= n,
            mat_fits(a.len() as int, n as int, n as int, cs as int),
            a.len() == a0.len(),
            x@.len() == n,
            a@ =~= zher_cols(alpha, n as int, j as int, a0, cs as int, upper, x@),
        decreases n - j,
    {
        proof {
            lemma_column_in_bounds(a.len() as int, n as int, n as int, cs as int, j as int);
        }
        let cj = j * cs;
        let t = x[j].conj().scale(alpha);
        let p = x[j].times(t);
        if upper {
            zaxpy_at(t, x, 0, a, cj, j);
            let ajj = a[cj + j];
            a[cj + j] = C64::new(ieee_dadd(ajj.re, p.re), 0);
        } else {
            let ajj = a[cj + j];
            a[cj + j] = C64::new(ieee_dadd(ajj.re, p.re), 0);
            zaxpy_at(t, x, j + 1, a, cj + j + 1, n - j - 1);
        }
        proof {
            let nn = n as int;
            let c = cs as int;
            let jj = j as int;
            assert forall|k: int| 0 <= k < a0.len() implies #[trigger] a@[k] == zher_cols(
                alpha,
                nn,
                jj + 1,
                a0,
                c,
                upper,
                x@,
            )[k] by {
                if c > 0 {
                    lemma_in_mat_step(k, nn, jj, c);
                    if jj * c <= k < jj * c + nn {
                        lemma_cell(k, jj, c);
                    }
                }
            }
            assert(a@ =~= zher_cols(alpha, nn, jj + 1, a0, c, upper, x@));
        }
        j += 1;
    }
}

/// The Hermitian storage invariant of the update: every diagonal element
/// of the result has imaginary part exactly +0, and every storage
/// element outside the stored triangle (the other triangle, the padding
/// rows, the storage past the matrix) is unchanged.
pub proof fn lemma_zher_keeps_hermitian_storage(
    alpha: u64,
    n: int,
    a: Seq<C64>,
    cs: int,
    upper: bool,
    x: Seq<C64>,
    k: int,
)
    requires
        0 <= k < a.len(),
    ensures
        in_mat(k, n, n, cs) && k % cs == k / cs ==> zher_spec(alpha, n, a, cs, upper, x)[k].im
            == 0,
        !(in_mat(k, n, n, cs) && (k % cs == k / cs || strictly_stored(k % cs, k / cs, upper)))
            ==> zher_spec(alpha, n, a, cs, upper, x)[k] == a[k],
{
}

/// Every stored strict entry of `zher`'s result is
/// `a[i, j] + (α·conj(x[j]))·x[i]`; every diagonal entry is real:
/// `re(a[i, i]) + re(x[i]·(α·conj(x[i])))` with imaginary part +0; the
/// other triangle and all storage outside the matrix are kept.
pub proof fn lemma_zher_entries(alpha: u64, n: int, a: Seq<C64>, cs: int, upper: bool, x: Seq<C64>)
    requires
        0 <= n,
        0 <= n,
        mat_fits(a.len() as int, n, n, cs),
    ensures
        zher_spec(alpha, n, a, cs, upper, x).len() == a.len(),
        forall|i: int, j: int|
            0 <= i < n && 0 <= j < n ==> #[trigger] zher_spec(alpha, n, a, cs, upper, x)[j * cs + i] == if (upper && i <= j) || (!upper && j <= i) {
                if i == j {
                    C64 { re: dadd(a[j * cs + i].re, zmul(x[i], zrscale(zconj(x[i]), alpha)).re), im: 0 }
                } else {
                    zadd(a[j * cs + i], zmul(zrscale(zconj(x[j]), alpha), x[i]))
                }
            } else {
                a[j * cs + i]
            },
        forall|k: int| 0 <= k < a.len() && !in_mat(k, n, n, cs) ==> #[trigger] zher_spec(alpha, n, a, cs, upper, x)[k] == a[k],
{
    assert forall|i: int, j: int| 0 <= i < n && 0 <= j < n implies #[trigger] zher_spec(alpha, n, a, cs, upper, x)[j * cs + i] == if (upper && i <= j) || (!upper && j <= i) {
        if i == j {
                    C64 { re: dadd(a[j * cs + i].re, zmul(x[i], zrscale(zconj(x[i]), alpha)).re), im: 0 }
                } else {
                    zadd(a[j * cs + i], zmul(zrscale(zconj(x[j]), alpha), x[i]))
                }
    } else {
        a[j * cs + i]
    } by {
        let k = j * cs + i;
        lemma_column_in_bounds(a.len() as int, n, n, cs, j);
        lemma_cell(k, j, cs);
        assert((j + 1) * cs <= n * cs) by (nonlinear_arith)
            requires
                j + 1 <= n,
                0 < cs,
        ;
        assert((j + 1) * cs == j * cs + cs) by (nonlinear_arith);
        assert(in_mat(k, n, n, cs));
    }
}

} // verus!
