//! `cher` — Hermitian rank-1 update: A ← A + αx·xᴴ, α real, one
//! triangle stored. One `caxpy` stream per stored strict segment (scalar
//! α·conj(x[j])); the diagonal update is real and stored with imaginary
//! part exactly +0, so stored diagonals stay exactly real.

use super::{in_mat, lemma_cell, lemma_column_in_bounds, lemma_in_mat_step, mat_fits, strictly_stored};
use crate::c32::{cadd, cconj, cmul, crscale, C32};
use crate::ieee::{sadd, ieee_sadd};
use crate::L1::caxpy::caxpy_at;
use vstd::prelude::*;

verus! {

/// Scalar of column `j`: `conj(x[j])` scaled by the real `α`.
pub open spec fn cher_t(alpha: u32, xj: C32) -> C32 {
    crscale(cconj(xj), alpha)
}

/// The new diagonal element of column `j`: real part
/// `re(a[j,j]) + re(x[j]·t)`, imaginary part +0.
pub open spec fn cher_diag(alpha: u32, ajj: C32, xj: C32) -> C32 {
    C32 { re: sadd(ajj.re, cmul(xj, cher_t(alpha, xj)).re), im: 0 }
}

/// A after the update of its first `m` columns (of `n`).
pub open spec fn cher_cols(
    alpha: u32,
    n: int,
    m: int,
    a: Seq<C32>,
    cs: int,
    upper: bool,
    x: Seq<C32>,
) -> Seq<C32> {
    Seq::new(
        a.len(),
        |k: int|
            if in_mat(k, n, m, cs) {
                let i = k % cs;
                let j = k / cs;
                if i == j {
                    cher_diag(alpha, a[k], x[j])
                } else if strictly_stored(i, j, upper) {
                    cadd(a[k], cmul(cher_t(alpha, x[j]), x[i]))
                } else {
                    a[k]
                }
            } else {
                a[k]
            },
    )
}

/// A after the whole update: stored strict entries get the stream,
/// diagonal entries become real, the other triangle and all storage
/// outside the matrix are kept.
pub open spec fn cher_spec(
    alpha: u32,
    n: int,
    a: Seq<C32>,
    cs: int,
    upper: bool,
    x: Seq<C32>,
) -> Seq<C32> {
    cher_cols(alpha, n, n, a, cs, upper, x)
}

/// A ← A + αx·xᴴ with real α. A is Hermitian n×n at column stride
/// `cs`, `upper` (or lower) triangle stored. The storage must hold A (`check_mat`) and the lengths must match.
pub fn cher(alpha: u32, n: usize, a: &mut [C32], cs: usize, upper: bool, x: &[C32])
    requires
        mat_fits(old(a)@.len() as int, n as int, n as int, cs as int),
        x@.len() == n,
    ensures
        final(a)@ == cher_spec(alpha, n as int, old(a)@, cs as int, upper, x@),
{
    let ghost a0 = a@;
    let mut j: usize = 0;
    while j < n
        invariant
            j <= n,
            mat_fits(a.len() as int, n as int, n as int, cs as int),
            a.len() == a0.len(),
            x@.len() == n,
            a@ =~= cher_cols(alpha, n as int, j as int, a0, cs as int, upper, x@),
        decreases n - j,
    {
        proof {
            lemma_column_in_bounds(a.len() as int, n as int, n as int, cs as int, j as int);
        }
        let cj = j * cs;
        let t = x[j].conj().scale(alpha);
        let p = x[j].times(t);
        if upper {
            caxpy_at(t, x, 0, a, cj, j);
            let ajj = a[cj + j];
            a[cj + j] = C32::new(ieee_sadd(ajj.re, p.re), 0);
        } else {
            let ajj = a[cj + j];
            a[cj + j] = C32::new(ieee_sadd(ajj.re, p.re), 0);
            caxpy_at(t, x, j + 1, a, cj + j + 1, n - j - 1);
        }
        proof {
            let nn = n as int;
            let c = cs as int;
            let jj = j as int;
            assert forall|k: int| 0 <= k < a0.len() implies #[trigger] a@[k] == cher_cols(
                alpha,
                nn,
                jj + 1,
                a0,
                c,
                upper,
                x@,
            )[k] by {
                if c > 0 {
                    lemma_in_mat_step(k, nn, jj, c);
                    if jj * c <= k < jj * c + nn {
                        lemma_cell(k, jj, c);
                    }
                }
            }
            assert(a@ =~= cher_cols(alpha, nn, jj + 1, a0, c, upper, x@));
        }
        j += 1;
    }
}

/// The Hermitian storage invariant of the update: every diagonal element
/// of the result has imaginary part exactly +0, and every storage
/// element outside the stored triangle (the other triangle, the padding
/// rows, the storage past the matrix) is unchanged.
pub proof fn lemma_cher_keeps_hermitian_storage(
    alpha: u32,
    n: int,
    a: Seq<C32>,
    cs: int,
    upper: bool,
    x: Seq<C32>,
    k: int,
)
    requires
        0 <= k < a.len(),
    ensures
        in_mat(k, n, n, cs) && k % cs == k / cs ==> cher_spec(alpha, n, a, cs, upper, x)[k].im
            == 0,
        !(in_mat(k, n, n, cs) && (k % cs == k / cs || strictly_stored(k % cs, k / cs, upper)))
            ==> cher_spec(alpha, n, a, cs, upper, x)[k] == a[k],
{
}

/// Every stored strict entry of `cher`'s result is
/// `a[i, j] + (α·conj(x[j]))·x[i]`; every diagonal entry is real:
/// `re(a[i, i]) + re(x[i]·(α·conj(x[i])))` with imaginary part +0; the
/// other triangle and all storage outside the matrix are kept.
pub proof fn lemma_cher_entries(alpha: u32, n: int, a: Seq<C32>, cs: int, upper: bool, x: Seq<C32>)
    requires
        0 <= n,
        0 <= n,
        mat_fits(a.len() as int, n, n, cs),
    ensures
        cher_spec(alpha, n, a, cs, upper, x).len() == a.len(),
        forall|i: int, j: int|
            0 <= i < n && 0 <= j < n ==> #[trigger] cher_spec(alpha, n, a, cs, upper, x)[j * cs + i] == if (upper && i <= j) || (!upper && j <= i) {
                if i == j {
                    C32 { re: sadd(a[j * cs + i].re, cmul(x[i], crscale(cconj(x[i]), alpha)).re), im: 0 }
                } else {
                    cadd(a[j * cs + i], cmul(crscale(cconj(x[j]), alpha), x[i]))
                }
            } else {
                a[j * cs + i]
            },
        forall|k: int| 0 <= k < a.len() && !in_mat(k, n, n, cs) ==> #[trigger] cher_spec(alpha, n, a, cs, upper, x)[k] == a[k],
{
    assert forall|i: int, j: int| 0 <= i < n && 0 <= j < n implies #[trigger] cher_spec(alpha, n, a, cs, upper, x)[j * cs + i] == if (upper && i <= j) || (!upper && j <= i) {
        if i == j {
                    C32 { re: sadd(a[j * cs + i].re, cmul(x[i], crscale(cconj(x[i]), alpha)).re), im: 0 }
                } else {
                    cadd(a[j * cs + i], cmul(crscale(cconj(x[j]), alpha), x[i]))
                }
    } else {
        a[j * cs + i]
    } by {
        let k = j * cs + i;
        lemma_column_in_bounds(a.len() as int, n, n, cs, j);
        lemma_cell(k, j, cs);
        assert((j + 1) * cs <= n * cs) by (nonlinear_arith)
            requires
                j + 1 <= n,
                0 < cs,
        ;
        assert((j + 1) * cs == j * cs + cs) by (nonlinear_arith);
        assert(in_mat(k, n, n, cs));
    }
}

} // verus!
