//! `zhemv` — Hermitian matrix × vector: y ← αAx + βy, A Hermitian with
//! only one triangle stored (A[j,i] = conj(A[i,j]); diagonal imaginary
//! parts are ignored).
//!
//! Fused column pass: one stream over the stored strict segment of each
//! column serves both triangles' contributions — `y[i] += t·a[i]` while
//! `d += conj(a[i])·x[i]` accumulates in ascending row order — then the
//! diagonal adds `t·re(a[j,j]) + α·d` to `y[j]`, with `t = α·x[j]`.

use super::{
    lemma_column_in_bounds, mat_fits, same_strict_triangle, strictly_stored, zscale_spec, zscale_y,
};
use crate::c64::{zadd, zconj, zmul, zrscale, zzero, C64};
use vstd::prelude::*;

verus! {

/// The stored strict rows of column `j`: `lo..hi`.
pub open spec fn hemv_rows(n: int, upper: bool, j: int) -> (int, int) {
    if upper {
        (0, j)
    } else {
        (j + 1, n)
    }
}

/// `Σ conj(a[off + i])·x[i]` over `i` in `lo..hi`, added in ascending
/// order starting from zero.
pub open spec fn zhemv_acc(a: Seq<C64>, x: Seq<C64>, off: int, lo: int, hi: int) -> C64
    decreases hi - lo,
{
    if hi <= lo {
        zzero()
    } else {
        zadd(zhemv_acc(a, x, off, lo, hi - 1), zmul(zconj(a[off + hi - 1]), x[hi - 1]))
    }
}

/// `y` after column `j` of the pass.
pub open spec fn zhemv_step(
    alpha: C64,
    n: int,
    a: Seq<C64>,
    cs: int,
    upper: bool,
    x: Seq<C64>,
    y: Seq<C64>,
    j: int,
) -> Seq<C64> {
    let t = zmul(alpha, x[j]);
    let cj = j * cs;
    let lo = hemv_rows(n, upper, j).0;
    let hi = hemv_rows(n, upper, j).1;
    let d = zhemv_acc(a, x, cj, lo, hi);
    Seq::new(
        y.len(),
        |i: int|
            if lo <= i < hi {
                zadd(y[i], zmul(t, a[cj + i]))
            } else if i == j {
                zadd(zadd(y[j], zrscale(t, a[cj + j].re)), zmul(alpha, d))
            } else {
                y[i]
            },
    )
}

/// `y` after the first `m` columns of the pass.
pub open spec fn zhemv_steps(
    alpha: C64,
    n: int,
    a: Seq<C64>,
    cs: int,
    upper: bool,
    x: Seq<C64>,
    y: Seq<C64>,
    m: nat,
) -> Seq<C64>
    decreases m,
{
    if m == 0 {
        y
    } else {
        zhemv_step(
            alpha,
            n,
            a,
            cs,
            upper,
            x,
            zhemv_steps(alpha, n, a, cs, upper, x, y, (m - 1) as nat),
            m - 1,
        )
    }
}

/// y ← αAx + βy, A Hermitian n×n at column stride `cs`, with the
/// `upper` (or lower) triangle stored. The storage must hold A (`check_mat`) and the lengths must match.
pub fn zhemv(
    alpha: C64,
    n: usize,
    a: &[C64],
    cs: usize,
    upper: bool,
    x: &[C64],
    beta: C64,
    y: &mut [C64],
)
    requires
        mat_fits(a.len() as int, n as int, n as int, cs as int),
        x@.len() == n,
        old(y)@.len() == n,
    ensures
        final(y)@ == zhemv_steps(
            alpha,
            n as int,
            a@,
            cs as int,
            upper,
            x@,
            zscale_spec(beta, old(y)@),
            n as nat,
        ),
{
    let ghost ys = zscale_spec(beta, y@);
    zscale_y(beta, y);
    let mut j: usize = 0;
    while j < n
        invariant
            j <= n,
            mat_fits(a.len() as int, n as int, n as int, cs as int),
            x@.len() == n,
            y@.len() == n,
            y@ == zhemv_steps(alpha, n as int, a@, cs as int, upper, x@, ys, j as nat),
        decreases n - j,
    {
        proof {
            lemma_column_in_bounds(a.len() as int, n as int, n as int, cs as int, j as int);
        }
        let ghost y0 = y@;
        let cj = j * cs;
        let t = alpha.times(x[j]);
        let (lo, hi) = if upper {
            (0usize, j)
        } else {
            (j + 1, n)
        };
        let mut d = C64::zero();
        let mut i = lo;
        while i < hi
            invariant
                lo <= i <= hi <= n,
                j < n,
                cj == j * cs,
                cj + n <= a.len(),
                (lo as int, hi as int) == hemv_rows(n as int, upper, j as int),
                x@.len() == n,
                y@.len() == n,
                y0.len() == n,
                d == zhemv_acc(a@, x@, cj as int, lo as int, i as int),
                forall|k: int|
                    0 <= k < n ==> #[trigger] y@[k] == if lo <= k < i {
                        zadd(y0[k], zmul(t, a@[cj + k]))
                    } else {
                        y0[k]
                    },
            decreases hi - i,
        {
            let aij = a[cj + i];
            let v = y[i].plus(t.times(aij));
            y[i] = v;
            d = d.plus(aij.conj().times(x[i]));
            i += 1;
        }
        let ajj = a[cj + j];
        let v = y[j].plus(t.scale(ajj.re)).plus(alpha.times(d));
        y[j] = v;
        assert(y@ =~= zhemv_step(alpha, n as int, a@, cs as int, upper, x@, y0, j as int));
        j += 1;
    }
}

/// The accumulation reads only the entries `a[off + lo .. off + hi]`.
proof fn lemma_zhemv_acc_reads(a1: Seq<C64>, a2: Seq<C64>, x: Seq<C64>, off: int, lo: int, hi: int)
    requires
        forall|k: int| off + lo <= k < off + hi ==> #[trigger] a1[k] == a2[k],
    ensures
        zhemv_acc(a1, x, off, lo, hi) == zhemv_acc(a2, x, off, lo, hi),
    decreases hi - lo,
{
    if hi > lo {
        lemma_zhemv_acc_reads(a1, a2, x, off, lo, hi - 1);
    }
}

/// Column `j` of the pass reads only the stored strict segment of the
/// column and the real part of its diagonal entry.
proof fn lemma_zhemv_step_reads(
    alpha: C64,
    n: int,
    a1: Seq<C64>,
    a2: Seq<C64>,
    cs: int,
    upper: bool,
    x: Seq<C64>,
    y: Seq<C64>,
    j: int,
)
    requires
        0 <= j < n,
        same_strict_triangle(a1, a2, n, cs, upper),
        a1[j * cs + j].re == a2[j * cs + j].re,
    ensures
        zhemv_step(alpha, n, a1, cs, upper, x, y, j) == zhemv_step(alpha, n, a2, cs, upper, x, y, j),
{
    let lo = hemv_rows(n, upper, j).0;
    let hi = hemv_rows(n, upper, j).1;
    assert forall|k: int| j * cs + lo <= k < j * cs + hi implies #[trigger] a1[k] == a2[k] by {
        let i = k - j * cs;
        assert(strictly_stored(i, j, upper));
        assert(a1[j * cs + i] == a2[j * cs + i]);
    }
    lemma_zhemv_acc_reads(a1, a2, x, j * cs, lo, hi);
    assert(zhemv_step(alpha, n, a1, cs, upper, x, y, j) =~= zhemv_step(
        alpha,
        n,
        a2,
        cs,
        upper,
        x,
        y,
        j,
    ));
}

/// The first `m` columns of the pass read only the stored strict
/// triangle and the real parts of the diagonal.
proof fn lemma_zhemv_steps_read(
    alpha: C64,
    n: int,
    a1: Seq<C64>,
    a2: Seq<C64>,
    cs: int,
    upper: bool,
    x: Seq<C64>,
    y: Seq<C64>,
    m: nat,
)
    requires
        m <= n,
        same_strict_triangle(a1, a2, n, cs, upper),
        forall|j: int| 0 <= j < n ==> #[trigger] a1[j * cs + j].re == a2[j * cs + j].re,
    ensures
        zhemv_steps(alpha, n, a1, cs, upper, x, y, m) == zhemv_steps(alpha, n, a2, cs, upper, x, y, m),
    decreases m,
{
    if m > 0 {
        lemma_zhemv_steps_read(alpha, n, a1, a2, cs, upper, x, y, (m - 1) as nat);
        let prev = zhemv_steps(alpha, n, a1, cs, upper, x, y, (m - 1) as nat);
        lemma_zhemv_step_reads(alpha, n, a1, a2, cs, upper, x, prev, m - 1);
    }
}

/// `zhemv` reads only what the Hermitian storage convention holds: two
/// matrices that agree on the stored strict triangle and on the real
/// parts of the diagonal give the same result, whatever the other
/// triangle and the imaginary parts of the diagonal hold.
pub proof fn lemma_zhemv_reads_stored_part(
    alpha: C64,
    n: int,
    a1: Seq<C64>,
    a2: Seq<C64>,
    cs: int,
    upper: bool,
    x: Seq<C64>,
    beta: C64,
    y: Seq<C64>,
)
    requires
        0 <= n,
        same_strict_triangle(a1, a2, n, cs, upper),
        forall|j: int| 0 <= j < n ==> #[trigger] a1[j * cs + j].re == a2[j * cs + j].re,
    ensures
        zhemv_steps(alpha, n, a1, cs, upper, x, zscale_spec(beta, y), n as nat) == zhemv_steps(
            alpha,
            n,
            a2,
            cs,
            upper,
            x,
            zscale_spec(beta, y),
            n as nat,
        ),
{
    lemma_zhemv_steps_read(alpha, n, a1, a2, cs, upper, x, zscale_spec(beta, y), n as nat);
}

/// `y0` plus the terms `(α·x[j])·a[i, j]` of the stored entries
/// `a[j*cs + i]` of row `i` in the columns `j` of `lo..hi`, ascending.
pub open spec fn zhemv_row_terms(alpha: C64, a: Seq<C64>, cs: int, x: Seq<C64>, y0: C64, i: int, lo: int, hi: int) -> C64
    decreases hi - lo,
{
    if hi <= lo {
        y0
    } else {
        zadd(zhemv_row_terms(alpha, a, cs, x, y0, i, lo, hi - 1), zmul(zmul(alpha, x[hi - 1]), a[(hi - 1) * cs + i]))
    }
}

/// `Σ conj(a[k, i])·x[k]` over the stored entries `a[i*cs + k]` of column
/// `i` for `k` in `lo..hi`, ascending from zero: row `i` of the unstored
/// triangle, read as the conjugates of column `i`.
pub open spec fn zhemv_mirror_dot(a: Seq<C64>, cs: int, x: Seq<C64>, i: int, lo: int, hi: int) -> C64
    decreases hi - lo,
{
    if hi <= lo {
        zzero()
    } else {
        zadd(zhemv_mirror_dot(a, cs, x, i, lo, hi - 1), zmul(zconj(a[i * cs + (hi - 1)]), x[hi - 1]))
    }
}

/// `yi` with the diagonal term `(α·x[i])·re(a[i, i])` and then `α·dot`
/// added.
pub open spec fn zhemv_diag_update(alpha: C64, a: Seq<C64>, cs: int, x: Seq<C64>, yi: C64, i: int, dot: C64) -> C64 {
    zadd(zadd(yi, zrscale(zmul(alpha, x[i]), a[i * cs + i].re)), zmul(alpha, dot))
}

/// Entry `i` of `αAx + ys` for the Hermitian A of the storage.
pub open spec fn zhemv_entry(alpha: C64, n: int, a: Seq<C64>, cs: int, upper: bool, x: Seq<C64>, ys: Seq<C64>, i: int) -> C64 {
    if upper {
        zhemv_row_terms(
            alpha,
            a,
            cs,
            x,
            zhemv_diag_update(alpha, a, cs, x, ys[i], i, zhemv_mirror_dot(a, cs, x, i, 0, i)),
            i,
            i + 1,
            n,
        )
    } else {
        zhemv_diag_update(
            alpha,
            a,
            cs,
            x,
            zhemv_row_terms(alpha, a, cs, x, ys[i], i, 0, i),
            i,
            zhemv_mirror_dot(a, cs, x, i, i + 1, n),
        )
    }
}

/// The column accumulation is the mirror dot product of its column.
proof fn lemma_zhemv_acc_is_mirror_dot(a: Seq<C64>, cs: int, x: Seq<C64>, j: int, lo: int, hi: int)
    ensures
        zhemv_acc(a, x, j * cs, lo, hi) == zhemv_mirror_dot(a, cs, x, j, lo, hi),
    decreases hi - lo,
{
    if hi > lo {
        lemma_zhemv_acc_is_mirror_dot(a, cs, x, j, lo, hi - 1);
        assert(j * cs + hi - 1 == j * cs + (hi - 1));
    }
}

/// The pass after `m` columns, row by row.
proof fn lemma_zhemv_steps_entries(
    alpha: C64,
    n: int,
    a: Seq<C64>,
    cs: int,
    upper: bool,
    x: Seq<C64>,
    ys: Seq<C64>,
    m: nat,
)
    requires
        m <= n,
        ys.len() == n,
    ensures
        zhemv_steps(alpha, n, a, cs, upper, x, ys, m).len() == n,
        forall|i: int|
            0 <= i < n ==> #[trigger] zhemv_steps(alpha, n, a, cs, upper, x, ys, m)[i] == if upper {
                if i < m {
                    zhemv_row_terms(
                        alpha,
                        a,
                        cs,
                        x,
                        zhemv_diag_update(alpha, a, cs, x, ys[i], i, zhemv_mirror_dot(a, cs, x, i, 0, i)),
                        i,
                        i + 1,
                        m as int,
                    )
                } else {
                    ys[i]
                }
            } else {
                if i < m {
                    zhemv_entry(alpha, n, a, cs, upper, x, ys, i)
                } else {
                    zhemv_row_terms(alpha, a, cs, x, ys[i], i, 0, m as int)
                }
            },
    decreases m,
{
    if m > 0 {
        let j = m - 1;
        lemma_zhemv_steps_entries(alpha, n, a, cs, upper, x, ys, j as nat);
        let lo = hemv_rows(n, upper, j).0;
        let hi = hemv_rows(n, upper, j).1;
        lemma_zhemv_acc_is_mirror_dot(a, cs, x, j, lo, hi);
    }
}

/// `zhemv` multiplies by the Hermitian matrix the storage holds: entry `i`
/// of the result is `β·y[i]` (the BLAS β rule) plus `α·(A x)[i]`, where a
/// stored entry `a[j*cs + i]` of row `i` enters as itself, times `α·x[j]`,
/// the diagonal by its real part, and the unstored half of row `i` as the
/// conjugates of the stored column `i`, summed into one dot product scaled
/// by α. For the upper triangle the diagonal and dot come first and the
/// stored entries of the row (columns `j > i`) follow in ascending order;
/// for the lower triangle the stored entries of the row (columns `j < i`)
/// come first and the diagonal and dot last.
pub proof fn lemma_zhemv_entries(
    alpha: C64,
    n: int,
    a: Seq<C64>,
    cs: int,
    upper: bool,
    x: Seq<C64>,
    beta: C64,
    y: Seq<C64>,
)
    requires
        0 <= n,
        y.len() == n,
    ensures
        zhemv_steps(alpha, n, a, cs, upper, x, zscale_spec(beta, y), n as nat).len() == n,
        forall|i: int|
            0 <= i < n ==> #[trigger] zhemv_steps(alpha, n, a, cs, upper, x, zscale_spec(beta, y), n as nat)[i]
                == zhemv_entry(alpha, n, a, cs, upper, x, zscale_spec(beta, y), i),
{
    lemma_zhemv_steps_entries(alpha, n, a, cs, upper, x, zscale_spec(beta, y), n as nat);
}

} // verus!
