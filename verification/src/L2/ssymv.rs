//! `ssymv` — symmetric matrix × vector: y ← αAx + βy, A symmetric with
//! only one triangle stored, the values given as binary32 bit patterns.
//!
//! Fused column pass: one stream over the stored strict segment of each
//! column serves both triangles' contributions — `y[i] += t·a[i]` while
//! `d += a[i]·x[i]` accumulates in ascending row order — then the
//! diagonal adds `t·a[j,j] + α·d` to `y[j]`, with `t = α·x[j]`.

use super::zhemv::hemv_rows;
use super::{
    sscale_spec, sscale_y, lemma_column_in_bounds, mat_fits, same_diagonal, same_strict_triangle,
    strictly_stored,
};
use crate::ieee::{sadd, smul, ieee_sadd, ieee_smul};
use vstd::prelude::*;

verus! {

/// `Σ a[off + i]·x[i]` over `i` in `lo..hi`, added in ascending order
/// starting from +0.
pub open spec fn ssymv_acc(a: Seq<u32>, x: Seq<u32>, off: int, lo: int, hi: int) -> u32
    decreases hi - lo,
{
    if hi <= lo {
        0
    } else {
        sadd(ssymv_acc(a, x, off, lo, hi - 1), smul(a[off + hi - 1], x[hi - 1]))
    }
}

/// `y` after column `j` of the pass.
pub open spec fn ssymv_step(
    alpha: u32,
    n: int,
    a: Seq<u32>,
    cs: int,
    upper: bool,
    x: Seq<u32>,
    y: Seq<u32>,
    j: int,
) -> Seq<u32> {
    let t = smul(alpha, x[j]);
    let cj = j * cs;
    let lo = hemv_rows(n, upper, j).0;
    let hi = hemv_rows(n, upper, j).1;
    let d = ssymv_acc(a, x, cj, lo, hi);
    Seq::new(
        y.len(),
        |i: int|
            if lo <= i < hi {
                sadd(y[i], smul(t, a[cj + i]))
            } else if i == j {
                sadd(y[j], sadd(smul(t, a[cj + j]), smul(alpha, d)))
            } else {
                y[i]
            },
    )
}

/// `y` after the first `m` columns of the pass.
pub open spec fn ssymv_steps(
    alpha: u32,
    n: int,
    a: Seq<u32>,
    cs: int,
    upper: bool,
    x: Seq<u32>,
    y: Seq<u32>,
    m: nat,
) -> Seq<u32>
    decreases m,
{
    if m == 0 {
        y
    } else {
        ssymv_step(
            alpha,
            n,
            a,
            cs,
            upper,
            x,
            ssymv_steps(alpha, n, a, cs, upper, x, y, (m - 1) as nat),
            m - 1,
        )
    }
}

/// y ← αAx + βy, A symmetric n×n at column stride `cs`, with the
/// `upper` (or lower) triangle stored. The storage must hold A (`check_mat`) and the lengths must match.
pub fn ssymv(
    alpha: u32,
    n: usize,
    a: &[u32],
    cs: usize,
    upper: bool,
    x: &[u32],
    beta: u32,
    y: &mut [u32],
)
    requires
        mat_fits(a.len() as int, n as int, n as int, cs as int),
        x@.len() == n,
        old(y)@.len() == n,
    ensures
        final(y)@ == ssymv_steps(
            alpha,
            n as int,
            a@,
            cs as int,
            upper,
            x@,
            sscale_spec(beta, old(y)@),
            n as nat,
        ),
{
    let ghost ys = sscale_spec(beta, y@);
    sscale_y(beta, y);
    let mut j: usize = 0;
    while j < n
        invariant
            j <= n,
            mat_fits(a.len() as int, n as int, n as int, cs as int),
            x@.len() == n,
            y@.len() == n,
            y@ == ssymv_steps(alpha, n as int, a@, cs as int, upper, x@, ys, j as nat),
        decreases n - j,
    {
        proof {
            lemma_column_in_bounds(a.len() as int, n as int, n as int, cs as int, j as int);
        }
        let ghost y0 = y@;
        let cj = j * cs;
        let t = ieee_smul(alpha, x[j]);
        let (lo, hi) = if upper {
            (0usize, j)
        } else {
            (j + 1, n)
        };
        let mut d: u32 = 0;
        let mut i = lo;
        while i < hi
            invariant
                lo <= i <= hi <= n,
                j < n,
                cj == j * cs,
                cj + n <= a.len(),
                (lo as int, hi as int) == hemv_rows(n as int, upper, j as int),
                x@.len() == n,
                y@.len() == n,
                y0.len() == n,
                d == ssymv_acc(a@, x@, cj as int, lo as int, i as int),
                forall|k: int|
                    0 <= k < n ==> #[trigger] y@[k] == if lo <= k < i {
                        sadd(y0[k], smul(t, a@[cj + k]))
                    } else {
                        y0[k]
                    },
            decreases hi - i,
        {
            let aij = a[cj + i];
            let v = ieee_sadd(y[i], ieee_smul(t, aij));
            y[i] = v;
            d = ieee_sadd(d, ieee_smul(aij, x[i]));
            i += 1;
        }
        let ajj = a[cj + j];
        let v = ieee_sadd(y[j], ieee_sadd(ieee_smul(t, ajj), ieee_smul(alpha, d)));
        y[j] = v;
        assert(y@ =~= ssymv_step(alpha, n as int, a@, cs as int, upper, x@, y0, j as int));
        j += 1;
    }
}

/// The accumulation reads only the entries `a[off + lo .. off + hi]`.
proof fn lemma_ssymv_acc_reads(a1: Seq<u32>, a2: Seq<u32>, x: Seq<u32>, off: int, lo: int, hi: int)
    requires
        forall|k: int| off + lo <= k < off + hi ==> #[trigger] a1[k] == a2[k],
    ensures
        ssymv_acc(a1, x, off, lo, hi) == ssymv_acc(a2, x, off, lo, hi),
    decreases hi - lo,
{
    if hi > lo {
        lemma_ssymv_acc_reads(a1, a2, x, off, lo, hi - 1);
    }
}

/// Column `j` of the pass reads only the stored strict segment of the
/// column and its diagonal entry.
proof fn lemma_ssymv_step_reads(
    alpha: u32,
    n: int,
    a1: Seq<u32>,
    a2: Seq<u32>,
    cs: int,
    upper: bool,
    x: Seq<u32>,
    y: Seq<u32>,
    j: int,
)
    requires
        0 <= j < n,
        same_strict_triangle(a1, a2, n, cs, upper),
        a1[j * cs + j] == a2[j * cs + j],
    ensures
        ssymv_step(alpha, n, a1, cs, upper, x, y, j) == ssymv_step(alpha, n, a2, cs, upper, x, y, j),
{
    let lo = hemv_rows(n, upper, j).0;
    let hi = hemv_rows(n, upper, j).1;
    assert forall|k: int| j * cs + lo <= k < j * cs + hi implies #[trigger] a1[k] == a2[k] by {
        let i = k - j * cs;
        assert(strictly_stored(i, j, upper));
        assert(a1[j * cs + i] == a2[j * cs + i]);
    }
    lemma_ssymv_acc_reads(a1, a2, x, j * cs, lo, hi);
    assert(ssymv_step(alpha, n, a1, cs, upper, x, y, j) =~= ssymv_step(
        alpha,
        n,
        a2,
        cs,
        upper,
        x,
        y,
        j,
    ));
}

/// The first `m` columns of the pass read only the stored triangle.
proof fn lemma_ssymv_steps_read(
    alpha: u32,
    n: int,
    a1: Seq<u32>,
    a2: Seq<u32>,
    cs: int,
    upper: bool,
    x: Seq<u32>,
    y: Seq<u32>,
    m: nat,
)
    requires
        m <= n,
        same_strict_triangle(a1, a2, n, cs, upper),
        same_diagonal(a1, a2, n, cs),
    ensures
        ssymv_steps(alpha, n, a1, cs, upper, x, y, m) == ssymv_steps(alpha, n, a2, cs, upper, x, y, m),
    decreases m,
{
    if m > 0 {
        lemma_ssymv_steps_read(alpha, n, a1, a2, cs, upper, x, y, (m - 1) as nat);
        let prev = ssymv_steps(alpha, n, a1, cs, upper, x, y, (m - 1) as nat);
        assert(a1[(m - 1) * cs + (m - 1)] == a2[(m - 1) * cs + (m - 1)]);
        lemma_ssymv_step_reads(alpha, n, a1, a2, cs, upper, x, prev, m - 1);
    }
}

/// `ssymv` reads only the stored triangle: two matrices that agree on the
/// stored triangle (diagonal included) give the same result, whatever
/// the other triangle holds.
pub proof fn lemma_ssymv_reads_stored_triangle(
    alpha: u32,
    n: int,
    a1: Seq<u32>,
    a2: Seq<u32>,
    cs: int,
    upper: bool,
    x: Seq<u32>,
    beta: u32,
    y: Seq<u32>,
)
    requires
        0 <= n,
        same_strict_triangle(a1, a2, n, cs, upper),
        same_diagonal(a1, a2, n, cs),
    ensures
        ssymv_steps(alpha, n, a1, cs, upper, x, sscale_spec(beta, y), n as nat) == ssymv_steps(
            alpha,
            n,
            a2,
            cs,
            upper,
            x,
            sscale_spec(beta, y),
            n as nat,
        ),
{
    lemma_ssymv_steps_read(alpha, n, a1, a2, cs, upper, x, sscale_spec(beta, y), n as nat);
}

/// `y0` plus the terms `(α·x[j])·a[i, j]` of the stored entries
/// `a[j*cs + i]` of row `i` in the columns `j` of `lo..hi`, ascending.
pub open spec fn ssymv_row_terms(alpha: u32, a: Seq<u32>, cs: int, x: Seq<u32>, y0: u32, i: int, lo: int, hi: int) -> u32
    decreases hi - lo,
{
    if hi <= lo {
        y0
    } else {
        sadd(ssymv_row_terms(alpha, a, cs, x, y0, i, lo, hi - 1), smul(smul(alpha, x[hi - 1]), a[(hi - 1) * cs + i]))
    }
}

/// `Σ a[k, i]·x[k]` over the stored entries `a[i*cs + k]` of column `i`
/// for `k` in `lo..hi`, ascending from +0: row `i` of the unstored
/// triangle, read from column `i` by symmetry.
pub open spec fn ssymv_mirror_dot(a: Seq<u32>, cs: int, x: Seq<u32>, i: int, lo: int, hi: int) -> u32
    decreases hi - lo,
{
    if hi <= lo {
        0
    } else {
        sadd(ssymv_mirror_dot(a, cs, x, i, lo, hi - 1), smul(a[i * cs + (hi - 1)], x[hi - 1]))
    }
}

/// `yi` plus `(α·x[i])·a[i, i] + α·dot`.
pub open spec fn ssymv_diag_update(alpha: u32, a: Seq<u32>, cs: int, x: Seq<u32>, yi: u32, i: int, dot: u32) -> u32 {
    sadd(yi, sadd(smul(smul(alpha, x[i]), a[i * cs + i]), smul(alpha, dot)))
}

/// Entry `i` of `αAx + ys` for the symmetric A of the storage.
pub open spec fn ssymv_entry(alpha: u32, n: int, a: Seq<u32>, cs: int, upper: bool, x: Seq<u32>, ys: Seq<u32>, i: int) -> u32 {
    if upper {
        ssymv_row_terms(
            alpha,
            a,
            cs,
            x,
            ssymv_diag_update(alpha, a, cs, x, ys[i], i, ssymv_mirror_dot(a, cs, x, i, 0, i)),
            i,
            i + 1,
            n,
        )
    } else {
        ssymv_diag_update(
            alpha,
            a,
            cs,
            x,
            ssymv_row_terms(alpha, a, cs, x, ys[i], i, 0, i),
            i,
            ssymv_mirror_dot(a, cs, x, i, i + 1, n),
        )
    }
}

/// The column accumulation is the mirror dot product of its column.
proof fn lemma_ssymv_acc_is_mirror_dot(a: Seq<u32>, cs: int, x: Seq<u32>, j: int, lo: int, hi: int)
    ensures
        ssymv_acc(a, x, j * cs, lo, hi) == ssymv_mirror_dot(a, cs, x, j, lo, hi),
    decreases hi - lo,
{
    if hi > lo {
        lemma_ssymv_acc_is_mirror_dot(a, cs, x, j, lo, hi - 1);
        assert(j * cs + hi - 1 == j * cs + (hi - 1));
    }
}

/// The pass after `m` columns, row by row.
proof fn lemma_ssymv_steps_entries(
    alpha: u32,
    n: int,
    a: Seq<u32>,
    cs: int,
    upper: bool,
    x: Seq<u32>,
    ys: Seq<u32>,
    m: nat,
)
    requires
        m <= n,
        ys.len() == n,
    ensures
        ssymv_steps(alpha, n, a, cs, upper, x, ys, m).len() == n,
        forall|i: int|
            0 <= i < n ==> #[trigger] ssymv_steps(alpha, n, a, cs, upper, x, ys, m)[i] == if upper {
                if i < m {
                    ssymv_row_terms(
                        alpha,
                        a,
                        cs,
                        x,
                        ssymv_diag_update(alpha, a, cs, x, ys[i], i, ssymv_mirror_dot(a, cs, x, i, 0, i)),
                        i,
                        i + 1,
                        m as int,
                    )
                } else {
                    ys[i]
                }
            } else {
                if i < m {
                    ssymv_entry(alpha, n, a, cs, upper, x, ys, i)
                } else {
                    ssymv_row_terms(alpha, a, cs, x, ys[i], i, 0, m as int)
                }
            },
    decreases m,
{
    if m > 0 {
        let j = m - 1;
        lemma_ssymv_steps_entries(alpha, n, a, cs, upper, x, ys, j as nat);
        let lo = hemv_rows(n, upper, j).0;
        let hi = hemv_rows(n, upper, j).1;
        lemma_ssymv_acc_is_mirror_dot(a, cs, x, j, lo, hi);
    }
}

/// `ssymv` multiplies by the symmetric matrix the storage holds: entry
/// `i` of the result is `β·y[i]` (the BLAS β rule) plus `α·(A x)[i]`,
/// where a stored entry `a[j*cs + i]` of row `i` enters times `α·x[j]`,
/// the diagonal likewise, and the unstored half of row `i` as column `i`
/// read by symmetry, summed into one dot product scaled by α. For the
/// upper triangle the diagonal and dot come first and the stored entries
/// of the row (columns `j > i`) follow in ascending order; for the lower
/// triangle the stored entries of the row (columns `j < i`) come first
/// and the diagonal and dot last.
pub proof fn lemma_ssymv_entries(
    alpha: u32,
    n: int,
    a: Seq<u32>,
    cs: int,
    upper: bool,
    x: Seq<u32>,
    beta: u32,
    y: Seq<u32>,
)
    requires
        0 <= n,
        y.len() == n,
    ensures
        ssymv_steps(alpha, n, a, cs, upper, x, sscale_spec(beta, y), n as nat).len() == n,
        forall|i: int|
            0 <= i < n ==> #[trigger] ssymv_steps(alpha, n, a, cs, upper, x, sscale_spec(beta, y), n as nat)[i]
                == ssymv_entry(alpha, n, a, cs, upper, x, sscale_spec(beta, y), i),
{
    lemma_ssymv_steps_entries(alpha, n, a, cs, upper, x, sscale_spec(beta, y), n as nat);
}

} // verus!
