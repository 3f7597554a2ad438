//! `ztrsv` — triangular solve, one right-hand side, in place:
//! x ← A⁻¹x.
//!
//! Divide-then-column-axpy: for the upper triangle columns in
//! descending order, for the lower triangle in ascending order, column
//! `j` first divides `x[j]` by the diagonal (unless it is implicitly
//! one), then adds `(−x[j])·a[i, j]` to every `x[i]` of the strict part
//! of the column (a `zaxpy` stream). No singularity check: a zero
//! diagonal yields infinities or NaN.

use super::{lemma_column_in_bounds, mat_fits, same_diagonal, same_strict_triangle};
use crate::c64::{zadd, zdiv, zmul, zneg, C64};
use crate::L1::zaxpy::zaxpy_at;
use vstd::prelude::*;

verus! {

/// The column that step `s` of the loop (of `n`) works on.
pub open spec fn ztrsv_col(n: int, upper: bool, s: int) -> int {
    if upper {
        n - 1 - s
    } else {
        s
    }
}

/// `x[j]` after the division by the diagonal.
pub open spec fn ztrsv_pivot(a: Seq<C64>, cs: int, unit: bool, x: Seq<C64>, j: int) -> C64 {
    if unit {
        x[j]
    } else {
        zdiv(x[j], a[j * cs + j])
    }
}

/// `x` after column `j` of the loop.
pub open spec fn ztrsv_step(
    n: int,
    a: Seq<C64>,
    cs: int,
    upper: bool,
    unit: bool,
    x: Seq<C64>,
    j: int,
) -> Seq<C64> {
    Seq::new(
        x.len(),
        |i: int|
            if (upper && 0 <= i < j) || (!upper && j < i < n) {
                zadd(x[i], zmul(zneg(ztrsv_pivot(a, cs, unit, x, j)), a[j * cs + i]))
            } else if i == j {
                ztrsv_pivot(a, cs, unit, x, j)
            } else {
                x[i]
            },
    )
}

/// `x` after the first `m` steps of the loop.
pub open spec fn ztrsv_steps(
    n: int,
    a: Seq<C64>,
    cs: int,
    upper: bool,
    unit: bool,
    x: Seq<C64>,
    m: nat,
) -> Seq<C64>
    decreases m,
{
    if m == 0 {
        x
    } else {
        ztrsv_step(
            n,
            a,
            cs,
            upper,
            unit,
            ztrsv_steps(n, a, cs, upper, unit, x, (m - 1) as nat),
            ztrsv_col(n, upper, m - 1),
        )
    }
}

/// x ← A⁻¹x, A triangular n×n at column stride `cs`. `upper` selects the
/// triangle; `unit` treats the diagonal as ones (stored values
/// ignored). The storage must hold A (`check_mat`) and the lengths must match.
pub fn ztrsv(n: usize, a: &[C64], cs: usize, upper: bool, unit: bool, x: &mut [C64])
    requires
        mat_fits(a.len() as int, n as int, n as int, cs as int),
        old(x)@.len() == n,
    ensures
        final(x)@ == ztrsv_steps(n as int, a@, cs as int, upper, unit, old(x)@, n as nat),
{
    let ghost x0 = x@;
    let mut s: usize = 0;
    while s < n
        invariant
            s <= n,
            mat_fits(a.len() as int, n as int, n as int, cs as int),
            x@.len() == n,
            x@ == ztrsv_steps(n as int, a@, cs as int, upper, unit, x0, s as nat),
        decreases n - s,
    {
        let j = if upper {
            n - 1 - s
        } else {
            s
        };
        proof {
            lemma_column_in_bounds(a.len() as int, n as int, n as int, cs as int, j as int);
        }
        let ghost before = x@;
        let cj = j * cs;
        if !unit {
            let v = x[j].quot(a[cj + j]);
            x[j] = v;
        }
        let t = x[j].neg();
        if upper {
            zaxpy_at(t, a, cj, x, 0, j);
        } else {
            zaxpy_at(t, a, cj + j + 1, x, j + 1, n - j - 1);
        }
        assert(x@ =~= ztrsv_step(n as int, a@, cs as int, upper, unit, before, j as int));
        s += 1;
    }
}

/// Each step reads only the strict part of its column and, unless the
/// diagonal is implicitly one, its diagonal entry.
proof fn lemma_ztrsv_step_reads(
    n: int,
    a1: Seq<C64>,
    a2: Seq<C64>,
    cs: int,
    upper: bool,
    unit: bool,
    x: Seq<C64>,
    j: int,
)
    requires
        0 <= j < n,
        same_strict_triangle(a1, a2, n, cs, upper),
        unit || same_diagonal(a1, a2, n, cs),
    ensures
        ztrsv_step(n, a1, cs, upper, unit, x, j) == ztrsv_step(n, a2, cs, upper, unit, x, j),
{
    if !unit {
        assert(a1[j * cs + j] == a2[j * cs + j]);
    }
    assert(ztrsv_step(n, a1, cs, upper, unit, x, j) =~= ztrsv_step(n, a2, cs, upper, unit, x, j));
}

/// The first `m` steps read only the stored triangle.
proof fn lemma_ztrsv_steps_read(
    n: int,
    a1: Seq<C64>,
    a2: Seq<C64>,
    cs: int,
    upper: bool,
    unit: bool,
    x: Seq<C64>,
    m: nat,
)
    requires
        m <= n,
        same_strict_triangle(a1, a2, n, cs, upper),
        unit || same_diagonal(a1, a2, n, cs),
    ensures
        ztrsv_steps(n, a1, cs, upper, unit, x, m) == ztrsv_steps(n, a2, cs, upper, unit, x, m),
    decreases m,
{
    if m > 0 {
        lemma_ztrsv_steps_read(n, a1, a2, cs, upper, unit, x, (m - 1) as nat);
        let prev = ztrsv_steps(n, a1, cs, upper, unit, x, (m - 1) as nat);
        lemma_ztrsv_step_reads(n, a1, a2, cs, upper, unit, prev, ztrsv_col(n, upper, m - 1));
    }
}

/// `ztrsv` reads only the stored triangle: two matrices that agree on the
/// stored strict triangle, and on the diagonal unless it is implicitly
/// one, give the same solution, whatever the other triangle (and, for a
/// unit diagonal, the stored diagonal) holds.
pub proof fn lemma_ztrsv_reads_stored_triangle(
    n: int,
    a1: Seq<C64>,
    a2: Seq<C64>,
    cs: int,
    upper: bool,
    unit: bool,
    x: Seq<C64>,
)
    requires
        0 <= n,
        same_strict_triangle(a1, a2, n, cs, upper),
        unit || same_diagonal(a1, a2, n, cs),
    ensures
        ztrsv_steps(n, a1, cs, upper, unit, x, n as nat) == ztrsv_steps(n, a2, cs, upper, unit, x, n as nat),
{
    lemma_ztrsv_steps_read(n, a1, a2, cs, upper, unit, x, n as nat);
}

/// The diagonal step of the solve: `r` itself on a unit diagonal,
/// otherwise `r / a[i, i]`.
pub open spec fn ztrsv_diag_solve(a: Seq<C64>, cs: int, unit: bool, r: C64, i: int) -> C64 {
    if unit {
        r
    } else {
        zdiv(r, a[i * cs + i])
    }
}

/// Upper triangle, row `i`: `r0` with the terms `a[i, k]·(−x[k])` of the
/// columns `k` from `n-1` down to `lo` eliminated in that (descending)
/// order.
pub open spec fn ztrsv_upper_residual(n: int, a: Seq<C64>, cs: int, x: Seq<C64>, i: int, r0: C64, lo: int) -> C64
    decreases n - lo,
{
    if lo >= n {
        r0
    } else {
        zadd(ztrsv_upper_residual(n, a, cs, x, i, r0, lo + 1), zmul(zneg(x[lo]), a[lo * cs + i]))
    }
}

/// Lower triangle, row `i`: `r0` with the terms `a[i, k]·(−x[k])` of the
/// columns `k` in `0..hi` eliminated in ascending order.
pub open spec fn ztrsv_lower_residual(a: Seq<C64>, cs: int, x: Seq<C64>, i: int, r0: C64, hi: int) -> C64
    decreases hi,
{
    if hi <= 0 {
        r0
    } else {
        zadd(ztrsv_lower_residual(a, cs, x, i, r0, hi - 1), zmul(zneg(x[hi - 1]), a[(hi - 1) * cs + i]))
    }
}

/// The upper residual reads `x` only at indices `lo..n`.
proof fn lemma_ztrsv_upper_residual_frame(n: int, a: Seq<C64>, cs: int, x1: Seq<C64>, x2: Seq<C64>, i: int, r0: C64, lo: int)
    requires
        forall|k: int| lo <= k < n ==> #[trigger] x1[k] == x2[k],
    ensures
        ztrsv_upper_residual(n, a, cs, x1, i, r0, lo) == ztrsv_upper_residual(n, a, cs, x2, i, r0, lo),
    decreases n - lo,
{
    if lo < n {
        lemma_ztrsv_upper_residual_frame(n, a, cs, x1, x2, i, r0, lo + 1);
        assert(x1[lo] == x2[lo]);
    }
}

/// The lower residual reads `x` only at indices `0..hi`.
proof fn lemma_ztrsv_lower_residual_frame(a: Seq<C64>, cs: int, x1: Seq<C64>, x2: Seq<C64>, i: int, r0: C64, hi: int)
    requires
        forall|k: int| 0 <= k < hi ==> #[trigger] x1[k] == x2[k],
    ensures
        ztrsv_lower_residual(a, cs, x1, i, r0, hi) == ztrsv_lower_residual(a, cs, x2, i, r0, hi),
    decreases hi,
{
    if hi > 0 {
        lemma_ztrsv_lower_residual_frame(a, cs, x1, x2, i, r0, hi - 1);
        assert(x1[hi - 1] == x2[hi - 1]);
    }
}

/// The solved rows: entry `i` is solved when it equals its diagonal step
/// applied to its right-hand side `b[i]` with the other stored entries of
/// row `i` eliminated against the solved values.
pub open spec fn ztrsv_row_solved(n: int, a: Seq<C64>, cs: int, upper: bool, unit: bool, b: Seq<C64>, x: Seq<C64>, i: int) -> bool {
    x[i] == ztrsv_diag_solve(
        a,
        cs,
        unit,
        if upper {
            ztrsv_upper_residual(n, a, cs, x, i, b[i], i + 1)
        } else {
            ztrsv_lower_residual(a, cs, x, i, b[i], i)
        },
        i,
    )
}

/// The loop after `s` steps: the rows already solved satisfy their
/// equations, the others hold their partially eliminated right-hand sides.
proof fn lemma_ztrsv_steps_solved(n: int, a: Seq<C64>, cs: int, upper: bool, unit: bool, b: Seq<C64>, s: nat)
    requires
        s <= n,
        b.len() == n,
    ensures
        ztrsv_steps(n, a, cs, upper, unit, b, s).len() == n,
        forall|i: int|
            0 <= i < n ==> if upper {
                if i >= n - s {
                    ztrsv_row_solved(n, a, cs, upper, unit, b, ztrsv_steps(n, a, cs, upper, unit, b, s), i)
                } else {
                    #[trigger] ztrsv_steps(n, a, cs, upper, unit, b, s)[i] == ztrsv_upper_residual(
                        n,
                        a,
                        cs,
                        ztrsv_steps(n, a, cs, upper, unit, b, s),
                        i,
                        b[i],
                        n - s,
                    )
                }
            } else {
                if i < s {
                    ztrsv_row_solved(n, a, cs, upper, unit, b, ztrsv_steps(n, a, cs, upper, unit, b, s), i)
                } else {
                    ztrsv_steps(n, a, cs, upper, unit, b, s)[i] == ztrsv_lower_residual(
                        a,
                        cs,
                        ztrsv_steps(n, a, cs, upper, unit, b, s),
                        i,
                        b[i],
                        s as int,
                    )
                }
            },
    decreases s,
{
    if s > 0 {
        lemma_ztrsv_steps_solved(n, a, cs, upper, unit, b, (s - 1) as nat);
        let prev = ztrsv_steps(n, a, cs, upper, unit, b, (s - 1) as nat);
        let cur = ztrsv_steps(n, a, cs, upper, unit, b, s);
        let j = ztrsv_col(n, upper, s - 1);
        assert(cur == ztrsv_step(n, a, cs, upper, unit, prev, j));
        if upper {
            assert forall|k: int| j + 1 <= k < n implies #[trigger] cur[k] == prev[k] by {}
            assert forall|i: int|
                0 <= i < n implies if i >= n - s {
                ztrsv_row_solved(n, a, cs, upper, unit, b, cur, i)
            } else {
                #[trigger] cur[i] == ztrsv_upper_residual(n, a, cs, cur, i, b[i], n - s)
            } by {
                if i > j {
                    lemma_ztrsv_upper_residual_frame(n, a, cs, cur, prev, i, b[i], i + 1);
                } else if i == j {
                    lemma_ztrsv_upper_residual_frame(n, a, cs, cur, prev, i, b[i], i + 1);
                    assert(prev[i] == ztrsv_upper_residual(n, a, cs, prev, i, b[i], n - s + 1));
                } else {
                    lemma_ztrsv_upper_residual_frame(n, a, cs, cur, prev, i, b[i], j + 1);
                    assert(prev[i] == ztrsv_upper_residual(n, a, cs, prev, i, b[i], j + 1));
                }
            }
        } else {
            assert forall|k: int| 0 <= k < j ==> #[trigger] cur[k] == prev[k] by {}
            assert forall|i: int|
                0 <= i < n implies if i < s {
                ztrsv_row_solved(n, a, cs, upper, unit, b, cur, i)
            } else {
                #[trigger] cur[i] == ztrsv_lower_residual(a, cs, cur, i, b[i], s as int)
            } by {
                if i < j {
                    lemma_ztrsv_lower_residual_frame(a, cs, cur, prev, i, b[i], i);
                } else if i == j {
                    lemma_ztrsv_lower_residual_frame(a, cs, cur, prev, i, b[i], i);
                    assert(prev[i] == ztrsv_lower_residual(a, cs, prev, i, b[i], s - 1));
                } else {
                    lemma_ztrsv_lower_residual_frame(a, cs, cur, prev, i, b[i], j);
                    assert(prev[i] == ztrsv_lower_residual(a, cs, prev, i, b[i], j));
                }
            }
        }
    }
}

/// `ztrsv` solves the triangular system: every entry `x[i]` of the result
/// is its right-hand side `b[i]`, with the terms `a[i, k]·(−x[k])` of the
/// other stored entries of row `i` eliminated against the RESULT's own
/// values (columns `k > i` from the last down for the upper triangle,
/// columns `k < i` from the first up for the lower one), divided by
/// `a[i, i]` unless the diagonal is implicitly one — forward or back
/// substitution, for both triangles.
pub proof fn lemma_ztrsv_solves(n: int, a: Seq<C64>, cs: int, upper: bool, unit: bool, b: Seq<C64>)
    requires
        b.len() == n,
    ensures
        ztrsv_steps(n, a, cs, upper, unit, b, n as nat).len() == n,
        forall|i: int|
            0 <= i < n ==> #[trigger] ztrsv_row_solved(n, a, cs, upper, unit, b, ztrsv_steps(n, a, cs, upper, unit, b, n as nat), i),
{
    lemma_ztrsv_steps_solved(n, a, cs, upper, unit, b, n as nat);
}

} // verus!
