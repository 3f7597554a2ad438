//! `strsv` — triangular solve, one right-hand side, in place:
//! x ← A⁻¹x, the values given as binary32 bit patterns.
//!
//! Divide-then-column-axpy: for the upper triangle columns in
//! descending order, for the lower triangle in ascending order, column
//! `j` first divides `x[j]` by the diagonal (unless it is implicitly
//! one), then adds `a[i, j]·(−x[j])` to every `x[i]` of the strict part
//! of the column (a `saxpy` stream). No singularity check: a zero
//! diagonal yields infinities or NaN.

use super::{lemma_column_in_bounds, mat_fits, same_diagonal, same_strict_triangle};
use crate::ieee::{sadd, sdiv, smul, sneg, ieee_sdiv, ieee_sneg};
use crate::L1::saxpy::saxpy_at;
use vstd::prelude::*;

verus! {

/// The column that step `s` of the loop (of `n`) works on.
pub open spec fn strsv_col(n: int, upper: bool, s: int) -> int {
    if upper {
        n - 1 - s
    } else {
        s
    }
}

/// `x[j]` after the division by the diagonal.
pub open spec fn strsv_pivot(a: Seq<u32>, cs: int, unit: bool, x: Seq<u32>, j: int) -> u32 {
    if unit {
        x[j]
    } else {
        sdiv(x[j], a[j * cs + j])
    }
}

/// `x` after column `j` of the loop.
pub open spec fn strsv_step(
    n: int,
    a: Seq<u32>,
    cs: int,
    upper: bool,
    unit: bool,
    x: Seq<u32>,
    j: int,
) -> Seq<u32> {
    Seq::new(
        x.len(),
        |i: int|
            if (upper && 0 <= i < j) || (!upper && j < i < n) {
                sadd(x[i], smul(a[j * cs + i], sneg(strsv_pivot(a, cs, unit, x, j))))
            } else if i == j {
                strsv_pivot(a, cs, unit, x, j)
            } else {
                x[i]
            },
    )
}

/// `x` after the first `m` steps of the loop.
pub open spec fn strsv_steps(
    n: int,
    a: Seq<u32>,
    cs: int,
    upper: bool,
    unit: bool,
    x: Seq<u32>,
    m: nat,
) -> Seq<u32>
    decreases m,
{
    if m == 0 {
        x
    } else {
        strsv_step(
            n,
            a,
            cs,
            upper,
            unit,
            strsv_steps(n, a, cs, upper, unit, x, (m - 1) as nat),
            strsv_col(n, upper, m - 1),
        )
    }
}

/// x ← A⁻¹x, A triangular n×n at column stride `cs`. `upper` selects the
/// triangle; `unit` treats the diagonal as ones (stored values
/// ignored). The storage must hold A (`check_mat`) and the lengths must match.
pub fn strsv(n: usize, a: &[u32], cs: usize, upper: bool, unit: bool, x: &mut [u32])
    requires
        mat_fits(a.len() as int, n as int, n as int, cs as int),
        old(x)@.len() == n,
    ensures
        final(x)@ == strsv_steps(n as int, a@, cs as int, upper, unit, old(x)@, n as nat),
{
    let ghost x0 = x@;
    let mut s: usize = 0;
    while s < n
        invariant
            s <= n,
            mat_fits(a.len() as int, n as int, n as int, cs as int),
            x@.len() == n,
            x@ == strsv_steps(n as int, a@, cs as int, upper, unit, x0, s as nat),
        decreases n - s,
    {
        let j = if upper {
            n - 1 - s
        } else {
            s
        };
        proof {
            lemma_column_in_bounds(a.len() as int, n as int, n as int, cs as int, j as int);
        }
        let ghost before = x@;
        let cj = j * cs;
        if !unit {
            let v = ieee_sdiv(x[j], a[cj + j]);
            x[j] = v;
        }
        let t = ieee_sneg(x[j]);
        if upper {
            saxpy_at(t, a, cj, x, 0, j);
        } else {
            saxpy_at(t, a, cj + j + 1, x, j + 1, n - j - 1);
        }
        assert(x@ =~= strsv_step(n as int, a@, cs as int, upper, unit, before, j as int));
        s += 1;
    }
}

/// Each step reads only the strict part of its column and, unless the
/// diagonal is implicitly one, its diagonal entry.
proof fn lemma_strsv_step_reads(
    n: int,
    a1: Seq<u32>,
    a2: Seq<u32>,
    cs: int,
    upper: bool,
    unit: bool,
    x: Seq<u32>,
    j: int,
)
    requires
        0 <= j < n,
        same_strict_triangle(a1, a2, n, cs, upper),
        unit || same_diagonal(a1, a2, n, cs),
    ensures
        strsv_step(n, a1, cs, upper, unit, x, j) == strsv_step(n, a2, cs, upper, unit, x, j),
{
    if !unit {
        assert(a1[j * cs + j] == a2[j * cs + j]);
    }
    assert(strsv_step(n, a1, cs, upper, unit, x, j) =~= strsv_step(n, a2, cs, upper, unit, x, j));
}

/// The first `m` steps read only the stored triangle.
proof fn lemma_strsv_steps_read(
    n: int,
    a1: Seq<u32>,
    a2: Seq<u32>,
    cs: int,
    upper: bool,
    unit: bool,
    x: Seq<u32>,
    m: nat,
)
    requires
        m <= n,
        same_strict_triangle(a1, a2, n, cs, upper),
        unit || same_diagonal(a1, a2, n, cs),
    ensures
        strsv_steps(n, a1, cs, upper, unit, x, m) == strsv_steps(n, a2, cs, upper, unit, x, m),
    decreases m,
{
    if m > 0 {
        lemma_strsv_steps_read(n, a1, a2, cs, upper, unit, x, (m - 1) as nat);
        let prev = strsv_steps(n, a1, cs, upper, unit, x, (m - 1) as nat);
        lemma_strsv_step_reads(n, a1, a2, cs, upper, unit, prev, strsv_col(n, upper, m - 1));
    }
}

/// `strsv` reads only the stored triangle: two matrices that agree on the
/// stored strict triangle, and on the diagonal unless it is implicitly
/// one, give the same solution, whatever the other triangle (and, for a
/// unit diagonal, the stored diagonal) holds.
pub proof fn lemma_strsv_reads_stored_triangle(
    n: int,
    a1: Seq<u32>,
    a2: Seq<u32>,
    cs: int,
    upper: bool,
    unit: bool,
    x: Seq<u32>,
)
    requires
        0 <= n,
        same_strict_triangle(a1, a2, n, cs, upper),
        unit || same_diagonal(a1, a2, n, cs),
    ensures
        strsv_steps(n, a1, cs, upper, unit, x, n as nat) == strsv_steps(n, a2, cs, upper, unit, x, n as nat),
{
    lemma_strsv_steps_read(n, a1, a2, cs, upper, unit, x, n as nat);
}

/// The diagonal step of the solve: `r` itself on a unit diagonal,
/// otherwise `r / a[i, i]`.
pub open spec fn strsv_diag_solve(a: Seq<u32>, cs: int, unit: bool, r: u32, i: int) -> u32 {
    if unit {
        r
    } else {
        sdiv(r, a[i * cs + i])
    }
}

/// Upper triangle, row `i`: `r0` with the terms `a[i, k]·(−x[k])` of the
/// columns `k` from `n-1` down to `lo` eliminated in that (descending)
/// order.
pub open spec fn strsv_upper_residual(n: int, a: Seq<u32>, cs: int, x: Seq<u32>, i: int, r0: u32, lo: int) -> u32
    decreases n - lo,
{
    if lo >= n {
        r0
    } else {
        sadd(strsv_upper_residual(n, a, cs, x, i, r0, lo + 1), smul(a[lo * cs + i], sneg(x[lo])))
    }
}

/// Lower triangle, row `i`: `r0` with the terms `a[i, k]·(−x[k])` of the
/// columns `k` in `0..hi` eliminated in ascending order.
pub open spec fn strsv_lower_residual(a: Seq<u32>, cs: int, x: Seq<u32>, i: int, r0: u32, hi: int) -> u32
    decreases hi,
{
    if hi <= 0 {
        r0
    } else {
        sadd(strsv_lower_residual(a, cs, x, i, r0, hi - 1), smul(a[(hi - 1) * cs + i], sneg(x[hi - 1])))
    }
}

/// The upper residual reads `x` only at indices `lo..n`.
proof fn lemma_strsv_upper_residual_frame(n: int, a: Seq<u32>, cs: int, x1: Seq<u32>, x2: Seq<u32>, i: int, r0: u32, lo: int)
    requires
        forall|k: int| lo <= k < n ==> #[trigger] x1[k] == x2[k],
    ensures
        strsv_upper_residual(n, a, cs, x1, i, r0, lo) == strsv_upper_residual(n, a, cs, x2, i, r0, lo),
    decreases n - lo,
{
    if lo < n {
        lemma_strsv_upper_residual_frame(n, a, cs, x1, x2, i, r0, lo + 1);
        assert(x1[lo] == x2[lo]);
    }
}

/// The lower residual reads `x` only at indices `0..hi`.
proof fn lemma_strsv_lower_residual_frame(a: Seq<u32>, cs: int, x1: Seq<u32>, x2: Seq<u32>, i: int, r0: u32, hi: int)
    requires
        forall|k: int| 0 <= k < hi ==> #[trigger] x1[k] == x2[k],
    ensures
        strsv_lower_residual(a, cs, x1, i, r0, hi) == strsv_lower_residual(a, cs, x2, i, r0, hi),
    decreases hi,
{
    if hi > 0 {
        lemma_strsv_lower_residual_frame(a, cs, x1, x2, i, r0, hi - 1);
        assert(x1[hi - 1] == x2[hi - 1]);
    }
}

/// The solved rows: entry `i` is solved when it equals its diagonal step
/// applied to its right-hand side `b[i]` with the other stored entries of
/// row `i` eliminated against the solved values.
pub open spec fn strsv_row_solved(n: int, a: Seq<u32>, cs: int, upper: bool, unit: bool, b: Seq<u32>, x: Seq<u32>, i: int) -> bool {
    x[i] == strsv_diag_solve(
        a,
        cs,
        unit,
        if upper {
            strsv_upper_residual(n, a, cs, x, i, b[i], i + 1)
        } else {
            strsv_lower_residual(a, cs, x, i, b[i], i)
        },
        i,
    )
}

/// The loop after `s` steps: the rows already solved satisfy their
/// equations, the others hold their partially eliminated right-hand sides.
proof fn lemma_strsv_steps_solved(n: int, a: Seq<u32>, cs: int, upper: bool, unit: bool, b: Seq<u32>, s: nat)
    requires
        s <= n,
        b.len() == n,
    ensures
        strsv_steps(n, a, cs, upper, unit, b, s).len() == n,
        forall|i: int|
            0 <= i < n ==> if upper {
                if i >= n - s {
                    strsv_row_solved(n, a, cs, upper, unit, b, strsv_steps(n, a, cs, upper, unit, b, s), i)
                } else {
                    #[trigger] strsv_steps(n, a, cs, upper, unit, b, s)[i] == strsv_upper_residual(
                        n,
                        a,
                        cs,
                        strsv_steps(n, a, cs, upper, unit, b, s),
                        i,
                        b[i],
                        n - s,
                    )
                }
            } else {
                if i < s {
                    strsv_row_solved(n, a, cs, upper, unit, b, strsv_steps(n, a, cs, upper, unit, b, s), i)
                } else {
                    strsv_steps(n, a, cs, upper, unit, b, s)[i] == strsv_lower_residual(
                        a,
                        cs,
                        strsv_steps(n, a, cs, upper, unit, b, s),
                        i,
                        b[i],
                        s as int,
                    )
                }
            },
    decreases s,
{
    if s > 0 {
        lemma_strsv_steps_solved(n, a, cs, upper, unit, b, (s - 1) as nat);
        let prev = strsv_steps(n, a, cs, upper, unit, b, (s - 1) as nat);
        let cur = strsv_steps(n, a, cs, upper, unit, b, s);
        let j = strsv_col(n, upper, s - 1);
        assert(cur == strsv_step(n, a, cs, upper, unit, prev, j));
        if upper {
            assert forall|k: int| j + 1 <= k < n implies #[trigger] cur[k] == prev[k] by {}
            assert forall|i: int|
                0 <= i < n implies if i >= n - s {
                strsv_row_solved(n, a, cs, upper, unit, b, cur, i)
            } else {
                #[trigger] cur[i] == strsv_upper_residual(n, a, cs, cur, i, b[i], n - s)
            } by {
                if i > j {
                    lemma_strsv_upper_residual_frame(n, a, cs, cur, prev, i, b[i], i + 1);
                } else if i == j {
                    lemma_strsv_upper_residual_frame(n, a, cs, cur, prev, i, b[i], i + 1);
                    assert(prev[i] == strsv_upper_residual(n, a, cs, prev, i, b[i], n - s + 1));
                } else {
                    lemma_strsv_upper_residual_frame(n, a, cs, cur, prev, i, b[i], j + 1);
                    assert(prev[i] == strsv_upper_residual(n, a, cs, prev, i, b[i], j + 1));
                }
            }
        } else {
            assert forall|k: int| 0 <= k < j ==> #[trigger] cur[k] == prev[k] by {}
            assert forall|i: int|
                0 <= i < n implies if i < s {
                strsv_row_solved(n, a, cs, upper, unit, b, cur, i)
            } else {
                #[trigger] cur[i] == strsv_lower_residual(a, cs, cur, i, b[i], s as int)
            } by {
                if i < j {
                    lemma_strsv_lower_residual_frame(a, cs, cur, prev, i, b[i], i);
                } else if i == j {
                    lemma_strsv_lower_residual_frame(a, cs, cur, prev, i, b[i], i);
                    assert(prev[i] == strsv_lower_residual(a, cs, prev, i, b[i], s - 1));
                } else {
                    lemma_strsv_lower_residual_frame(a, cs, cur, prev, i, b[i], j);
                    assert(prev[i] == strsv_lower_residual(a, cs, prev, i, b[i], j));
                }
            }
        }
    }
}

/// `strsv` solves the triangular system: every entry `x[i]` of the result
/// is its right-hand side `b[i]`, with the terms `a[i, k]·(−x[k])` of the
/// other stored entries of row `i` eliminated against the RESULT's own
/// values (columns `k > i` from the last down for the upper triangle,
/// columns `k < i` from the first up for the lower one), divided by
/// `a[i, i]` unless the diagonal is implicitly one — forward or back
/// substitution, for both triangles.
pub proof fn lemma_strsv_solves(n: int, a: Seq<u32>, cs: int, upper: bool, unit: bool, b: Seq<u32>)
    requires
        b.len() == n,
    ensures
        strsv_steps(n, a, cs, upper, unit, b, n as nat).len() == n,
        forall|i: int|
            0 <= i < n ==> #[trigger] strsv_row_solved(n, a, cs, upper, unit, b, strsv_steps(n, a, cs, upper, unit, b, n as nat), i),
{
    lemma_strsv_steps_solved(n, a, cs, upper, unit, b, n as nat);
}

} // verus!
