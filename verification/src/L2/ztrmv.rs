//! `ztrmv` — triangular matrix × vector, in place: x ← Ax.
//!
//! The column loop: for the upper triangle columns in ascending order,
//! for the lower triangle in descending order, column `j` takes
//! `t = x[j]`, adds `t·a[i, j]` to every `x[i]` of the strict part of the
//! column (a `zaxpy` stream) and then, unless the diagonal is implicitly
//! one, sets `x[j] = t·a[j, j]`.

use super::{lemma_column_in_bounds, mat_fits, same_diagonal, same_strict_triangle};
use crate::c64::{zadd, zmul, C64};
use crate::L1::zaxpy::zaxpy_at;
use vstd::prelude::*;

verus! {

/// The column that step `s` of the loop (of `n`) works on.
pub open spec fn ztrmv_col(n: int, upper: bool, s: int) -> int {
    if upper {
        s
    } else {
        n - 1 - s
    }
}

/// `x` after column `j` of the loop.
pub open spec fn ztrmv_step(
    n: int,
    a: Seq<C64>,
    cs: int,
    upper: bool,
    unit: bool,
    x: Seq<C64>,
    j: int,
) -> Seq<C64> {
    Seq::new(
        x.len(),
        |i: int|
            if (upper && 0 <= i < j) || (!upper && j < i < n) {
                zadd(x[i], zmul(x[j], a[j * cs + i]))
            } else if i == j && !unit {
                zmul(x[j], a[j * cs + j])
            } else {
                x[i]
            },
    )
}

/// `x` after the first `m` steps of the loop.
pub open spec fn ztrmv_steps(
    n: int,
    a: Seq<C64>,
    cs: int,
    upper: bool,
    unit: bool,
    x: Seq<C64>,
    m: nat,
) -> Seq<C64>
    decreases m,
{
    if m == 0 {
        x
    } else {
        ztrmv_step(
            n,
            a,
            cs,
            upper,
            unit,
            ztrmv_steps(n, a, cs, upper, unit, x, (m - 1) as nat),
            ztrmv_col(n, upper, m - 1),
        )
    }
}

/// x ← Ax, A triangular n×n at column stride `cs`. `upper` selects the
/// triangle; `unit` treats the diagonal as ones (stored values
/// ignored). The storage must hold A (`check_mat`) and the lengths must match.
pub fn ztrmv(n: usize, a: &[C64], cs: usize, upper: bool, unit: bool, x: &mut [C64])
    requires
        mat_fits(a.len() as int, n as int, n as int, cs as int),
        old(x)@.len() == n,
    ensures
        final(x)@ == ztrmv_steps(n as int, a@, cs as int, upper, unit, old(x)@, n as nat),
{
    let ghost x0 = x@;
    let mut s: usize = 0;
    while s < n
        invariant
            s <= n,
            mat_fits(a.len() as int, n as int, n as int, cs as int),
            x@.len() == n,
            x@ == ztrmv_steps(n as int, a@, cs as int, upper, unit, x0, s as nat),
        decreases n - s,
    {
        let j = if upper {
            s
        } else {
            n - 1 - s
        };
        proof {
            lemma_column_in_bounds(a.len() as int, n as int, n as int, cs as int, j as int);
        }
        let ghost before = x@;
        let cj = j * cs;
        let t = x[j];
        if upper {
            zaxpy_at(t, a, cj, x, 0, j);
        } else {
            zaxpy_at(t, a, cj + j + 1, x, j + 1, n - j - 1);
        }
        if !unit {
            let v = t.times(a[cj + j]);
            x[j] = v;
        }
        assert(x@ =~= ztrmv_step(n as int, a@, cs as int, upper, unit, before, j as int));
        s += 1;
    }
}

/// Each step reads only the strict part of its column and, unless the
/// diagonal is implicitly one, its diagonal entry.
proof fn lemma_ztrmv_step_reads(
    n: int,
    a1: Seq<C64>,
    a2: Seq<C64>,
    cs: int,
    upper: bool,
    unit: bool,
    x: Seq<C64>,
    j: int,
)
    requires
        0 <= j < n,
        same_strict_triangle(a1, a2, n, cs, upper),
        unit || same_diagonal(a1, a2, n, cs),
    ensures
        ztrmv_step(n, a1, cs, upper, unit, x, j) == ztrmv_step(n, a2, cs, upper, unit, x, j),
{
    if !unit {
        assert(a1[j * cs + j] == a2[j * cs + j]);
    }
    assert(ztrmv_step(n, a1, cs, upper, unit, x, j) =~= ztrmv_step(n, a2, cs, upper, unit, x, j));
}

/// The first `m` steps read only the stored triangle.
proof fn lemma_ztrmv_steps_read(
    n: int,
    a1: Seq<C64>,
    a2: Seq<C64>,
    cs: int,
    upper: bool,
    unit: bool,
    x: Seq<C64>,
    m: nat,
)
    requires
        m <= n,
        same_strict_triangle(a1, a2, n, cs, upper),
        unit || same_diagonal(a1, a2, n, cs),
    ensures
        ztrmv_steps(n, a1, cs, upper, unit, x, m) == ztrmv_steps(n, a2, cs, upper, unit, x, m),
    decreases m,
{
    if m > 0 {
        lemma_ztrmv_steps_read(n, a1, a2, cs, upper, unit, x, (m - 1) as nat);
        let prev = ztrmv_steps(n, a1, cs, upper, unit, x, (m - 1) as nat);
        lemma_ztrmv_step_reads(n, a1, a2, cs, upper, unit, prev, ztrmv_col(n, upper, m - 1));
    }
}

/// `ztrmv` reads only the stored triangle: two matrices that agree on the
/// stored strict triangle, and on the diagonal unless it is implicitly
/// one, give the same product, whatever the other triangle (and, for a
/// unit diagonal, the stored diagonal) holds.
pub proof fn lemma_ztrmv_reads_stored_triangle(
    n: int,
    a1: Seq<C64>,
    a2: Seq<C64>,
    cs: int,
    upper: bool,
    unit: bool,
    x: Seq<C64>,
)
    requires
        0 <= n,
        same_strict_triangle(a1, a2, n, cs, upper),
        unit || same_diagonal(a1, a2, n, cs),
    ensures
        ztrmv_steps(n, a1, cs, upper, unit, x, n as nat) == ztrmv_steps(n, a2, cs, upper, unit, x, n as nat),
{
    lemma_ztrmv_steps_read(n, a1, a2, cs, upper, unit, x, n as nat);
}

/// Entry `i` of the product before the other columns are added: `x0[i]`
/// on a unit diagonal, `x0[i]·a[i, i]` otherwise.
pub open spec fn ztrmv_diag_term(a: Seq<C64>, cs: int, unit: bool, x0: Seq<C64>, i: int) -> C64 {
    if unit {
        x0[i]
    } else {
        zmul(x0[i], a[i * cs + i])
    }
}

/// Upper triangle: entry `i` of the product with the terms
/// `a[i, j]·x0[j]` of the columns `j` in `i+1..k` added in ascending order.
pub open spec fn ztrmv_upper_row(a: Seq<C64>, cs: int, unit: bool, x0: Seq<C64>, i: int, k: int) -> C64
    decreases k - i,
{
    if k <= i + 1 {
        ztrmv_diag_term(a, cs, unit, x0, i)
    } else {
        zadd(ztrmv_upper_row(a, cs, unit, x0, i, k - 1), zmul(x0[k - 1], a[(k - 1) * cs + i]))
    }
}

/// Lower triangle: entry `i` of the product with the terms
/// `a[i, j]·x0[j]` of the columns `j` from `i-1` down to `k` added in that
/// (descending) order.
pub open spec fn ztrmv_lower_row(a: Seq<C64>, cs: int, unit: bool, x0: Seq<C64>, i: int, k: int) -> C64
    decreases i - k,
{
    if k >= i {
        ztrmv_diag_term(a, cs, unit, x0, i)
    } else {
        zadd(ztrmv_lower_row(a, cs, unit, x0, i, k + 1), zmul(x0[k], a[k * cs + i]))
    }
}

/// The state of the loop after `s` steps, row by row.
proof fn lemma_ztrmv_steps_rows(n: int, a: Seq<C64>, cs: int, upper: bool, unit: bool, x0: Seq<C64>, s: nat)
    requires
        s <= n,
        x0.len() == n,
    ensures
        ztrmv_steps(n, a, cs, upper, unit, x0, s).len() == n,
        forall|i: int|
            0 <= i < n ==> #[trigger] ztrmv_steps(n, a, cs, upper, unit, x0, s)[i] == if upper {
                if i < s {
                    ztrmv_upper_row(a, cs, unit, x0, i, s as int)
                } else {
                    x0[i]
                }
            } else {
                if i >= n - s {
                    ztrmv_lower_row(a, cs, unit, x0, i, n - s)
                } else {
                    x0[i]
                }
            },
    decreases s,
{
    if s > 0 {
        lemma_ztrmv_steps_rows(n, a, cs, upper, unit, x0, (s - 1) as nat);
        let prev = ztrmv_steps(n, a, cs, upper, unit, x0, (s - 1) as nat);
        let j = ztrmv_col(n, upper, s - 1);
        assert(prev[j] == x0[j]);
        assert forall|i: int| 0 <= i < n implies #[trigger] ztrmv_steps(n, a, cs, upper, unit, x0, s)[i]
            == if upper {
            if i < s {
                ztrmv_upper_row(a, cs, unit, x0, i, s as int)
            } else {
                x0[i]
            }
        } else {
            if i >= n - s {
                ztrmv_lower_row(a, cs, unit, x0, i, n - s)
            } else {
                x0[i]
            }
        } by {
            if upper {
                if i < j {
                    assert(ztrmv_upper_row(a, cs, unit, x0, i, s as int) == zadd(
                        ztrmv_upper_row(a, cs, unit, x0, i, s - 1),
                        zmul(x0[s - 1], a[(s - 1) * cs + i]),
                    ));
                }
            } else {
                if i > j {
                    assert(ztrmv_lower_row(a, cs, unit, x0, i, n - s) == zadd(
                        ztrmv_lower_row(a, cs, unit, x0, i, n - s + 1),
                        zmul(x0[n - s], a[(n - s) * cs + i]),
                    ));
                }
            }
        }
    }
}

/// `ztrmv` multiplies by the triangle: entry `i` of the result is the
/// diagonal term `a[i, i]·x0[i]` (`x0[i]` on a unit diagonal) followed by
/// the terms `a[i, j]·x0[j]` of the other stored entries of row `i`, each
/// with the INPUT value `x0[j]` — for the upper triangle the columns
/// `j > i` in ascending order, for the lower triangle the columns `j < i`
/// in descending order.
pub proof fn lemma_ztrmv_rows(n: int, a: Seq<C64>, cs: int, upper: bool, unit: bool, x0: Seq<C64>)
    requires
        x0.len() == n,
    ensures
        ztrmv_steps(n, a, cs, upper, unit, x0, n as nat).len() == n,
        forall|i: int|
            0 <= i < n ==> #[trigger] ztrmv_steps(n, a, cs, upper, unit, x0, n as nat)[i] == if upper {
                ztrmv_upper_row(a, cs, unit, x0, i, n)
            } else {
                ztrmv_lower_row(a, cs, unit, x0, i, 0)
            },
{
    lemma_ztrmv_steps_rows(n, a, cs, upper, unit, x0, n as nat);
}

} // verus!
