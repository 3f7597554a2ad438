//! `ctrmv` — triangular matrix × vector, in place: x ← Ax.
//!
//! The column loop: for the upper triangle columns in ascending order,
//! for the lower triangle in descending order, column `j` takes
//! `t = x[j]`, adds `t·a[i, j]` to every `x[i]` of the strict part of the
//! column (a `caxpy` stream) and then, unless the diagonal is implicitly
//! one, sets `x[j] = t·a[j, j]`.

use super::{lemma_column_in_bounds, mat_fits, same_diagonal, same_strict_triangle};
use crate::c32::{cadd, cmul, C32};
use crate::L1::caxpy::caxpy_at;
use vstd::prelude::*;

verus! {

/// The column that step `s` of the loop (of `n`) works on.
pub open spec fn ctrmv_col(n: int, upper: bool, s: int) -> int {
    if upper {
        s
    } else {
        n - 1 - s
    }
}

/// `x` after column `j` of the loop.
pub open spec fn ctrmv_step(
    n: int,
    a: Seq<C32>,
    cs: int,
    upper: bool,
    unit: bool,
    x: Seq<C32>,
    j: int,
) -> Seq<C32> {
    Seq::new(
        x.len(),
        |i: int|
            if (upper && 0 <= i < j) || (!upper && j < i < n) {
                cadd(x[i], cmul(x[j], a[j * cs + i]))
            } else if i == j && !unit {
                cmul(x[j], a[j * cs + j])
            } else {
                x[i]
            },
    )
}

/// `x` after the first `m` steps of the loop.
pub open spec fn ctrmv_steps(
    n: int,
    a: Seq<C32>,
    cs: int,
    upper: bool,
    unit: bool,
    x: Seq<C32>,
    m: nat,
) -> Seq<C32>
    decreases m,
{
    if m == 0 {
        x
    } else {
        ctrmv_step(
            n,
            a,
            cs,
            upper,
            unit,
            ctrmv_steps(n, a, cs, upper, unit, x, (m - 1) as nat),
            ctrmv_col(n, upper, m - 1),
        )
    }
}

/// x ← Ax, A triangular n×n at column stride `cs`. `upper` selects the
/// triangle; `unit` treats the diagonal as ones (stored values
/// ignored). The storage must hold A (`check_mat`) and the lengths must match.
pub fn ctrmv(n: usize, a: &[C32], cs: usize, upper: bool, unit: bool, x: &mut [C32])
    requires
        mat_fits(a.len() as int, n as int, n as int, cs as int),
        old(x)@.len() == n,
    ensures
        final(x)@ == ctrmv_steps(n as int, a@, cs as int, upper, unit, old(x)@, n as nat),
{
    let ghost x0 = x@;
    let mut s: usize = 0;
    while s < n
        invariant
            s <= n,
            mat_fits(a.len() as int, n as int, n as int, cs as int),
            x@.len() == n,
            x@ == ctrmv_steps(n as int, a@, cs as int, upper, unit, x0, s as nat),
        decreases n - s,
    {
        let j = if upper {
            s
        } else {
            n - 1 - s
        };
        proof {
            lemma_column_in_bounds(a.len() as int, n as int, n as int, cs as int, j as int);
        }
        let ghost before = x@;
        let cj = j * cs;
        let t = x[j];
        if upper {
            caxpy_at(t, a, cj, x, 0, j);
        } else {
            caxpy_at(t, a, cj + j + 1, x, j + 1, n - j - 1);
        }
        if !unit {
            let v = t.times(a[cj + j]);
            x[j] = v;
        }
        assert(x@ =~= ctrmv_step(n as int, a@, cs as int, upper, unit, before, j as int));
        s += 1;
    }
}

/// Each step reads only the strict part of its column and, unless the
/// diagonal is implicitly one, its diagonal entry.
proof fn lemma_ctrmv_step_reads(
    n: int,
    a1: Seq<C32>,
    a2: Seq<C32>,
    cs: int,
    upper: bool,
    unit: bool,
    x: Seq<C32>,
    j: int,
)
    requires
        0 <= j < n,
        same_strict_triangle(a1, a2, n, cs, upper),
        unit || same_diagonal(a1, a2, n, cs),
    ensures
        ctrmv_step(n, a1, cs, upper, unit, x, j) == ctrmv_step(n, a2, cs, upper, unit, x, j),
{
    if !unit {
        assert(a1[j * cs + j] == a2[j * cs + j]);
    }
    assert(ctrmv_step(n, a1, cs, upper, unit, x, j) =~= ctrmv_step(n, a2, cs, upper, unit, x, j));
}

/// The first `m` steps read only the stored triangle.
proof fn lemma_ctrmv_steps_read(
    n: int,
    a1: Seq<C32>,
    a2: Seq<C32>,
    cs: int,
    upper: bool,
    unit: bool,
    x: Seq<C32>,
    m: nat,
)
    requires
        m <= n,
        same_strict_triangle(a1, a2, n, cs, upper),
        unit || same_diagonal(a1, a2, n, cs),
    ensures
        ctrmv_steps(n, a1, cs, upper, unit, x, m) == ctrmv_steps(n, a2, cs, upper, unit, x, m),
    decreases m,
{
    if m > 0 {
        lemma_ctrmv_steps_read(n, a1, a2, cs, upper, unit, x, (m - 1) as nat);
        let prev = ctrmv_steps(n, a1, cs, upper, unit, x, (m - 1) as nat);
        lemma_ctrmv_step_reads(n, a1, a2, cs, upper, unit, prev, ctrmv_col(n, upper, m - 1));
    }
}

/// `ctrmv` reads only the stored triangle: two matrices that agree on the
/// stored strict triangle, and on the diagonal unless it is implicitly
/// one, give the same product, whatever the other triangle (and, for a
/// unit diagonal, the stored diagonal) holds.
pub proof fn lemma_ctrmv_reads_stored_triangle(
    n: int,
    a1: Seq<C32>,
    a2: Seq<C32>,
    cs: int,
    upper: bool,
    unit: bool,
    x: Seq<C32>,
)
    requires
        0 <= n,
        same_strict_triangle(a1, a2, n, cs, upper),
        unit || same_diagonal(a1, a2, n, cs),
    ensures
        ctrmv_steps(n, a1, cs, upper, unit, x, n as nat) == ctrmv_steps(n, a2, cs, upper, unit, x, n as nat),
{
    lemma_ctrmv_steps_read(n, a1, a2, cs, upper, unit, x, n as nat);
}

/// Entry `i` of the product before the other columns are added: `x0[i]`
/// on a unit diagonal, `x0[i]·a[i, i]` otherwise.
pub open spec fn ctrmv_diag_term(a: Seq<C32>, cs: int, unit: bool, x0: Seq<C32>, i: int) -> C32 {
    if unit {
        x0[i]
    } else {
        cmul(x0[i], a[i * cs + i])
    }
}

/// Upper triangle: entry `i` of the product with the terms
/// `a[i, j]·x0[j]` of the columns `j` in `i+1..k` added in ascending order.
pub open spec fn ctrmv_upper_row(a: Seq<C32>, cs: int, unit: bool, x0: Seq<C32>, i: int, k: int) -> C32
    decreases k - i,
{
    if k <= i + 1 {
        ctrmv_diag_term(a, cs, unit, x0, i)
    } else {
        cadd(ctrmv_upper_row(a, cs, unit, x0, i, k - 1), cmul(x0[k - 1], a[(k - 1) * cs + i]))
    }
}

/// Lower triangle: entry `i` of the product with the terms
/// `a[i, j]·x0[j]` of the columns `j` from `i-1` down to `k` added in that
/// (descending) order.
pub open spec fn ctrmv_lower_row(a: Seq<C32>, cs: int, unit: bool, x0: Seq<C32>, i: int, k: int) -> C32
    decreases i - k,
{
    if k >= i {
        ctrmv_diag_term(a, cs, unit, x0, i)
    } else {
        cadd(ctrmv_lower_row(a, cs, unit, x0, i, k + 1), cmul(x0[k], a[k * cs + i]))
    }
}

/// The state of the loop after `s` steps, row by row.
proof fn lemma_ctrmv_steps_rows(n: int, a: Seq<C32>, cs: int, upper: bool, unit: bool, x0: Seq<C32>, s: nat)
    requires
        s <= n,
        x0.len() == n,
    ensures
        ctrmv_steps(n, a, cs, upper, unit, x0, s).len() == n,
        forall|i: int|
            0 <= i < n ==> #[trigger] ctrmv_steps(n, a, cs, upper, unit, x0, s)[i] == if upper {
                if i < s {
                    ctrmv_upper_row(a, cs, unit, x0, i, s as int)
                } else {
                    x0[i]
                }
            } else {
                if i >= n - s {
                    ctrmv_lower_row(a, cs, unit, x0, i, n - s)
                } else {
                    x0[i]
                }
            },
    decreases s,
{
    if s > 0 {
        lemma_ctrmv_steps_rows(n, a, cs, upper, unit, x0, (s - 1) as nat);
        let prev = ctrmv_steps(n, a, cs, upper, unit, x0, (s - 1) as nat);
        let j = ctrmv_col(n, upper, s - 1);
        assert(prev[j] == x0[j]);
        assert forall|i: int| 0 <= i < n implies #[trigger] ctrmv_steps(n, a, cs, upper, unit, x0, s)[i]
            == if upper {
            if i < s {
                ctrmv_upper_row(a, cs, unit, x0, i, s as int)
            } else {
                x0[i]
            }
        } else {
            if i >= n - s {
                ctrmv_lower_row(a, cs, unit, x0, i, n - s)
            } else {
                x0[i]
            }
        } by {
            if upper {
                if i < j {
                    assert(ctrmv_upper_row(a, cs, unit, x0, i, s as int) == cadd(
                        ctrmv_upper_row(a, cs, unit, x0, i, s - 1),
                        cmul(x0[s - 1], a[(s - 1) * cs + i]),
                    ));
                }
            } else {
                if i > j {
                    assert(ctrmv_lower_row(a, cs, unit, x0, i, n - s) == cadd(
                        ctrmv_lower_row(a, cs, unit, x0, i, n - s + 1),
                        cmul(x0[n - s], a[(n - s) * cs + i]),
                    ));
                }
            }
        }
    }
}

/// `ctrmv` multiplies by the triangle: entry `i` of the result is the
/// diagonal term `a[i, i]·x0[i]` (`x0[i]` on a unit diagonal) followed by
/// the terms `a[i, j]·x0[j]` of the other stored entries of row `i`, each
/// with the INPUT value `x0[j]` — for the upper triangle the columns
/// `j > i` in ascending order, for the lower triangle the columns `j < i`
/// in descending order.
pub proof fn lemma_ctrmv_rows(n: int, a: Seq<C32>, cs: int, upper: bool, unit: bool, x0: Seq<C32>)
    requires
        x0.len() == n,
    ensures
        ctrmv_steps(n, a, cs, upper, unit, x0, n as nat).len() == n,
        forall|i: int|
            0 <= i < n ==> #[trigger] ctrmv_steps(n, a, cs, upper, unit, x0, n as nat)[i] == if upper {
                ctrmv_upper_row(a, cs, unit, x0, i, n)
            } else {
                ctrmv_lower_row(a, cs, unit, x0, i, 0)
            },
{
    lemma_ctrmv_steps_rows(n, a, cs, upper, unit, x0, n as nat);
}

} // verus!
