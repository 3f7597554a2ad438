//! `strmv` — triangular matrix × vector, in place: x ← Ax, the values
//! given as binary32 bit patterns.
//!
//! The column loop: for the upper triangle columns in ascending order,
//! for the lower triangle in descending order, column `j` takes
//! `t = x[j]`, adds `a[i, j]·t` to every `x[i]` of the strict part of the
//! column (a `saxpy` stream) and then, unless the diagonal is implicitly
//! one, sets `x[j] = t·a[j, j]`.

use super::{lemma_column_in_bounds, mat_fits, same_diagonal, same_strict_triangle};
use crate::ieee::{sadd, smul, ieee_smul};
use crate::L1::saxpy::saxpy_at;
use vstd::prelude::*;

verus! {

/// The column that step `s` of the loop (of `n`) works on.
pub open spec fn strmv_col(n: int, upper: bool, s: int) -> int {
    if upper {
        s
    } else {
        n - 1 - s
    }
}

/// `x` after column `j` of the loop.
pub open spec fn strmv_step(
    n: int,
    a: Seq<u32>,
    cs: int,
    upper: bool,
    unit: bool,
    x: Seq<u32>,
    j: int,
) -> Seq<u32> {
    Seq::new(
        x.len(),
        |i: int|
            if (upper && 0 <= i < j) || (!upper && j < i < n) {
                sadd(x[i], smul(a[j * cs + i], x[j]))
            } else if i == j && !unit {
                smul(x[j], a[j * cs + j])
            } else {
                x[i]
            },
    )
}

/// `x` after the first `m` steps of the loop.
pub open spec fn strmv_steps(
    n: int,
    a: Seq<u32>,
    cs: int,
    upper: bool,
    unit: bool,
    x: Seq<u32>,
    m: nat,
) -> Seq<u32>
    decreases m,
{
    if m == 0 {
        x
    } else {
        strmv_step(
            n,
            a,
            cs,
            upper,
            unit,
            strmv_steps(n, a, cs, upper, unit, x, (m - 1) as nat),
            strmv_col(n, upper, m - 1),
        )
    }
}

/// x ← Ax, A triangular n×n at column stride `cs`. `upper` selects the
/// triangle; `unit` treats the diagonal as ones (stored values
/// ignored). The storage must hold A (`check_mat`) and the lengths must match.
pub fn strmv(n: usize, a: &[u32], cs: usize, upper: bool, unit: bool, x: &mut [u32])
    requires
        mat_fits(a.len() as int, n as int, n as int, cs as int),
        old(x)@.len() == n,
    ensures
        final(x)@ == strmv_steps(n as int, a@, cs as int, upper, unit, old(x)@, n as nat),
{
    let ghost x0 = x@;
    let mut s: usize = 0;
    while s < n
        invariant
            s <= n,
            mat_fits(a.len() as int, n as int, n as int, cs as int),
            x@.len() == n,
            x@ == strmv_steps(n as int, a@, cs as int, upper, unit, x0, s as nat),
        decreases n - s,
    {
        let j = if upper {
            s
        } else {
            n - 1 - s
        };
        proof {
            lemma_column_in_bounds(a.len() as int, n as int, n as int, cs as int, j as int);
        }
        let ghost before = x@;
        let cj = j * cs;
        let t = x[j];
        if upper {
            saxpy_at(t, a, cj, x, 0, j);
        } else {
            saxpy_at(t, a, cj + j + 1, x, j + 1, n - j - 1);
        }
        if !unit {
            let v = ieee_smul(t, a[cj + j]);
            x[j] = v;
        }
        assert(x@ =~= strmv_step(n as int, a@, cs as int, upper, unit, before, j as int));
        s += 1;
    }
}

/// Each step reads only the strict part of its column and, unless the
/// diagonal is implicitly one, its diagonal entry.
proof fn lemma_strmv_step_reads(
    n: int,
    a1: Seq<u32>,
    a2: Seq<u32>,
    cs: int,
    upper: bool,
    unit: bool,
    x: Seq<u32>,
    j: int,
)
    requires
        0 <= j < n,
        same_strict_triangle(a1, a2, n, cs, upper),
        unit || same_diagonal(a1, a2, n, cs),
    ensures
        strmv_step(n, a1, cs, upper, unit, x, j) == strmv_step(n, a2, cs, upper, unit, x, j),
{
    if !unit {
        assert(a1[j * cs + j] == a2[j * cs + j]);
    }
    assert(strmv_step(n, a1, cs, upper, unit, x, j) =~= strmv_step(n, a2, cs, upper, unit, x, j));
}

/// The first `m` steps read only the stored triangle.
proof fn lemma_strmv_steps_read(
    n: int,
    a1: Seq<u32>,
    a2: Seq<u32>,
    cs: int,
    upper: bool,
    unit: bool,
    x: Seq<u32>,
    m: nat,
)
    requires
        m <= n,
        same_strict_triangle(a1, a2, n, cs, upper),
        unit || same_diagonal(a1, a2, n, cs),
    ensures
        strmv_steps(n, a1, cs, upper, unit, x, m) == strmv_steps(n, a2, cs, upper, unit, x, m),
    decreases m,
{
    if m > 0 {
        lemma_strmv_steps_read(n, a1, a2, cs, upper, unit, x, (m - 1) as nat);
        let prev = strmv_steps(n, a1, cs, upper, unit, x, (m - 1) as nat);
        lemma_strmv_step_reads(n, a1, a2, cs, upper, unit, prev, strmv_col(n, upper, m - 1));
    }
}

/// `strmv` reads only the stored triangle: two matrices that agree on the
/// stored strict triangle, and on the diagonal unless it is implicitly
/// one, give the same product, whatever the other triangle (and, for a
/// unit diagonal, the stored diagonal) holds.
pub proof fn lemma_strmv_reads_stored_triangle(
    n: int,
    a1: Seq<u32>,
    a2: Seq<u32>,
    cs: int,
    upper: bool,
    unit: bool,
    x: Seq<u32>,
)
    requires
        0 <= n,
        same_strict_triangle(a1, a2, n, cs, upper),
        unit || same_diagonal(a1, a2, n, cs),
    ensures
        strmv_steps(n, a1, cs, upper, unit, x, n as nat) == strmv_steps(n, a2, cs, upper, unit, x, n as nat),
{
    lemma_strmv_steps_read(n, a1, a2, cs, upper, unit, x, n as nat);
}

/// Entry `i` of the product before the other columns are added: `x0[i]`
/// on a unit diagonal, `x0[i]·a[i, i]` otherwise.
pub open spec fn strmv_diag_term(a: Seq<u32>, cs: int, unit: bool, x0: Seq<u32>, i: int) -> u32 {
    if unit {
        x0[i]
    } else {
        smul(x0[i], a[i * cs + i])
    }
}

/// Upper triangle: entry `i` of the product with the terms
/// `a[i, j]·x0[j]` of the columns `j` in `i+1..k` added in ascending order.
pub open spec fn strmv_upper_row(a: Seq<u32>, cs: int, unit: bool, x0: Seq<u32>, i: int, k: int) -> u32
    decreases k - i,
{
    if k <= i + 1 {
        strmv_diag_term(a, cs, unit, x0, i)
    } else {
        sadd(strmv_upper_row(a, cs, unit, x0, i, k - 1), smul(a[(k - 1) * cs + i], x0[k - 1]))
    }
}

/// Lower triangle: entry `i` of the product with the terms
/// `a[i, j]·x0[j]` of the columns `j` from `i-1` down to `k` added in that
/// (descending) order.
pub open spec fn strmv_lower_row(a: Seq<u32>, cs: int, unit: bool, x0: Seq<u32>, i: int, k: int) -> u32
    decreases i - k,
{
    if k >= i {
        strmv_diag_term(a, cs, unit, x0, i)
    } else {
        sadd(strmv_lower_row(a, cs, unit, x0, i, k + 1), smul(a[k * cs + i], x0[k]))
    }
}

/// The state of the loop after `s` steps, row by row.
proof fn lemma_strmv_steps_rows(n: int, a: Seq<u32>, cs: int, upper: bool, unit: bool, x0: Seq<u32>, s: nat)
    requires
        s <= n,
        x0.len() == n,
    ensures
        strmv_steps(n, a, cs, upper, unit, x0, s).len() == n,
        forall|i: int|
            0 <= i < n ==> #[trigger] strmv_steps(n, a, cs, upper, unit, x0, s)[i] == if upper {
                if i < s {
                    strmv_upper_row(a, cs, unit, x0, i, s as int)
                } else {
                    x0[i]
                }
            } else {
                if i >= n - s {
                    strmv_lower_row(a, cs, unit, x0, i, n - s)
                } else {
                    x0[i]
                }
            },
    decreases s,
{
    if s > 0 {
        lemma_strmv_steps_rows(n, a, cs, upper, unit, x0, (s - 1) as nat);
        let prev = strmv_steps(n, a, cs, upper, unit, x0, (s - 1) as nat);
        let j = strmv_col(n, upper, s - 1);
        assert(prev[j] == x0[j]);
        assert forall|i: int| 0 <= i < n implies #[trigger] strmv_steps(n, a, cs, upper, unit, x0, s)[i]
            == if upper {
            if i < s {
                strmv_upper_row(a, cs, unit, x0, i, s as int)
            } else {
                x0[i]
            }
        } else {
            if i >= n - s {
                strmv_lower_row(a, cs, unit, x0, i, n - s)
            } else {
                x0[i]
            }
        } by {
            if upper {
                if i < j {
                    assert(strmv_upper_row(a, cs, unit, x0, i, s as int) == sadd(
                        strmv_upper_row(a, cs, unit, x0, i, s - 1),
                        smul(a[(s - 1) * cs + i], x0[s - 1]),
                    ));
                }
            } else {
                if i > j {
                    assert(strmv_lower_row(a, cs, unit, x0, i, n - s) == sadd(
                        strmv_lower_row(a, cs, unit, x0, i, n - s + 1),
                        smul(a[(n - s) * cs + i], x0[n - s]),
                    ));
                }
            }
        }
    }
}

/// `strmv` multiplies by the triangle: entry `i` of the result is the
/// diagonal term `a[i, i]·x0[i]` (`x0[i]` on a unit diagonal) followed by
/// the terms `a[i, j]·x0[j]` of the other stored entries of row `i`, each
/// with the INPUT value `x0[j]` — for the upper triangle the columns
/// `j > i` in ascending order, for the lower triangle the columns `j < i`
/// in descending order.
pub proof fn lemma_strmv_rows(n: int, a: Seq<u32>, cs: int, upper: bool, unit: bool, x0: Seq<u32>)
    requires
        x0.len() == n,
    ensures
        strmv_steps(n, a, cs, upper, unit, x0, n as nat).len() == n,
        forall|i: int|
            0 <= i < n ==> #[trigger] strmv_steps(n, a, cs, upper, unit, x0, n as nat)[i] == if upper {
                strmv_upper_row(a, cs, unit, x0, i, n)
            } else {
                strmv_lower_row(a, cs, unit, x0, i, 0)
            },
{
    lemma_strmv_steps_rows(n, a, cs, upper, unit, x0, n as nat);
}

} // verus!
