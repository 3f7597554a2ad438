//! LAPACK `iparmq`-style parameters of the multishift QR sweep of the
//! Schur decomposition: the number of simultaneous shifts, and the window
//! of aggressive early deflation, each chosen from the size of the active
//! block.

use vstd::prelude::*;

verus! {

/// `⌊log₂ n⌋` for `n ≥ 1` (0 for `n ≤ 1`).
pub open spec fn log2_floor(n: nat) -> nat
    decreases n,
{
    if n <= 1 {
        0
    } else {
        1 + log2_floor(n / 2)
    }
}

/// The shift count for an active block of `active` rows: with
/// `nh = max(active, 4)`, 2 below 30, 4 below 60, 10 below 150,
/// `max(10, nh / ⌊log₂ nh⌋)` below 590, 64 below 3000, 128 below 6000 and
/// 256 from there; then rounded down to even and at least 2.
pub open spec fn shift_count_spec(active: int) -> int {
    let nh = if active < 4 {
        4
    } else {
        active
    };
    let ns = if nh < 30 {
        2
    } else if nh < 60 {
        4
    } else if nh < 150 {
        10
    } else if nh < 590 {
        let q = nh / (log2_floor(nh as nat) as int);
        if q < 10 {
            10
        } else {
            q
        }
    } else if nh < 3000 {
        64
    } else if nh < 6000 {
        128
    } else {
        256
    };
    let even = ns - ns % 2;
    if even < 2 {
        2
    } else {
        even
    }
}

/// `⌊log₂ n⌋` is at least 7 from 128 on, and at most 9 below 1024.
proof fn lemma_log2_floor_range(n: nat)
    requires
        128 <= n < 1024,
    ensures
        7 <= log2_floor(n) <= 9,
{
    let n1 = n / 2;
    let n2 = n1 / 2;
    let n3 = n2 / 2;
    let n4 = n3 / 2;
    let n5 = n4 / 2;
    let n6 = n5 / 2;
    let n7 = n6 / 2;
    let n8 = n7 / 2;
    let n9 = n8 / 2;
    assert(log2_floor(n) == 1 + log2_floor(n1));
    assert(log2_floor(n1) == 1 + log2_floor(n2));
    assert(log2_floor(n2) == 1 + log2_floor(n3));
    assert(log2_floor(n3) == 1 + log2_floor(n4));
    assert(log2_floor(n4) == 1 + log2_floor(n5));
    assert(log2_floor(n5) == 1 + log2_floor(n6));
    assert(log2_floor(n6) == 1 + log2_floor(n7));
    if n7 >= 2 {
        assert(log2_floor(n7) == 1 + log2_floor(n8));
        if n8 >= 2 {
            assert(log2_floor(n8) == 1 + log2_floor(n9));
            assert(n9 <= 1);
            assert(log2_floor(n9) == 0);
        }
    }
}

/// Every shift count is even and lies in `2..=256`.
pub proof fn lemma_shift_count_range(active: int)
    ensures
        shift_count_spec(active) % 2 == 0,
        2 <= shift_count_spec(active) <= 256,
{
    let nh = if active < 4 {
        4
    } else {
        active
    };
    if 150 <= nh < 590 {
        lemma_log2_floor_range(nh as nat);
        let l = log2_floor(nh as nat) as int;
        assert(0 <= nh / l <= 84int) by (nonlinear_arith)
            requires
                150 <= nh < 590,
                7 <= l,
        ;
    }
}

/// `⌊log₂ n⌋` of a positive `n`.
fn ilog2(n: usize) -> (r: usize)
    requires
        n >= 1,
    ensures
        r == log2_floor(n as nat),
{
    let mut v = n;
    let mut k: usize = 0;
    while v >= 2
        invariant
            1 <= v <= n,
            k + log2_floor(v as nat) == log2_floor(n as nat),
            k <= n - v,
        decreases v,
    {
        assert(log2_floor(v as nat) == 1 + log2_floor((v / 2) as nat));
        k += 1;
        v = v / 2;
    }
    k
}

/// The number of shifts of a multishift QR sweep over an active block of
/// `active` rows, in the manner of LAPACK's `iparmq`; the order `dim` of
/// the whole matrix does not enter.
pub fn shift_count_lapack(dim: usize, active: usize) -> (r: usize)
    ensures
        r == shift_count_spec(active as int),
        r % 2 == 0,
        2 <= r <= 256,
{
    proof {
        lemma_shift_count_range(active as int);
    }
    let nh = if active < 4 {
        4
    } else {
        active
    };
    let ns = if nh < 30 {
        2
    } else if nh < 60 {
        4
    } else if nh < 150 {
        10
    } else if nh < 590 {
        let l = ilog2(nh);
        proof {
            lemma_log2_floor_range(nh as nat);
        }
        let q = nh / l;
        if q < 10 {
            10
        } else {
            q
        }
    } else if nh < 3000 {
        64
    } else if nh < 6000 {
        128
    } else {
        256
    };
    let even = ns - ns % 2;
    if even < 2 {
        2
    } else {
        even
    }
}

/// The aggressive-early-deflation window for an active block of `active`
/// rows (`iparmq` ISPEC = 13): the shift count, or 3/2 of it above 500
/// rows.
pub fn deflation_window_lapack(dim: usize, active: usize) -> (r: usize)
    ensures
        r == if active <= 500 {
            shift_count_spec(active as int)
        } else {
            3 * shift_count_spec(active as int) / 2
        },
{
    let ns = shift_count_lapack(dim, active);
    if active <= 500 {
        ns
    } else {
        3 * ns / 2
    }
}

} // verus!
