//! Level 2: matrix–vector operations, one file per BLAS routine, every
//! one a composition of the Level 1 streams over column segments.
//!
//! Matrix convention: column `j` of an `nrows x ncols` matrix `a` stored
//! at column stride `cs >= nrows` is `a[j*cs .. j*cs + nrows]`; element
//! `k` of the storage belongs to the matrix exactly when `in_mat` holds,
//! and is then row `k % cs` of column `k / cs`.

use crate::c32::{cis_one, cis_zero, cmul, crscale, czero, C32};
use crate::c64::{zis_one, zis_zero, zmul, zrscale, zzero, C64};
use crate::ieee::{dis_zero, dmul, ieee_dis_zero, ieee_sis_zero, sis_zero, smul, ONE_D, ONE_S};
use crate::L1::{cscal, csscal, dscal, sscal, zdscal, zscal};
use vstd::prelude::*;

pub mod cgemv;
pub mod cgerc;
pub mod cgeru;
pub mod chemv;
pub mod cher;
pub mod cher2;
pub mod ctrmv;
pub mod ctrsv;
pub mod dgemv;
pub mod dger;
pub mod dsymv;
pub mod dsyr;
pub mod dsyr2;
pub mod dtrmv;
pub mod dtrsv;
pub mod sgemv;
pub mod sger;
pub mod ssymv;
pub mod ssyr;
pub mod ssyr2;
pub mod strmv;
pub mod strsv;
pub mod zgemv;
pub mod zgerc;
pub mod zgeru;
pub mod zhemv;
pub mod zher;
pub mod zher2;
pub mod ztrmv;
pub mod ztrsv;

pub use cgemv::{cgemv, cgemv_c, cgemv_t};
pub use cgerc::cgerc;
pub use cgeru::cgeru;
pub use chemv::chemv;
pub use cher::cher;
pub use cher2::cher2;
pub use ctrmv::ctrmv;
pub use ctrsv::ctrsv;
pub use dgemv::{dgemv, dgemv_t};
pub use dger::dger;
pub use dsymv::dsymv;
pub use dsyr::dsyr;
pub use dsyr2::dsyr2;
pub use dtrmv::dtrmv;
pub use dtrsv::dtrsv;
pub use sgemv::{sgemv, sgemv_t};
pub use sger::sger;
pub use ssymv::ssymv;
pub use ssyr::ssyr;
pub use ssyr2::ssyr2;
pub use strmv::strmv;
pub use strsv::strsv;
pub use zgemv::{zgemv, zgemv_c, zgemv_t};
pub use zgerc::zgerc;
pub use zgeru::zgeru;
pub use zhemv::zhemv;
pub use zher::zher;
pub use zher2::zher2;
pub use ztrmv::ztrmv;
pub use ztrsv::ztrsv;

verus! {

/// The storage of length `a_len` holds an `nrows x ncols` matrix at
/// column stride `cs`.
pub open spec fn mat_fits(a_len: int, nrows: int, ncols: int, cs: int) -> bool {
    &&& nrows <= cs
    &&& ncols > 0 ==> (ncols - 1) * cs + nrows <= a_len
}

/// Storage element `k` is an element of the `nrows x ncols` matrix at
/// column stride `cs`.
pub open spec fn in_mat(k: int, nrows: int, ncols: int, cs: int) -> bool {
    &&& 0 < cs
    &&& 0 <= k < ncols * cs
    &&& k % cs < nrows
}

/// Column `j` (its `nrows` stored elements) of the matrix in `a`.
pub open spec fn column<T>(a: Seq<T>, nrows: int, cs: int, j: int) -> Seq<T> {
    a.subrange(j * cs, j * cs + nrows)
}

/// Row `i` of column `j` lies in the stored strict triangle.
pub open spec fn strictly_stored(i: int, j: int, upper: bool) -> bool {
    if upper {
        i < j
    } else {
        i > j
    }
}

/// `a1` and `a2` hold the same entries in the stored strict triangle
/// (`upper` or lower) of an `n x n` matrix at column stride `cs`.
pub open spec fn same_strict_triangle<T>(a1: Seq<T>, a2: Seq<T>, n: int, cs: int, upper: bool) -> bool {
    forall|i: int, j: int|
        0 <= i < n && 0 <= j < n && strictly_stored(i, j, upper) ==> #[trigger] a1[j * cs + i] == a2[j
            * cs + i]
}

/// `a1` and `a2` hold the same diagonal of an `n x n` matrix at column
/// stride `cs`.
pub open spec fn same_diagonal<T>(a1: Seq<T>, a2: Seq<T>, n: int, cs: int) -> bool {
    forall|j: int| 0 <= j < n ==> #[trigger] a1[j * cs + j] == a2[j * cs + j]
}

/// Why storage cannot hold a matrix.
#[derive(Clone, Copy, Debug, PartialEq, Eq, Structural)]
pub enum MatError {
    /// The column stride is below the row count.
    StrideBelowRows,
    /// The storage is too short for the dimensions.
    StorageTooShort,
}

/// Shared entry check: does storage of length `a_len` really contain an
/// `nrows x ncols` matrix at stride `cs`?
pub fn check_mat(a_len: usize, nrows: usize, ncols: usize, cs: usize) -> (r: Result<(), MatError>)
    ensures
        r is Ok <==> mat_fits(a_len as int, nrows as int, ncols as int, cs as int),
        r == Err::<(), MatError>(MatError::StrideBelowRows) <==> cs < nrows,
        r == Err::<(), MatError>(MatError::StorageTooShort) <==> (nrows <= cs && ncols > 0 && (
        ncols - 1) * cs + nrows > a_len),
{
    if cs < nrows {
        return Err(MatError::StrideBelowRows);
    }
    if ncols == 0 {
        return Ok(());
    }
    match (ncols - 1).checked_mul(cs) {
        None => Err(MatError::StorageTooShort),
        Some(p) => match p.checked_add(nrows) {
            None => Err(MatError::StorageTooShort),
            Some(q) => if a_len >= q {
                Ok(())
            } else {
                Err(MatError::StorageTooShort)
            },
        },
    }
}

/// Every column of a matrix that fits its storage lies inside it.
pub proof fn lemma_column_in_bounds(a_len: int, nrows: int, ncols: int, cs: int, j: int)
    requires
        mat_fits(a_len, nrows, ncols, cs),
        0 <= nrows,
        0 <= j < ncols,
    ensures
        0 <= j * cs,
        j * cs + nrows <= a_len,
{
    assert(0 <= j * cs && j * cs <= (ncols - 1) * cs) by (nonlinear_arith)
        requires
            0 <= nrows <= cs,
            0 <= j < ncols,
    ;
}

/// Distinct columns never overlap: column `j1` ends before column `j2`
/// starts when `j1 < j2`.
pub proof fn lemma_columns_disjoint(nrows: int, cs: int, j1: int, j2: int)
    requires
        0 <= nrows <= cs,
        0 <= j1 < j2,
    ensures
        j1 * cs + nrows <= j2 * cs,
{
    assert(j1 * cs + cs <= j2 * cs) by (nonlinear_arith)
        requires
            0 <= cs,
            j1 + 1 <= j2,
    ;
}

/// A matrix element lies in one of the matrix's columns.
pub proof fn lemma_column_of(k: int, ncols: int, cs: int)
    requires
        0 < cs,
        0 <= k < ncols * cs,
    ensures
        0 <= k / cs < ncols,
        0 <= k % cs < cs,
{
    vstd::arithmetic::div_mod::lemma_fundamental_div_mod(k, cs);
    let q = k / cs;
    let r = k % cs;
    if q >= ncols {
        assert(cs * q >= ncols * cs) by (nonlinear_arith)
            requires
                q >= ncols,
                0 < cs,
        ;
    }
    if q < 0 {
        assert(cs * q <= -cs) by (nonlinear_arith)
            requires
                q < 0,
                0 < cs,
        ;
    }
}

/// Storage element `k` inside column `j` is row `k - j*cs` of column `j`.
pub proof fn lemma_cell(k: int, j: int, cs: int)
    requires
        0 < cs,
        j * cs <= k < j * cs + cs,
    ensures
        k / cs == j,
        k % cs == k - j * cs,
{
    vstd::arithmetic::div_mod::lemma_fundamental_div_mod_converse(k, cs, j, k - j * cs);
}

/// The matrix elements of the first `j + 1` columns are those of the
/// first `j` columns and the elements of column `j`.
pub proof fn lemma_in_mat_step(k: int, nrows: int, j: int, cs: int)
    requires
        0 < cs,
        0 <= nrows <= cs,
        0 <= j,
    ensures
        in_mat(k, nrows, j + 1, cs) == (in_mat(k, nrows, j, cs) || (j * cs <= k < j * cs + nrows)),
{
    if 0 <= k {
        let q = k / cs;
        let r = k % cs;
        vstd::arithmetic::div_mod::lemma_fundamental_div_mod(k, cs);
        assert(0 <= r < cs);
        assert(k == cs * q + r);
        assert((j + 1) * cs == j * cs + cs) by (nonlinear_arith);
        if q <= j - 1 {
            assert(cs * q + cs <= j * cs) by (nonlinear_arith)
                requires
                    q <= j - 1,
                    0 < cs,
            ;
        } else if q == j {
            assert(cs * q == j * cs) by (nonlinear_arith)
                requires
                    q == j,
            ;
        } else {
            assert(cs * q >= j * cs + cs) by (nonlinear_arith)
                requires
                    q >= j + 1,
                    0 < cs,
            ;
        }
    }
}

/// `βy` with the BLAS β = 0 rule: β = 0 writes zeros whatever `y` held,
/// β = 1 leaves `y` as it is, any other β multiplies every element.
pub open spec fn zscale_spec(beta: C64, y: Seq<C64>) -> Seq<C64> {
    if zis_zero(beta) {
        Seq::new(y.len(), |i: int| zzero())
    } else if zis_one(beta) {
        y
    } else {
        Seq::new(y.len(), |i: int| zmul(beta, y[i]))
    }
}

/// β = 0 forgets `y`: two vectors of one length scale to the same zeros,
/// whatever they held (NaN and infinity included); β = 1 keeps `y`.
pub proof fn lemma_zscale_zero_forgets_one_keeps(beta: C64, y1: Seq<C64>, y2: Seq<C64>)
    requires
        y1.len() == y2.len(),
    ensures
        zis_zero(beta) ==> zscale_spec(beta, y1) == zscale_spec(beta, y2),
        zis_one(beta) ==> zscale_spec(beta, y1) == y1,
{
    if zis_zero(beta) {
        assert(zscale_spec(beta, y1) =~= zscale_spec(beta, y2));
    }
}

/// y ← βy with BLAS β = 0 semantics (a hard zero-fill, so stale NaN or
/// infinity in `y` cannot leak through `0·y`).
pub fn zscale_y(beta: C64, y: &mut [C64])
    ensures
        final(y)@ == zscale_spec(beta, old(y)@),
{
    if beta.is_zero() {
        let ghost y0 = y@;
        let len = y.len();
        let mut i: usize = 0;
        while i < len
            invariant
                i <= len,
                len == y0.len(),
                y@.len() == len,
                forall|k: int| 0 <= k < len ==> #[trigger] y@[k] == if k < i { zzero() } else { y0[k] },
            decreases len - i,
        {
            y[i] = C64::zero();
            i += 1;
        }
        assert(y@ =~= Seq::new(y0.len(), |i: int| zzero()));
    } else if !beta.is_one() {
        zscal(beta, y);
    }
}

/// `βy` with the BLAS β = 0 rule: β = 0 writes zeros whatever `y` held,
/// β = 1 leaves `y` as it is, any other β multiplies every element.
pub open spec fn cscale_spec(beta: C32, y: Seq<C32>) -> Seq<C32> {
    if cis_zero(beta) {
        Seq::new(y.len(), |i: int| czero())
    } else if cis_one(beta) {
        y
    } else {
        Seq::new(y.len(), |i: int| cmul(beta, y[i]))
    }
}

/// β = 0 forgets `y`: two vectors of one length scale to the same zeros,
/// whatever they held (NaN and infinity included); β = 1 keeps `y`.
pub proof fn lemma_cscale_zero_forgets_one_keeps(beta: C32, y1: Seq<C32>, y2: Seq<C32>)
    requires
        y1.len() == y2.len(),
    ensures
        cis_zero(beta) ==> cscale_spec(beta, y1) == cscale_spec(beta, y2),
        cis_one(beta) ==> cscale_spec(beta, y1) == y1,
{
    if cis_zero(beta) {
        assert(cscale_spec(beta, y1) =~= cscale_spec(beta, y2));
    }
}

/// y ← βy with BLAS β = 0 semantics (a hard zero-fill, so stale NaN or
/// infinity in `y` cannot leak through `0·y`).
pub fn cscale_y(beta: C32, y: &mut [C32])
    ensures
        final(y)@ == cscale_spec(beta, old(y)@),
{
    if beta.is_zero() {
        let ghost y0 = y@;
        let len = y.len();
        let mut i: usize = 0;
        while i < len
            invariant
                i <= len,
                len == y0.len(),
                y@.len() == len,
                forall|k: int| 0 <= k < len ==> #[trigger] y@[k] == if k < i { czero() } else { y0[k] },
            decreases len - i,
        {
            y[i] = C32::zero();
            i += 1;
        }
        assert(y@ =~= Seq::new(y0.len(), |i: int| czero()));
    } else if !beta.is_one() {
        cscal(beta, y);
    }
}

/// `βy` with the BLAS β = 0 rule on binary64 values: β = 0 writes +0
/// whatever `y` held, β = 1 leaves `y` as it is, any other β multiplies
/// every element (`y[i]·β`).
pub open spec fn dscale_spec(beta: u64, y: Seq<u64>) -> Seq<u64> {
    if dis_zero(beta) {
        Seq::new(y.len(), |i: int| 0u64)
    } else if beta == ONE_D {
        y
    } else {
        Seq::new(y.len(), |i: int| dmul(y[i], beta))
    }
}

/// β = 0 forgets `y`: two vectors of one length scale to the same zeros,
/// whatever they held (NaN and infinity included); β = 1 keeps `y`.
pub proof fn lemma_dscale_zero_forgets_one_keeps(beta: u64, y1: Seq<u64>, y2: Seq<u64>)
    requires
        y1.len() == y2.len(),
    ensures
        dis_zero(beta) ==> dscale_spec(beta, y1) == dscale_spec(beta, y2),
        beta == ONE_D ==> dscale_spec(beta, y1) == y1,
{
    if dis_zero(beta) {
        assert(dscale_spec(beta, y1) =~= dscale_spec(beta, y2));
    }
}

/// y ← βy with BLAS β = 0 semantics (a hard zero-fill).
pub fn dscale_y(beta: u64, y: &mut [u64])
    ensures
        final(y)@ == dscale_spec(beta, old(y)@),
{
    if ieee_dis_zero(beta) {
        let ghost y0 = y@;
        let len = y.len();
        let mut i: usize = 0;
        while i < len
            invariant
                i <= len,
                len == y0.len(),
                y@.len() == len,
                forall|k: int| 0 <= k < len ==> #[trigger] y@[k] == if k < i { 0u64 } else { y0[k] },
            decreases len - i,
        {
            y[i] = 0;
            i += 1;
        }
        assert(y@ =~= Seq::new(y0.len(), |i: int| 0u64));
    } else if beta != ONE_D {
        dscal(beta, y);
    }
}

/// `βy` with the BLAS β = 0 rule on binary32 values: β = 0 writes +0
/// whatever `y` held, β = 1 leaves `y` as it is, any other β multiplies
/// every element (`y[i]·β`).
pub open spec fn sscale_spec(beta: u32, y: Seq<u32>) -> Seq<u32> {
    if sis_zero(beta) {
        Seq::new(y.len(), |i: int| 0u32)
    } else if beta == ONE_S {
        y
    } else {
        Seq::new(y.len(), |i: int| smul(y[i], beta))
    }
}

/// β = 0 forgets `y`: two vectors of one length scale to the same zeros,
/// whatever they held (NaN and infinity included); β = 1 keeps `y`.
pub proof fn lemma_sscale_zero_forgets_one_keeps(beta: u32, y1: Seq<u32>, y2: Seq<u32>)
    requires
        y1.len() == y2.len(),
    ensures
        sis_zero(beta) ==> sscale_spec(beta, y1) == sscale_spec(beta, y2),
        beta == ONE_S ==> sscale_spec(beta, y1) == y1,
{
    if sis_zero(beta) {
        assert(sscale_spec(beta, y1) =~= sscale_spec(beta, y2));
    }
}

/// y ← βy with BLAS β = 0 semantics (a hard zero-fill).
pub fn sscale_y(beta: u32, y: &mut [u32])
    ensures
        final(y)@ == sscale_spec(beta, old(y)@),
{
    if ieee_sis_zero(beta) {
        let ghost y0 = y@;
        let len = y.len();
        let mut i: usize = 0;
        while i < len
            invariant
                i <= len,
                len == y0.len(),
                y@.len() == len,
                forall|k: int| 0 <= k < len ==> #[trigger] y@[k] == if k < i { 0u32 } else { y0[k] },
            decreases len - i,
        {
            y[i] = 0;
            i += 1;
        }
        assert(y@ =~= Seq::new(y0.len(), |i: int| 0u32));
    } else if beta != ONE_S {
        sscal(beta, y);
    }
}

/// `βy` for a real β and complex `y` with the BLAS β = 0 rule: β = 0
/// writes zeros whatever `y` held, β = 1 leaves `y` as it is, any other
/// β multiplies both parts of every element.
pub open spec fn zdscale_spec(beta: u64, y: Seq<C64>) -> Seq<C64> {
    if dis_zero(beta) {
        Seq::new(y.len(), |i: int| zzero())
    } else if beta == ONE_D {
        y
    } else {
        Seq::new(y.len(), |i: int| zrscale(y[i], beta))
    }
}

/// Real-β scale of a complex vector: y ← βy, β = 0 a hard zero-fill,
/// otherwise one real multiply per part.
pub fn zdscale_y(beta: u64, y: &mut [C64])
    ensures
        final(y)@ == zdscale_spec(beta, old(y)@),
{
    if ieee_dis_zero(beta) {
        let ghost y0 = y@;
        let len = y.len();
        let mut i: usize = 0;
        while i < len
            invariant
                i <= len,
                len == y0.len(),
                y@.len() == len,
                forall|k: int| 0 <= k < len ==> #[trigger] y@[k] == if k < i { zzero() } else { y0[k] },
            decreases len - i,
        {
            y[i] = C64::zero();
            i += 1;
        }
        assert(y@ =~= Seq::new(y0.len(), |i: int| zzero()));
    } else if beta != ONE_D {
        zdscal(beta, y);
    }
}

/// `βy` for a real β and complex `y` with the BLAS β = 0 rule: β = 0
/// writes zeros whatever `y` held, β = 1 leaves `y` as it is, any other
/// β multiplies both parts of every element.
pub open spec fn csscale_spec(beta: u32, y: Seq<C32>) -> Seq<C32> {
    if sis_zero(beta) {
        Seq::new(y.len(), |i: int| czero())
    } else if beta == ONE_S {
        y
    } else {
        Seq::new(y.len(), |i: int| crscale(y[i], beta))
    }
}

/// Real-β scale of a complex vector: y ← βy, β = 0 a hard zero-fill,
/// otherwise one real multiply per part.
pub fn csscale_y(beta: u32, y: &mut [C32])
    ensures
        final(y)@ == csscale_spec(beta, old(y)@),
{
    if ieee_sis_zero(beta) {
        let ghost y0 = y@;
        let len = y.len();
        let mut i: usize = 0;
        while i < len
            invariant
                i <= len,
                len == y0.len(),
                y@.len() == len,
                forall|k: int| 0 <= k < len ==> #[trigger] y@[k] == if k < i { czero() } else { y0[k] },
            decreases len - i,
        {
            y[i] = C32::zero();
            i += 1;
        }
        assert(y@ =~= Seq::new(y0.len(), |i: int| czero()));
    } else if beta != ONE_S {
        csscal(beta, y);
    }
}

} // verus!
