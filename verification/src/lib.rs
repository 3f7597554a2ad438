//! Verified complex and real BLAS Level 1 and Level 2 routines.
//!
//! Floating-point values are carried as their IEEE-754 bit patterns
//! (`u32` for binary32, `u64` for binary64); every rounded operation is
//! obtained from the `rustc_apfloat` software implementation of IEEE-754
//! behind the trusted items of [`ieee`]. What is proved is everything
//! around those operations: which operations are applied, in which
//! order, to which elements, and which elements are left untouched.
//!
//! Matrix convention (the whole crate): column-major storage with a
//! column stride; column `j` of an `nrows x ncols` matrix stored at
//! stride `cs >= nrows` is `a[j*cs .. j*cs + nrows]`, unit row stride.

pub mod ieee;
pub mod c32;
pub mod c64;
pub mod schur_params;
#[allow(non_snake_case)]
pub mod L1;
#[allow(non_snake_case)]
pub mod L2;
