//! Level 1: vector operations, one file per BLAS routine. The
//! z-prefixed routines work on binary64 complex vectors, the
//! c-prefixed ones on binary32 complex vectors.

pub mod caxpy;
pub mod ccopy;
pub mod cdot;
pub mod cdotc;
pub mod cdotu;
pub mod cscal;
pub mod cswap;
pub mod crotg;
pub mod csrot;
pub mod csscal;
pub mod dasum;
pub mod dcopy;
pub mod dnrm2;
pub mod dznrm2;
pub mod drotg;
pub mod ddot;
pub mod daxpy;
pub mod drot;
pub mod dscal;
pub mod dswap;
pub mod dzasum;
pub mod icamax;
pub mod idamax;
pub mod isamax;
pub mod izamax;
pub mod sasum;
pub mod saxpy;
pub mod scasum;
pub mod scnrm2;
pub mod scopy;
pub mod snrm2;
pub mod sdot;
pub mod srotg;
pub mod srot;
pub mod sscal;
pub mod sswap;
pub mod zaxpy;
pub mod zcopy;
pub mod zdot;
pub mod zdrot;
pub mod zrotg;
pub mod zdscal;
pub mod zdotc;
pub mod zdotu;
pub mod zscal;
pub mod zswap;

pub use caxpy::caxpy;
pub use ccopy::ccopy;
pub use cdotc::cdotc;
pub use cdotu::cdotu;
pub use cscal::cscal;
pub use cswap::cswap;
pub use crotg::{crotg_finish, crotg_plan, CGivens, CRotgPlan};
pub use csrot::csrot;
pub use csscal::csscal;
pub use dasum::dasum;
pub use dcopy::dcopy;
pub use dnrm2::{dnrm2_finish, dnrm2_ssq};
pub use dznrm2::dznrm2_ssq;
pub use drotg::{drotg_finish, drotg_plan};
pub use ddot::ddot;
pub use daxpy::daxpy;
pub use drot::drot;
pub use dscal::dscal;
pub use dswap::dswap;
pub use dzasum::dzasum;
pub use icamax::icamax;
pub use idamax::idamax;
pub use isamax::isamax;
pub use izamax::izamax;
pub use sasum::sasum;
pub use saxpy::saxpy;
pub use scasum::scasum;
pub use scnrm2::scnrm2_ssq;
pub use scopy::scopy;
pub use snrm2::{snrm2_finish, snrm2_ssq};
pub use sdot::sdot;
pub use srotg::{srotg_finish, srotg_plan, Givens, RotgPlan};
pub use srot::srot;
pub use sscal::sscal;
pub use sswap::sswap;
pub use zaxpy::zaxpy;
pub use zcopy::zcopy;
pub use zdotc::zdotc;
pub use zdotu::zdotu;
pub use zdrot::zdrot;
pub use zrotg::{zrotg_finish, zrotg_plan, ZGivens, ZRotgPlan};
pub use zdscal::zdscal;
pub use zscal::zscal;
pub use zswap::zswap;
