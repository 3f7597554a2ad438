//! `dzasum` — Σ(|reᵢ| + |imᵢ|), the complex ℓ¹-style norm of component
//! magnitudes: `dasum` on the 2n-real view, so the reduction order
//! interleaves real and imaginary parts exactly as `dasum` folds them.

use super::dasum::{dasum, dasum_spec};
use crate::c64::{as_re, zre_view, C64};
use vstd::prelude::*;

verus! {

/// Returns Σ(|reᵢ| + |imᵢ|), accumulated as `dasum` orders the 2n-real
/// view.
pub fn dzasum(x: &[C64]) -> (r: u64)
    ensures
        r == dasum_spec(zre_view(x@)),
{
    let v = as_re(x);
    dasum(v.as_slice())
}

} // verus!
