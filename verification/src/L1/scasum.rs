//! `scasum` — Σ(|reᵢ| + |imᵢ|), the complex ℓ¹-style norm of component
//! magnitudes: `sasum` on the 2n-real view, so the reduction order
//! interleaves real and imaginary parts exactly as `sasum` folds them.

use super::sasum::{sasum, sasum_spec};
use crate::c32::{as_re, cre_view, C32};
use vstd::prelude::*;

verus! {

/// Returns Σ(|reᵢ| + |imᵢ|), accumulated as `sasum` orders the 2n-real
/// view.
pub fn scasum(x: &[C32]) -> (r: u32)
    ensures
        r == sasum_spec(cre_view(x@)),
{
    let v = as_re(x);
    sasum(v.as_slice())
}

} // verus!
