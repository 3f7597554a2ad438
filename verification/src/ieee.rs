//! IEEE-754 arithmetic on bit patterns.
//!
//! Each rounded operation is a name for what the `rustc_apfloat`
//! software implementation of IEEE-754 returns for the given operand bit
//! patterns (round to nearest, ties to even). The names claim only that
//! the result is determined by the operands; nothing else is stated of
//! their values — in particular not the bits of a NaN result, which
//! follow `rustc_apfloat`'s NaN propagation. Sign operations (negation,
//! absolute value), the NaN test and the comparisons are exact bit
//! manipulations and are defined and implemented here.

use rustc_apfloat::ieee::{Double, Single};
use rustc_apfloat::Float;
use vstd::prelude::*;

verus! {

/// Sign bit of a binary64 pattern.
pub const SIGN_D: u64 = 0x8000_0000_0000_0000u64;

/// Sign bit of a binary32 pattern.
pub const SIGN_S: u32 = 0x8000_0000u32;

/// Bit pattern of binary64 `1.0`.
pub const ONE_D: u64 = 0x3FF0_0000_0000_0000u64;

/// Bit pattern of binary32 `1.0`.
pub const ONE_S: u32 = 0x3F80_0000u32;

/// Binary64 sum `a + b` (round to nearest even), operands and result as bit patterns.
pub uninterp spec fn dadd(a: u64, b: u64) -> u64;

/// Binary64 difference `a - b` (round to nearest even).
pub uninterp spec fn dsub(a: u64, b: u64) -> u64;

/// Binary64 product `a * b` (round to nearest even).
pub uninterp spec fn dmul(a: u64, b: u64) -> u64;

/// Binary64 quotient `a / b` (round to nearest even).
pub uninterp spec fn ddiv(a: u64, b: u64) -> u64;

/// Binary32 sum `a + b` (round to nearest even).
pub uninterp spec fn sadd(a: u32, b: u32) -> u32;

/// Binary32 difference `a - b` (round to nearest even).
pub uninterp spec fn ssub(a: u32, b: u32) -> u32;

/// Binary32 product `a * b` (round to nearest even).
pub uninterp spec fn smul(a: u32, b: u32) -> u32;

/// Binary32 quotient `a / b` (round to nearest even).
pub uninterp spec fn sdiv(a: u32, b: u32) -> u32;

/// Bit pattern of binary64 `+infinity`: the largest magnitude that is
/// not a NaN.
pub const INF_D: u64 = 0x7FF0_0000_0000_0000u64;

/// Bit pattern of binary32 `+infinity`.
pub const INF_S: u32 = 0x7F80_0000u32;

/// Binary64 NaN: every exponent bit set and a nonzero fraction.
pub open spec fn dis_nan(a: u64) -> bool {
    dabs(a) > INF_D
}

/// Binary32 NaN: every exponent bit set and a nonzero fraction.
pub open spec fn sis_nan(a: u32) -> bool {
    sabs(a) > INF_S
}

/// Binary64 comparison `a < b`: false when either is NaN, and the two
/// zeros are equal; otherwise a negative value is below a positive one,
/// two positive values order by magnitude bits, and two negative values
/// in reverse.
pub open spec fn dlt(a: u64, b: u64) -> bool {
    if dis_nan(a) || dis_nan(b) {
        false
    } else if dabs(a) == 0 && dabs(b) == 0 {
        false
    } else if a < SIGN_D {
        b < SIGN_D && dabs(a) < dabs(b)
    } else {
        b < SIGN_D || dabs(b) < dabs(a)
    }
}

/// Binary32 comparison `a < b`, with the rules of `dlt`.
pub open spec fn slt(a: u32, b: u32) -> bool {
    if sis_nan(a) || sis_nan(b) {
        false
    } else if sabs(a) == 0 && sabs(b) == 0 {
        false
    } else if a < SIGN_S {
        b < SIGN_S && sabs(a) < sabs(b)
    } else {
        b < SIGN_S || sabs(b) < sabs(a)
    }
}

/// Clearing the sign bit twice clears it once: the magnitude of a value
/// is a NaN exactly when the value is.
pub proof fn lemma_dabs_idempotent(a: u64)
    ensures
        dabs(dabs(a)) == dabs(a),
{
    assert((a & 0x7FFF_FFFF_FFFF_FFFFu64) & 0x7FFF_FFFF_FFFF_FFFFu64 == a & 0x7FFF_FFFF_FFFF_FFFFu64)
        by (bit_vector);
}

/// Clearing the sign bit twice clears it once.
pub proof fn lemma_sabs_idempotent(a: u32)
    ensures
        sabs(sabs(a)) == sabs(a),
{
    assert((a & 0x7FFF_FFFFu32) & 0x7FFF_FFFFu32 == a & 0x7FFF_FFFFu32) by (bit_vector);
}

/// `<` is transitive.
pub proof fn lemma_dlt_transitive(a: u64, b: u64, c: u64)
    requires
        dlt(a, b),
        dlt(b, c),
    ensures
        dlt(a, c),
{
}

/// A value that is not above `b` is below everything above `b`.
pub proof fn lemma_dlt_not_above(b: u64, k: u64, c: u64)
    requires
        !dis_nan(k),
        !dlt(b, k),
        dlt(b, c),
    ensures
        dlt(k, c),
{
}

/// `<` is transitive.
pub proof fn lemma_slt_transitive(a: u32, b: u32, c: u32)
    requires
        slt(a, b),
        slt(b, c),
    ensures
        slt(a, c),
{
}

/// A value that is not above `b` is below everything above `b`.
pub proof fn lemma_slt_not_above(b: u32, k: u32, c: u32)
    requires
        !sis_nan(k),
        !slt(b, k),
        slt(b, c),
    ensures
        slt(k, c),
{
}

/// Binary64 negation: the sign bit flipped, every other bit kept.
pub open spec fn dneg(a: u64) -> u64 {
    a ^ SIGN_D
}

/// Binary32 negation: the sign bit flipped, every other bit kept.
pub open spec fn sneg(a: u32) -> u32 {
    a ^ SIGN_S
}

/// Binary64 absolute value: the sign bit cleared, every other bit kept.
pub open spec fn dabs(a: u64) -> u64 {
    a & 0x7FFF_FFFF_FFFF_FFFFu64
}

/// Binary32 absolute value: the sign bit cleared, every other bit kept.
pub open spec fn sabs(a: u32) -> u32 {
    a & 0x7FFF_FFFFu32
}

/// Binary64 `a == 0.0`: true exactly for the two zeros.
pub open spec fn dis_zero(a: u64) -> bool {
    a == 0 || a == SIGN_D
}

/// Binary32 `a == 0.0`: true exactly for the two zeros.
pub open spec fn sis_zero(a: u32) -> bool {
    a == 0 || a == SIGN_S
}

/// `rustc_apfloat` binary64 addition (`Double + Double`, ties to even);
/// the result is claimed to be the named `dadd` of the operands.
#[verifier::external_body]
pub(crate) fn ieee_dadd(a: u64, b: u64) -> (r: u64)
    ensures
        r == dadd(a, b),
{
    (Double::from_bits(a as u128) + Double::from_bits(b as u128)).value.to_bits() as u64
}

/// `rustc_apfloat` binary64 subtraction (`Double - Double`, ties to even);
/// the result is claimed to be the named `dsub` of the operands.
#[verifier::external_body]
pub(crate) fn ieee_dsub(a: u64, b: u64) -> (r: u64)
    ensures
        r == dsub(a, b),
{
    (Double::from_bits(a as u128) - Double::from_bits(b as u128)).value.to_bits() as u64
}

/// `rustc_apfloat` binary64 multiplication (`Double * Double`, ties to even);
/// the result is claimed to be the named `dmul` of the operands.
#[verifier::external_body]
pub(crate) fn ieee_dmul(a: u64, b: u64) -> (r: u64)
    ensures
        r == dmul(a, b),
{
    (Double::from_bits(a as u128) * Double::from_bits(b as u128)).value.to_bits() as u64
}

/// `rustc_apfloat` binary64 division (`Double / Double`, ties to even);
/// the result is claimed to be the named `ddiv` of the operands.
#[verifier::external_body]
pub(crate) fn ieee_ddiv(a: u64, b: u64) -> (r: u64)
    ensures
        r == ddiv(a, b),
{
    (Double::from_bits(a as u128) / Double::from_bits(b as u128)).value.to_bits() as u64
}

/// `rustc_apfloat` binary32 addition (`Single + Single`, ties to even);
/// the result is claimed to be the named `sadd` of the operands.
#[verifier::external_body]
pub(crate) fn ieee_sadd(a: u32, b: u32) -> (r: u32)
    ensures
        r == sadd(a, b),
{
    (Single::from_bits(a as u128) + Single::from_bits(b as u128)).value.to_bits() as u32
}

/// `rustc_apfloat` binary32 subtraction (`Single - Single`, ties to even);
/// the result is claimed to be the named `ssub` of the operands.
#[verifier::external_body]
pub(crate) fn ieee_ssub(a: u32, b: u32) -> (r: u32)
    ensures
        r == ssub(a, b),
{
    (Single::from_bits(a as u128) - Single::from_bits(b as u128)).value.to_bits() as u32
}

/// `rustc_apfloat` binary32 multiplication (`Single * Single`, ties to even);
/// the result is claimed to be the named `smul` of the operands.
#[verifier::external_body]
pub(crate) fn ieee_smul(a: u32, b: u32) -> (r: u32)
    ensures
        r == smul(a, b),
{
    (Single::from_bits(a as u128) * Single::from_bits(b as u128)).value.to_bits() as u32
}

/// `rustc_apfloat` binary32 division (`Single / Single`, ties to even);
/// the result is claimed to be the named `sdiv` of the operands.
#[verifier::external_body]
pub(crate) fn ieee_sdiv(a: u32, b: u32) -> (r: u32)
    ensures
        r == sdiv(a, b),
{
    (Single::from_bits(a as u128) / Single::from_bits(b as u128)).value.to_bits() as u32
}

/// Binary64 comparison `a < b` (exact).
pub(crate) fn ieee_dlt(a: u64, b: u64) -> (r: bool)
    ensures
        r == dlt(a, b),
{
    let ma = a & 0x7FFF_FFFF_FFFF_FFFFu64;
    let mb = b & 0x7FFF_FFFF_FFFF_FFFFu64;
    if ma > INF_D || mb > INF_D {
        false
    } else if ma == 0 && mb == 0 {
        false
    } else if a < SIGN_D {
        b < SIGN_D && ma < mb
    } else {
        b < SIGN_D || mb < ma
    }
}

/// Binary32 comparison `a < b` (exact).
pub(crate) fn ieee_slt(a: u32, b: u32) -> (r: bool)
    ensures
        r == slt(a, b),
{
    let ma = a & 0x7FFF_FFFFu32;
    let mb = b & 0x7FFF_FFFFu32;
    if ma > INF_S || mb > INF_S {
        false
    } else if ma == 0 && mb == 0 {
        false
    } else if a < SIGN_S {
        b < SIGN_S && ma < mb
    } else {
        b < SIGN_S || mb < ma
    }
}

/// Binary64 negation (exact).
pub(crate) fn ieee_dneg(a: u64) -> (r: u64)
    ensures
        r == dneg(a),
{
    a ^ SIGN_D
}

/// Binary32 negation (exact).
pub(crate) fn ieee_sneg(a: u32) -> (r: u32)
    ensures
        r == sneg(a),
{
    a ^ SIGN_S
}

/// Binary64 absolute value (exact).
pub(crate) fn ieee_dabs(a: u64) -> (r: u64)
    ensures
        r == dabs(a),
{
    a & 0x7FFF_FFFF_FFFF_FFFFu64
}

/// Binary32 absolute value (exact).
pub(crate) fn ieee_sabs(a: u32) -> (r: u32)
    ensures
        r == sabs(a),
{
    a & 0x7FFF_FFFFu32
}

/// Binary64 comparison with zero (exact).
pub(crate) fn ieee_dis_zero(a: u64) -> (r: bool)
    ensures
        r == dis_zero(a),
{
    a == 0 || a == SIGN_D
}

/// Binary32 comparison with zero (exact).
pub(crate) fn ieee_sis_zero(a: u32) -> (r: bool)
    ensures
        r == sis_zero(a),
{
    a == 0 || a == SIGN_S
}

} // verus!
