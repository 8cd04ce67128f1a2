//! Scalar model of the matrix elements.
//!
//! Every element of the engine is an IEEE binary64 value carried by its bit
//! pattern, a `u64`. The arithmetic on those values is software IEEE
//! arithmetic from rustc_apfloat, reached only through the trusted wrappers
//! below; what each operation returns is named by an uninterpreted spec
//! function of the operand bits, so the contracts of the matrix operations
//! can say exactly which combination of elements each cell holds.

use vstd::prelude::*;
use rustc_apfloat::Float;
use rustc_apfloat::FloatConvert;
use rustc_apfloat::ieee::Double;
use rustc_apfloat::ieee::Single;

verus! {

/// Bit pattern of positive zero, the starting accumulator of every sum.
pub const POS_ZERO_BITS: u64 = 0;

/// Bit pattern of negative zero; together with `POS_ZERO_BITS` these are the
/// only bit patterns that compare equal to zero.
pub const NEG_ZERO_BITS: u64 = 0x8000_0000_0000_0000;

/// Bit pattern of the binary64 value one.
pub const ONE_BITS: u64 = 0x3FF0_0000_0000_0000;

/// The binary64 bit patterns that hold the value zero: positive or negative
/// zero. A division guard tests exactly this, as `x != 0.0` does.
pub open spec fn is_zero_bits(b: u64) -> bool {
    b == POS_ZERO_BITS || b == NEG_ZERO_BITS
}

/// A binary64 NaN: exponent field all ones and a non-zero significand field.
pub open spec fn is_nan_bits(b: u64) -> bool {
    (b >> 52) & 0x7ff == 0x7ff && b & 0x000f_ffff_ffff_ffff != 0
}

/// The bit pattern of the IEEE binary64 sum of the two values whose bit
/// patterns are given (round to nearest, ties to even).
pub uninterp spec fn add_bits(a: u64, b: u64) -> u64;

/// The bit pattern of the IEEE binary64 difference of the two values whose
/// bit patterns are given.
pub uninterp spec fn sub_bits(a: u64, b: u64) -> u64;

/// The bit pattern of the IEEE binary64 product of the two values whose bit
/// patterns are given.
pub uninterp spec fn mul_bits(a: u64, b: u64) -> u64;

/// The bit pattern of the IEEE binary64 quotient of the two values whose bit
/// patterns are given.
pub uninterp spec fn div_bits(a: u64, b: u64) -> u64;

/// The bit pattern of the binary64 value nearest to the given integer.
pub uninterp spec fn dbl_of_i128(v: int) -> u64;

/// The bit pattern of the binary64 value nearest to the given non-negative
/// integer.
pub uninterp spec fn dbl_of_u128(v: int) -> u64;

/// The bit pattern of the binary64 value that the binary32 value with the
/// given bit pattern widens to.
pub uninterp spec fn dbl_of_f32(b: u32) -> u64;

/// Relies on rustc_apfloat's binary64 addition (`ieee::Double` plus the
/// `Float` trait's `Add`): the sum's bit pattern is a function of the operand
/// bit patterns alone.
#[verifier::external_body]
pub(crate) fn fp_add(a: u64, b: u64) -> (r: u64)
    ensures
        r == add_bits(a, b),
{
    (Double::from_bits(a as u128) + Double::from_bits(b as u128)).value.to_bits() as u64
}

/// Relies on rustc_apfloat's binary64 subtraction.
#[verifier::external_body]
pub(crate) fn fp_sub(a: u64, b: u64) -> (r: u64)
    ensures
        r == sub_bits(a, b),
{
    (Double::from_bits(a as u128) - Double::from_bits(b as u128)).value.to_bits() as u64
}

/// Relies on rustc_apfloat's binary64 multiplication. Its `mul_r` treats the
/// zero, infinity and normal category pairs symmetrically (exponents add and
/// the significand product does not depend on the operand order), so when
/// neither operand is a NaN the result is the same in either order; only the
/// NaN arm prefers one operand.
#[verifier::external_body]
pub(crate) fn fp_mul(a: u64, b: u64) -> (r: u64)
    ensures
        r == mul_bits(a, b),
        !is_nan_bits(a) && !is_nan_bits(b) ==> r == mul_bits(b, a),
{
    (Double::from_bits(a as u128) * Double::from_bits(b as u128)).value.to_bits() as u64
}

/// Relies on rustc_apfloat's binary64 division; it returns a value (infinity
/// or NaN) rather than failing on a zero divisor.
#[verifier::external_body]
pub(crate) fn fp_div(a: u64, b: u64) -> (r: u64)
    ensures
        r == div_bits(a, b),
{
    (Double::from_bits(a as u128) / Double::from_bits(b as u128)).value.to_bits() as u64
}

/// Relies on rustc_apfloat's `Float::from_i128`, the round-to-nearest
/// conversion of a signed integer to binary64.
#[verifier::external_body]
pub(crate) fn fp_from_i128(v: i128) -> (r: u64)
    ensures
        r == dbl_of_i128(v as int),
{
    Double::from_i128(v).value.to_bits() as u64
}

/// Relies on rustc_apfloat's `Float::from_u128`, the round-to-nearest
/// conversion of an unsigned integer to binary64.
#[verifier::external_body]
pub(crate) fn fp_from_u128(v: u128) -> (r: u64)
    ensures
        r == dbl_of_u128(v as int),
{
    Double::from_u128(v).value.to_bits() as u64
}

/// Relies on rustc_apfloat's `FloatConvert` from `ieee::Single` to
/// `ieee::Double`, the widening of a binary32 value to binary64.
#[verifier::external_body]
pub(crate) fn fp_widen_f32(b: u32) -> (r: u64)
    ensures
        r == dbl_of_f32(b),
{
    let mut loses_info = false;
    let wide: rustc_apfloat::StatusAnd<Double> =
        Single::from_bits(b as u128).convert(&mut loses_info);
    wide.value.to_bits() as u64
}

} // verus!
