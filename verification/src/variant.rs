//! The closed family of numeric variants a matrix can ingest.
//!
//! Each variant wraps one fixed-width integer, a platform-width integer, or
//! the bit pattern of a binary32 or binary64 value. The one operation is the
//! total widening to binary64; it never fails, though 64- and 128-bit
//! magnitudes above 2^53 lose precision, an accepted approximation.

use vstd::prelude::*;
use crate::scalar::dbl_of_f32;
use crate::scalar::dbl_of_i128;
use crate::scalar::dbl_of_u128;

verus! {

#[allow(non_camel_case_types)]
#[derive(Clone, Copy, Debug)]
pub enum def {
    I1(i8),
    I2(i16),
    I4(i32),
    I8(i64),
    I16(i128),
    U1(u8),
    U2(u16),
    U4(u32),
    U8(u64),
    U16(u128),
    /// A platform-width unsigned integer.
    U(usize),
    /// A platform-width signed integer.
    I(isize),
    /// The bit pattern of a binary32 value.
    F4(u32),
    /// The bit pattern of a binary64 value.
    F8(u64),
}

/// The bit pattern of the binary64 value a variant widens to. Every signed
/// variant and every unsigned variant that fits a signed 128-bit integer
/// widens through the signed conversion; the unsigned 128-bit variant through
/// the unsigned one; the binary32 variant through the binary32 widening; and
/// the binary64 variant is its own image.
pub open spec fn dbl_of(v: def) -> u64 {
    match v {
        def::I1(x) => dbl_of_i128(x as int),
        def::I2(x) => dbl_of_i128(x as int),
        def::I4(x) => dbl_of_i128(x as int),
        def::I8(x) => dbl_of_i128(x as int),
        def::I16(x) => dbl_of_i128(x as int),
        def::U1(x) => dbl_of_i128(x as int),
        def::U2(x) => dbl_of_i128(x as int),
        def::U4(x) => dbl_of_i128(x as int),
        def::U8(x) => dbl_of_i128(x as int),
        def::U16(x) => dbl_of_u128(x as int),
        def::U(x) => dbl_of_i128(x as int),
        def::I(x) => dbl_of_i128(x as int),
        def::F4(b) => dbl_of_f32(b),
        def::F8(b) => b,
    }
}

} // verus!
