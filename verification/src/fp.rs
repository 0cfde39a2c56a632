//! Single-precision IEEE 754 arithmetic behind trusted single-operation
//! wrappers.
//!
//! A value of the engine's numeric domain is a `u32` holding the bit pattern
//! of an IEEE 754 single-precision number. Each arithmetic operation is named
//! by an uninterpreted spec function and performed by one `external_body`
//! wrapper whose contract ties the returned bits to that name. IEEE 754 fixes
//! the result bits of `+ - * /` and of comparison for given operand bits
//! (round to nearest, ties to even), so naming them is sound; `powf`, `ln` and
//! `exp` are relied upon as pure functions of their operand bits.
//!
//! The basic operations are computed by `rustc_apfloat`, a software
//! implementation of IEEE 754 binary32 whose entry points take and return raw
//! bits; the transcendental ones by `libm`.
use vstd::prelude::*;

use rustc_apfloat::Float;
use rustc_apfloat::ieee::Single;

verus! {

/// Bits of single-precision `0.0`.
pub const F_ZERO: u32 = 0x0000_0000;

/// Bits of single-precision `1.0`.
pub const F_ONE: u32 = 0x3f80_0000;

/// Bits of the single-precision machine epsilon, `2^-23`.
pub const F_EPSILON: u32 = 0x3400_0000;

/// Bits of single-precision `2.0`.
pub const F_TWO: u32 = 0x4000_0000;

/// Bits of single-precision `3.0`.
pub const F_THREE: u32 = 0x4040_0000;

/// Bits of single-precision `4.0`.
pub const F_FOUR: u32 = 0x4080_0000;

/// Bits of single-precision `6.0`.
pub const F_SIX: u32 = 0x40c0_0000;

/// Bits of single-precision `7.0`.
pub const F_SEVEN: u32 = 0x40e0_0000;

/// Bits of single-precision `12.0`.
pub const F_TWELVE: u32 = 0x4140_0000;

/// Bits of single-precision `30.0`.
pub const F_THIRTY: u32 = 0x41f0_0000;

/// Bits of single-precision `100.0`.
pub const F_HUNDRED: u32 = 0x42c8_0000;

/// Bits of single-precision `360.0`.
pub const F_360: u32 = 0x43b4_0000;

/// Bits of single-precision `365.0`.
pub const F_365: u32 = 0x43b6_8000;

/// The bits of the IEEE 754 single-precision sum of the two operands.
pub uninterp spec fn f_add(a: u32, b: u32) -> u32;

/// The bits of the IEEE 754 single-precision difference of the two operands.
pub uninterp spec fn f_sub(a: u32, b: u32) -> u32;

/// The bits of the IEEE 754 single-precision product of the two operands.
pub uninterp spec fn f_mul(a: u32, b: u32) -> u32;

/// The bits of the IEEE 754 single-precision quotient of the two operands.
pub uninterp spec fn f_div(a: u32, b: u32) -> u32;

/// Whether the first operand compares strictly less than the second under
/// IEEE 754 ordered comparison.
pub uninterp spec fn f_lt(a: u32, b: u32) -> bool;

/// Whether the operands compare equal under IEEE 754 ordered comparison.
pub uninterp spec fn f_eq(a: u32, b: u32) -> bool;

/// The bits of the first operand raised to the power of the second, as the
/// single-precision `powf` of `libm` computes them.
pub uninterp spec fn f_powf(a: u32, b: u32) -> u32;

/// The bits of the natural logarithm, as the single-precision `logf` of
/// `libm` computes them.
pub uninterp spec fn f_ln(a: u32) -> u32;

/// The bits of the exponential, as the single-precision `expf` of `libm`
/// computes them.
pub uninterp spec fn f_exp(a: u32) -> u32;

/// The bits of the nearest single-precision value to the integer `x`.
pub uninterp spec fn f_of_u32(x: u32) -> u32;

/// Relies on `rustc_apfloat::ieee::Single`'s `core::ops::Add` impl: the IEEE
/// 754 single-precision sum, rounded to nearest with ties to even.
#[verifier::external_body]
pub fn add(a: u32, b: u32) -> (r: u32)
    ensures
        r == f_add(a, b),
{
    (Single::from_bits(a as u128) + Single::from_bits(b as u128)).value.to_bits() as u32
}

/// Relies on `rustc_apfloat::ieee::Single`'s `core::ops::Sub` impl: the IEEE
/// 754 single-precision difference.
#[verifier::external_body]
pub fn sub(a: u32, b: u32) -> (r: u32)
    ensures
        r == f_sub(a, b),
{
    (Single::from_bits(a as u128) - Single::from_bits(b as u128)).value.to_bits() as u32
}

/// Relies on `rustc_apfloat::ieee::Single`'s `core::ops::Mul` impl: the IEEE
/// 754 single-precision product.
#[verifier::external_body]
pub fn mul(a: u32, b: u32) -> (r: u32)
    ensures
        r == f_mul(a, b),
{
    (Single::from_bits(a as u128) * Single::from_bits(b as u128)).value.to_bits() as u32
}

/// Relies on `rustc_apfloat::ieee::Single`'s `core::ops::Div` impl: the IEEE
/// 754 single-precision quotient.
#[verifier::external_body]
pub fn div(a: u32, b: u32) -> (r: u32)
    ensures
        r == f_div(a, b),
{
    (Single::from_bits(a as u128) / Single::from_bits(b as u128)).value.to_bits() as u32
}

/// Relies on `rustc_apfloat::ieee::Single`'s `PartialOrd` impl, which orders
/// by IEEE 754 ordered comparison (a NaN operand compares as unordered).
#[verifier::external_body]
pub fn lt(a: u32, b: u32) -> (r: bool)
    ensures
        r == f_lt(a, b),
{
    Single::from_bits(a as u128) < Single::from_bits(b as u128)
}

/// Relies on `rustc_apfloat::ieee::Single`'s `PartialEq` impl, which compares
/// by IEEE 754 ordered comparison (zeros of either sign are equal, a NaN
/// operand compares as unordered).
#[verifier::external_body]
pub fn eq(a: u32, b: u32) -> (r: bool)
    ensures
        r == f_eq(a, b),
{
    Single::from_bits(a as u128) == Single::from_bits(b as u128)
}

/// Relies on `libm::powf`: the result depends on the operand bits alone.
#[verifier::external_body]
pub fn powf(a: u32, b: u32) -> (r: u32)
    ensures
        r == f_powf(a, b),
{
    bytemuck::cast(libm::powf(bytemuck::cast(a), bytemuck::cast(b)))
}

/// Relies on `libm::logf`: the result depends on the operand bits alone.
#[verifier::external_body]
pub fn ln(a: u32) -> (r: u32)
    ensures
        r == f_ln(a),
{
    bytemuck::cast(libm::logf(bytemuck::cast(a)))
}

/// Relies on `libm::expf`: the result depends on the operand bits alone.
#[verifier::external_body]
pub fn exp(a: u32) -> (r: u32)
    ensures
        r == f_exp(a),
{
    bytemuck::cast(libm::expf(bytemuck::cast(a)))
}

/// Relies on `rustc_apfloat::Float::from_u128`: the nearest single-precision
/// value to the integer, as an `as` conversion computes it.
#[verifier::external_body]
pub fn of_u32(x: u32) -> (r: u32)
    ensures
        r == f_of_u32(x),
{
    Single::from_u128(x as u128).value.to_bits() as u32
}

/// The bits of the absolute value: the same bits with the sign bit cleared.
pub open spec fn f_abs(a: u32) -> u32 {
    a & 0x7fff_ffff
}

/// The absolute value of a single-precision number, computed directly on the
/// bits exactly as IEEE 754 defines it: the sign bit is cleared.
pub fn abs(a: u32) -> (r: u32)
    ensures
        r == f_abs(a),
{
    a & 0x7fff_ffff
}

} // verus!
