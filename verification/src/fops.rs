//! IEEE 754 binary32 arithmetic on `u32` bit patterns.
//!
//! Field values are carried as the bit patterns of binary32 numbers. The
//! arithmetic itself is done by the software floating-point crate
//! `rustc_apfloat`, which is a pure function of its operands: the same bit
//! patterns give the same result on every machine and in every process.
//! Each operation is named by an uninterpreted spec function, so every
//! kernel's contract pins its output as a mathematical function of its
//! inputs.

use vstd::prelude::*;
use rustc_apfloat::Float;
use rustc_apfloat::Round;
use rustc_apfloat::ieee::Single;

verus! {

/// Bit pattern of zero.
pub const F_ZERO: u32 = 0x0000_0000;

/// Bit pattern of one.
pub const F_ONE: u32 = 0x3f80_0000;

/// Bit pattern of one half.
pub const F_HALF: u32 = 0x3f00_0000;

/// Bit pattern of minus one half.
pub const F_NEG_HALF: u32 = 0xbf00_0000;

/// Bit pattern of four.
pub const F_FOUR: u32 = 0x4080_0000;

/// Bit pattern of three halves: the lower clamp bound of back-traced
/// advection positions.
pub const F_THREE_HALVES: u32 = 0x3fc0_0000;

/// Bit pattern of five halves: the traced position is clamped to the grid
/// side minus this bound.
pub const F_FIVE_HALVES: u32 = 0x4020_0000;

/// Bit pattern of the fixed diffusion-rate constant (five thousandths).
pub const DIFFUSION_RATE_BITS: u32 = 0x3ba3_d70a;

/// Bit pattern of the default time step (one thousandth).
pub const DEFAULT_DT_BITS: u32 = 0x3a83_126f;

/// Mask of the sign bit of a binary32 bit pattern.
pub const SIGN_BIT: u32 = 0x8000_0000;

/// Binary32 sum of two bit patterns, rounded to nearest even.
pub uninterp spec fn add_bits(a: u32, b: u32) -> u32;

/// Binary32 difference of two bit patterns, rounded to nearest even.
pub uninterp spec fn sub_bits(a: u32, b: u32) -> u32;

/// Binary32 product of two bit patterns, rounded to nearest even.
pub uninterp spec fn mul_bits(a: u32, b: u32) -> u32;

/// Binary32 quotient of two bit patterns, rounded to nearest even.
pub uninterp spec fn div_bits(a: u32, b: u32) -> u32;

/// Whether the binary32 number with bits `a` compares strictly below the
/// one with bits `b` (false whenever either is a NaN).
pub uninterp spec fn lt_bits(a: u32, b: u32) -> bool;

/// Bit pattern of the binary32 number nearest to the unsigned integer `x`.
pub uninterp spec fn float_of_u32(x: u32) -> u32;

/// The unsigned integer obtained from the binary32 number with bits `x` by
/// truncation toward zero, saturated to `u32` range (zero for a NaN).
pub uninterp spec fn u32_of_float(x: u32) -> u32;

/// Negation of a binary32 number: flipping the sign bit, exact for every
/// bit pattern. This is the one arithmetic operation done natively.
pub open spec fn neg_bits(v: u32) -> u32 {
    v ^ SIGN_BIT
}

/// Relies on rustc_apfloat::ieee::Single::add_r: binary32 addition,
/// round to nearest even, a pure function of the two bit patterns.
#[verifier::external_body]
pub(crate) fn f_add(a: u32, b: u32) -> (r: u32)
    ensures
        r == add_bits(a, b),
{
    let x = Single::from_bits(a as u128);
    let y = Single::from_bits(b as u128);
    x.add_r(y, Round::NearestTiesToEven).value.to_bits() as u32
}

/// Relies on rustc_apfloat::ieee::Single::sub_r: binary32 subtraction,
/// round to nearest even, a pure function of the two bit patterns.
#[verifier::external_body]
pub(crate) fn f_sub(a: u32, b: u32) -> (r: u32)
    ensures
        r == sub_bits(a, b),
{
    let x = Single::from_bits(a as u128);
    let y = Single::from_bits(b as u128);
    x.sub_r(y, Round::NearestTiesToEven).value.to_bits() as u32
}

/// Relies on rustc_apfloat::ieee::Single::mul_r: binary32 multiplication,
/// round to nearest even, a pure function of the two bit patterns.
#[verifier::external_body]
pub(crate) fn f_mul(a: u32, b: u32) -> (r: u32)
    ensures
        r == mul_bits(a, b),
{
    let x = Single::from_bits(a as u128);
    let y = Single::from_bits(b as u128);
    x.mul_r(y, Round::NearestTiesToEven).value.to_bits() as u32
}

/// Relies on rustc_apfloat::ieee::Single::div_r: binary32 division,
/// round to nearest even, a pure function of the two bit patterns.
#[verifier::external_body]
pub(crate) fn f_div(a: u32, b: u32) -> (r: u32)
    ensures
        r == div_bits(a, b),
{
    let x = Single::from_bits(a as u128);
    let y = Single::from_bits(b as u128);
    x.div_r(y, Round::NearestTiesToEven).value.to_bits() as u32
}

/// Relies on rustc_apfloat::ieee::Single's PartialOrd: the IEEE 754
/// comparison predicate, which no NaN satisfies on either side.
#[verifier::external_body]
pub(crate) fn f_lt(a: u32, b: u32) -> (r: bool)
    ensures
        r == lt_bits(a, b),
{
    let x = Single::from_bits(a as u128);
    let y = Single::from_bits(b as u128);
    matches!(x.partial_cmp(&y), Some(core::cmp::Ordering::Less))
}

/// Relies on rustc_apfloat::ieee::Single::from_u128_r: conversion of an
/// unsigned integer to the nearest binary32 number.
#[verifier::external_body]
pub(crate) fn f_of_u32(x: u32) -> (r: u32)
    ensures
        r == float_of_u32(x),
{
    Single::from_u128_r(x as u128, Round::NearestTiesToEven).value.to_bits() as u32
}

/// Relies on rustc_apfloat::ieee::Single::to_u128_r: conversion of a
/// binary32 number to an unsigned integer, truncating toward zero and
/// saturating at the width's range (a NaN converts to zero).
#[verifier::external_body]
pub(crate) fn f_to_u32(x: u32) -> (r: u32)
    ensures
        r == u32_of_float(x),
{
    let mut exact = false;
    Single::from_bits(x as u128).to_u128_r(32, Round::TowardZero, &mut exact).value as u32
}

} // verus!
