use vstd::prelude::*;

verus! {

// Floating-point values travel through the machine as their IEEE-754
// binary64 bit patterns, so that every part of the engine except the
// arithmetic itself is verified. The arithmetic is performed by the
// software float implementation in rustc_apfloat, which computes a result
// that depends on the operand bits alone; each operation's result is
// therefore given a name that the engine's contracts speak of.

/// The IEEE-754 binary64 sum of the two operands, rounding to nearest even.
pub uninterp spec fn float_add(a: u64, b: u64) -> u64;

/// The IEEE-754 binary64 difference of the two operands, rounding to nearest even.
pub uninterp spec fn float_sub(a: u64, b: u64) -> u64;

/// The IEEE-754 binary64 product of the two operands, rounding to nearest even.
pub uninterp spec fn float_mul(a: u64, b: u64) -> u64;

/// The IEEE-754 binary64 quotient of the two operands, rounding to nearest even.
pub uninterp spec fn float_div(a: u64, b: u64) -> u64;

/// The IEEE-754 binary64 value nearest to the given integer.
pub uninterp spec fn float_of_int(i: i64) -> u64;

/// The decimal rendering of the float with the given bit pattern.
pub uninterp spec fn float_text(bits: u64) -> Seq<char>;

/// Relies on rustc_apfloat::ieee::Double: addition of two binary64 values
/// (`add_r` with round-to-nearest-even), on bit patterns alone.
#[verifier::external_body]
pub fn add_bits(a: u64, b: u64) -> (r: u64)
    ensures
        r == float_add(a, b),
{
    let x = <rustc_apfloat::ieee::Double as rustc_apfloat::Float>::from_bits(a as u128);
    let y = <rustc_apfloat::ieee::Double as rustc_apfloat::Float>::from_bits(b as u128);
    rustc_apfloat::Float::to_bits((x + y).value) as u64
}

/// Relies on rustc_apfloat::ieee::Double: subtraction of two binary64 values
/// (`sub_r` with round-to-nearest-even), on bit patterns alone.
#[verifier::external_body]
pub fn sub_bits(a: u64, b: u64) -> (r: u64)
    ensures
        r == float_sub(a, b),
{
    let x = <rustc_apfloat::ieee::Double as rustc_apfloat::Float>::from_bits(a as u128);
    let y = <rustc_apfloat::ieee::Double as rustc_apfloat::Float>::from_bits(b as u128);
    rustc_apfloat::Float::to_bits((x - y).value) as u64
}

/// Relies on rustc_apfloat::ieee::Double: multiplication of two binary64
/// values (`mul_r` with round-to-nearest-even), on bit patterns alone.
#[verifier::external_body]
pub fn mul_bits(a: u64, b: u64) -> (r: u64)
    ensures
        r == float_mul(a, b),
{
    let x = <rustc_apfloat::ieee::Double as rustc_apfloat::Float>::from_bits(a as u128);
    let y = <rustc_apfloat::ieee::Double as rustc_apfloat::Float>::from_bits(b as u128);
    rustc_apfloat::Float::to_bits((x * y).value) as u64
}

/// Relies on rustc_apfloat::ieee::Double: division of two binary64 values
/// (`div_r` with round-to-nearest-even), on bit patterns alone.
#[verifier::external_body]
pub fn div_bits(a: u64, b: u64) -> (r: u64)
    ensures
        r == float_div(a, b),
{
    let x = <rustc_apfloat::ieee::Double as rustc_apfloat::Float>::from_bits(a as u128);
    let y = <rustc_apfloat::ieee::Double as rustc_apfloat::Float>::from_bits(b as u128);
    rustc_apfloat::Float::to_bits((x / y).value) as u64
}

/// Relies on rustc_apfloat::Float::from_i128: conversion of a signed
/// integer to the nearest binary64 value (round-to-nearest-even).
#[verifier::external_body]
pub fn int_to_bits(i: i64) -> (r: u64)
    ensures
        r == float_of_int(i),
{
    let x = <rustc_apfloat::ieee::Double as rustc_apfloat::Float>::from_i128(i as i128).value;
    rustc_apfloat::Float::to_bits(x) as u64
}

/// Relies on rustc_apfloat's Display for IeeeFloat: a decimal rendering of
/// the value, computed from the bit pattern alone.
#[verifier::external_body]
pub fn render_bits(bits: u64) -> (r: String)
    ensures
        r@ == float_text(bits),
{
    let x = <rustc_apfloat::ieee::Double as rustc_apfloat::Float>::from_bits(bits as u128);
    format!("{}", x)
}

} // verus!
