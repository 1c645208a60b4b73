//! Scalars of the network, held as IEEE-754 binary32 bit patterns.
//!
//! Every weight, bias, input and output of the network is a 32-bit float,
//! carried here as its bit pattern in a `u32`. The comparison and
//! NaN predicates are written out exactly over the bit pattern; the two
//! rounding operations (addition and multiplication) are named by
//! uninterpreted functions and computed by the software float library,
//! so that every contract over them is exact.

use rustc_apfloat::Float;
use vstd::prelude::*;

verus! {

/// Bit pattern of positive zero, the additive identity of the fold
/// and the floor of the rectified activation.
pub const POS_ZERO: u32 = 0;

/// Sign bit of a binary32 bit pattern.
pub open spec fn f32_sign(x: u32) -> bool {
    x >= 0x8000_0000
}

/// Magnitude (everything but the sign bit) of a binary32 bit pattern.
pub open spec fn f32_mag(x: u32) -> u32 {
    (x % 0x8000_0000) as u32
}

/// A binary32 bit pattern is a NaN exactly when its magnitude lies above
/// the magnitude of infinity (exponent all ones, significand non-zero).
pub open spec fn f32_is_nan(x: u32) -> bool {
    f32_mag(x) > 0x7F80_0000
}

/// The IEEE-754 `<` relation on binary32 bit patterns: false whenever an
/// operand is NaN, the two zeros compare equal, and otherwise values of
/// one sign are ordered by their magnitude bits.
pub open spec fn f32_lt(a: u32, b: u32) -> bool {
    if f32_is_nan(a) || f32_is_nan(b) {
        false
    } else if f32_sign(a) != f32_sign(b) {
        f32_sign(a) && !(f32_mag(a) == 0 && f32_mag(b) == 0)
    } else if !f32_sign(a) {
        f32_mag(a) < f32_mag(b)
    } else {
        f32_mag(b) < f32_mag(a)
    }
}

/// The binary32 sum of two bit patterns, rounded to nearest, ties to even.
pub uninterp spec fn f32_add(a: u32, b: u32) -> u32;

/// The binary32 product of two bit patterns, rounded to nearest, ties to even.
pub uninterp spec fn f32_mul(a: u32, b: u32) -> u32;

/// Relies on `rustc_apfloat::ieee::Single`'s `Add` (round to nearest,
/// ties to even) to compute the binary32 sum of two bit patterns.
#[verifier::external_body]
pub(crate) fn add_bits(a: u32, b: u32) -> (r: u32)
    ensures
        r == f32_add(a, b),
{
    let x = rustc_apfloat::ieee::Single::from_bits(a as u128);
    let y = rustc_apfloat::ieee::Single::from_bits(b as u128);
    ((x + y).value.to_bits()) as u32
}

/// Relies on `rustc_apfloat::ieee::Single`'s `Mul` (round to nearest,
/// ties to even) to compute the binary32 product of two bit patterns.
#[verifier::external_body]
pub(crate) fn mul_bits(a: u32, b: u32) -> (r: u32)
    ensures
        r == f32_mul(a, b),
{
    let x = rustc_apfloat::ieee::Single::from_bits(a as u128);
    let y = rustc_apfloat::ieee::Single::from_bits(b as u128);
    ((x * y).value.to_bits()) as u32
}

/// Relies on `rustc_apfloat::ieee::Single`'s `PartialOrd`, which orders
/// bit patterns as IEEE-754 `<` does: NaN is unordered, the two zeros are
/// equal, and other values are ordered by sign and magnitude.
#[verifier::external_body]
pub(crate) fn lt_bits(a: u32, b: u32) -> (r: bool)
    ensures
        r == f32_lt(a, b),
{
    let x = rustc_apfloat::ieee::Single::from_bits(a as u128);
    let y = rustc_apfloat::ieee::Single::from_bits(b as u128);
    match x.partial_cmp(&y) {
        Some(core::cmp::Ordering::Less) => true,
        _ => false,
    }
}

/// Relies on `rustc_apfloat::Float::is_nan`, which holds exactly of the
/// bit patterns whose exponent is all ones and whose significand is not zero.
#[verifier::external_body]
pub(crate) fn is_nan_bits(a: u32) -> (r: bool)
    ensures
        r == f32_is_nan(a),
{
    rustc_apfloat::ieee::Single::from_bits(a as u128).is_nan()
}

/// The rectified activation over bit patterns: positive zero when the
/// argument is NaN or below positive zero, the argument itself otherwise.
pub open spec fn relu(s: u32) -> u32 {
    if f32_is_nan(s) || f32_lt(s, POS_ZERO) {
        POS_ZERO
    } else {
        s
    }
}

/// Applies the rectified activation to a bit pattern.
pub(crate) fn relu_bits(s: u32) -> (r: u32)
    ensures
        r == relu(s),
{
    if is_nan_bits(s) || lt_bits(s, POS_ZERO) {
        POS_ZERO
    } else {
        s
    }
}

/// The rectified activation never yields NaN and never yields a value
/// below positive zero.
pub proof fn lemma_relu_floor(s: u32)
    ensures
        !f32_is_nan(relu(s)),
        !f32_lt(relu(s), POS_ZERO),
{
}

} // verus!
