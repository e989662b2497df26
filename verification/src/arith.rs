//! Single-precision arithmetic over raw bit patterns.
//!
//! The crate carries every single-precision value as its 32-bit pattern.
//! The four rounding operations of the format, and the conversion from an
//! integer, are performed by `rustc_apfloat`'s software implementation of
//! IEEE-754 binary32 with round-to-nearest-ties-to-even.  Each result is a
//! function of the argument patterns alone; the names below stand for those
//! results, and every contract of this crate that speaks of an arithmetic
//! result speaks of these names.

use vstd::prelude::*;
use rustc_apfloat::Float;

verus! {

/// The binary32 sum of the values encoded by `a` and `b`.
pub uninterp spec fn add_bits(a: u32, b: u32) -> u32;

/// The binary32 difference of the values encoded by `a` and `b`.
pub uninterp spec fn sub_bits(a: u32, b: u32) -> u32;

/// The binary32 product of the values encoded by `a` and `b`.
pub uninterp spec fn mul_bits(a: u32, b: u32) -> u32;

/// The binary32 quotient of the values encoded by `a` and `b`.
pub uninterp spec fn div_bits(a: u32, b: u32) -> u32;

/// The binary32 value nearest to the integer `n`.
pub uninterp spec fn u64_to_f32_bits(n: u64) -> u32;

/// Relies on `rustc_apfloat::ieee::Single::add_r`: the rounded binary32
/// sum, a function of the two operand patterns alone.
#[verifier::external_body]
pub(crate) fn add_f(a: u32, b: u32) -> (r: u32)
    ensures
        r == add_bits(a, b),
{
    let x = rustc_apfloat::ieee::Single::from_bits(a as u128);
    let y = rustc_apfloat::ieee::Single::from_bits(b as u128);
    x.add_r(y, rustc_apfloat::Round::NearestTiesToEven).value.to_bits() as u32
}

/// Relies on `rustc_apfloat::ieee::Single::sub_r`: the rounded binary32
/// difference, a function of the two operand patterns alone.
#[verifier::external_body]
pub(crate) fn sub_f(a: u32, b: u32) -> (r: u32)
    ensures
        r == sub_bits(a, b),
{
    let x = rustc_apfloat::ieee::Single::from_bits(a as u128);
    let y = rustc_apfloat::ieee::Single::from_bits(b as u128);
    x.sub_r(y, rustc_apfloat::Round::NearestTiesToEven).value.to_bits() as u32
}

/// Relies on `rustc_apfloat::ieee::Single::mul_r`: the rounded binary32
/// product, a function of the two operand patterns alone.
#[verifier::external_body]
pub(crate) fn mul_f(a: u32, b: u32) -> (r: u32)
    ensures
        r == mul_bits(a, b),
{
    let x = rustc_apfloat::ieee::Single::from_bits(a as u128);
    let y = rustc_apfloat::ieee::Single::from_bits(b as u128);
    x.mul_r(y, rustc_apfloat::Round::NearestTiesToEven).value.to_bits() as u32
}

/// Relies on `rustc_apfloat::ieee::Single::div_r`: the rounded binary32
/// quotient, a function of the two operand patterns alone.
#[verifier::external_body]
pub(crate) fn div_f(a: u32, b: u32) -> (r: u32)
    ensures
        r == div_bits(a, b),
{
    let x = rustc_apfloat::ieee::Single::from_bits(a as u128);
    let y = rustc_apfloat::ieee::Single::from_bits(b as u128);
    x.div_r(y, rustc_apfloat::Round::NearestTiesToEven).value.to_bits() as u32
}

/// Relies on `rustc_apfloat::ieee::Single::from_u128_r`: the binary32
/// value nearest to the given integer, a function of that integer alone.
#[verifier::external_body]
pub(crate) fn u64_to_f(n: u64) -> (r: u32)
    ensures
        r == u64_to_f32_bits(n),
{
    rustc_apfloat::ieee::Single::from_u128_r(n as u128, rustc_apfloat::Round::NearestTiesToEven)
        .value
        .to_bits() as u32
}

} // verus!
