//! Bit-level model of IEEE-754 binary32 values.
//!
//! Throughout this crate a single-precision value is carried as its raw
//! 32-bit pattern (`u32`).  The predicates below state, directly over the
//! bit pattern, the classification and comparison rules of the format:
//! a value is a NaN when its exponent field is all ones and its fraction
//! field is non-zero, the two zeroes compare equal, and finite values
//! order by sign and magnitude.

use vstd::prelude::*;

verus! {

/// Bit pattern of the value one, the bias constant of signal buffers.
pub const BIAS_VALUE_SIGNAL: u32 = 0x3f80_0000;

/// Bit pattern of the value zero, the bias constant of error-signal buffers.
pub const BIAS_VALUE_ERROR_SIGNAL: u32 = 0x0000_0000;

/// Bit pattern of the value zero.
pub const ZERO_BITS: u32 = 0x0000_0000;

/// Mask of the sign bit.
pub const SIGN_MASK: u32 = 0x8000_0000;

/// Mask of the exponent and fraction fields (everything but the sign).
pub const MAG_MASK: u32 = 0x7fff_ffff;

/// Mask of the exponent field.
pub const EXP_MASK: u32 = 0x7f80_0000;

/// Mask of the fraction field.
pub const FRAC_MASK: u32 = 0x007f_ffff;

/// The pattern encodes a NaN: exponent all ones, fraction non-zero.
pub open spec fn f32_is_nan(a: u32) -> bool {
    (a & EXP_MASK) == EXP_MASK && (a & FRAC_MASK) != 0
}

/// The pattern encodes a zero (either sign).
pub open spec fn f32_is_zero(a: u32) -> bool {
    (a & MAG_MASK) == 0
}

/// Equality of the encoded values: NaN equals nothing, the two zeroes
/// are equal, and every other value has a unique encoding.
pub open spec fn f32_eq(a: u32, b: u32) -> bool {
    if f32_is_nan(a) || f32_is_nan(b) {
        false
    } else if f32_is_zero(a) && f32_is_zero(b) {
        true
    } else {
        a == b
    }
}

/// Strict order of the encoded values: false when either is a NaN,
/// otherwise by sign and then by magnitude.
pub open spec fn f32_lt(a: u32, b: u32) -> bool {
    if f32_is_nan(a) || f32_is_nan(b) {
        false
    } else if f32_is_zero(a) && f32_is_zero(b) {
        false
    } else if (a & SIGN_MASK) != (b & SIGN_MASK) {
        (a & SIGN_MASK) != 0
    } else if (a & SIGN_MASK) == 0 {
        (a & MAG_MASK) < (b & MAG_MASK)
    } else {
        (b & MAG_MASK) < (a & MAG_MASK)
    }
}

/// The pattern with the sign bit cleared: the absolute value.
pub open spec fn f32_abs(a: u32) -> u32 {
    a & MAG_MASK
}

/// The pattern with the sign bit flipped: the negated value.
pub open spec fn f32_neg(a: u32) -> u32 {
    a ^ SIGN_MASK
}

/// The two bias constants compare equal to themselves under binary32
/// equality: one is a finite non-zero value, zero is a zero value, and
/// neither is a NaN.
pub proof fn lemma_bias_constants()
    ensures
        !f32_is_nan(BIAS_VALUE_SIGNAL),
        !f32_is_zero(BIAS_VALUE_SIGNAL),
        !f32_is_nan(BIAS_VALUE_ERROR_SIGNAL),
        f32_is_zero(BIAS_VALUE_ERROR_SIGNAL),
        f32_eq(BIAS_VALUE_SIGNAL, BIAS_VALUE_SIGNAL),
        f32_eq(BIAS_VALUE_ERROR_SIGNAL, BIAS_VALUE_ERROR_SIGNAL),
        f32_eq(ZERO_BITS, BIAS_VALUE_ERROR_SIGNAL),
{
    assert((0x3f80_0000u32 & 0x7f80_0000u32) != 0x7f80_0000u32) by (bit_vector);
    assert((0x3f80_0000u32 & 0x7fff_ffffu32) != 0u32) by (bit_vector);
    assert((0u32 & 0x7f80_0000u32) != 0x7f80_0000u32) by (bit_vector);
    assert((0u32 & 0x7fff_ffffu32) == 0u32) by (bit_vector);
}

/// Decides equality of two encoded values.
pub fn f32_eq_bits(a: u32, b: u32) -> (r: bool)
    ensures
        r == f32_eq(a, b),
{
    let a_nan = (a & EXP_MASK) == EXP_MASK && (a & FRAC_MASK) != 0;
    let b_nan = (b & EXP_MASK) == EXP_MASK && (b & FRAC_MASK) != 0;
    if a_nan || b_nan {
        false
    } else if (a & MAG_MASK) == 0 && (b & MAG_MASK) == 0 {
        true
    } else {
        a == b
    }
}

/// Decides the strict order of two encoded values.
pub fn f32_lt_bits(a: u32, b: u32) -> (r: bool)
    ensures
        r == f32_lt(a, b),
{
    let a_nan = (a & EXP_MASK) == EXP_MASK && (a & FRAC_MASK) != 0;
    let b_nan = (b & EXP_MASK) == EXP_MASK && (b & FRAC_MASK) != 0;
    if a_nan || b_nan {
        false
    } else if (a & MAG_MASK) == 0 && (b & MAG_MASK) == 0 {
        false
    } else if (a & SIGN_MASK) != (b & SIGN_MASK) {
        (a & SIGN_MASK) != 0
    } else if (a & SIGN_MASK) == 0 {
        (a & MAG_MASK) < (b & MAG_MASK)
    } else {
        (b & MAG_MASK) < (a & MAG_MASK)
    }
}

/// Clears the sign bit: the absolute value of the encoded value.
pub fn f32_abs_bits(a: u32) -> (r: u32)
    ensures
        r == f32_abs(a),
{
    a & MAG_MASK
}

/// Flips the sign bit: the negated encoded value.
pub fn f32_neg_bits(a: u32) -> (r: u32)
    ensures
        r == f32_neg(a),
{
    a ^ SIGN_MASK
}

} // verus!
