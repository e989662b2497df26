//! Activation functions and their derivatives.
//!
//! Each variant supplies a pure element-wise nonlinearity and the matching
//! derivative.  The derivative is always evaluated at the already-computed
//! forward output, as standard backpropagation formulates it, so each
//! variant's `deriv` takes the function's output value, not its input.
//!
//! The smooth variants are built from the crate's arithmetic primitives:
//! the exponential is approximated by `(1 + x/256)^256` after clamping the
//! argument to a range where the base stays positive, which keeps the whole
//! table a pure composition of binary32 operations.

use vstd::prelude::*;

use crate::arith::{add_bits, sub_bits, mul_bits, div_bits, add_f, sub_f, mul_f, div_f};
use crate::fbits::{f32_lt, f32_abs, f32_neg, f32_lt_bits, f32_abs_bits, f32_neg_bits, ZERO_BITS};

verus! {

/// Bit pattern of the value one.
pub const F_ONE: u32 = 0x3f80_0000;

/// Bit pattern of the value two.
pub const F_TWO: u32 = 0x4000_0000;

/// Bit pattern of the value 1/256.
pub const F_INV_256: u32 = 0x3b80_0000;

/// Bit pattern of the value 88: the upper clamp of the exponential's
/// argument, past which the true exponential overflows binary32 anyway.
pub const F_EXP_HI: u32 = 0x42b0_0000;

/// Bit pattern of the value -88: the lower clamp of the exponential's
/// argument, past which the true exponential underflows to zero anyway.
pub const F_EXP_LO: u32 = 0xc2b0_0000;

/// The element-wise nonlinearity applied by an activation layer.
#[derive(Debug, Clone, Copy, PartialEq, Eq, Structural)]
pub enum Activation {
    /// The identity function.
    Identity,
    /// The logistic sigmoid, one over one plus the exponential of the
    /// negated argument.
    Logistic,
    /// The hyperbolic tangent.
    Tanh,
    /// The rectified linear unit: the argument where positive, else zero.
    ReLU,
    /// The soft sign, the argument over one plus its absolute value.
    SoftSign,
}

/// The argument clamped to the range where the exponential approximation
/// is sound.
pub open spec fn exp_clamp(x: u32) -> u32 {
    if f32_lt(x, F_EXP_LO) {
        F_EXP_LO
    } else if f32_lt(F_EXP_HI, x) {
        F_EXP_HI
    } else {
        x
    }
}

/// The exponential approximation `(1 + x/256)^256`, computed by one
/// division-free scaling step and eight squarings, after clamping.
pub open spec fn exp_bits(x: u32) -> u32 {
    let c = exp_clamp(x);
    let t0 = add_bits(F_ONE, mul_bits(c, F_INV_256));
    let t1 = mul_bits(t0, t0);
    let t2 = mul_bits(t1, t1);
    let t3 = mul_bits(t2, t2);
    let t4 = mul_bits(t3, t3);
    let t5 = mul_bits(t4, t4);
    let t6 = mul_bits(t5, t5);
    let t7 = mul_bits(t6, t6);
    mul_bits(t7, t7)
}

/// What the variant's forward application returns for an input pattern.
pub open spec fn act_apply(a: Activation, x: u32) -> u32 {
    match a {
        Activation::Identity => x,
        Activation::Logistic => div_bits(F_ONE, add_bits(F_ONE, exp_bits(f32_neg(x)))),
        Activation::Tanh => {
            let e = exp_bits(mul_bits(F_TWO, x));
            div_bits(sub_bits(e, F_ONE), add_bits(e, F_ONE))
        },
        Activation::ReLU => if f32_lt(ZERO_BITS, x) {
            x
        } else {
            ZERO_BITS
        },
        Activation::SoftSign => div_bits(x, add_bits(F_ONE, f32_abs(x))),
    }
}

/// What the variant's derivative returns, evaluated at the forward
/// output `y`.
pub open spec fn act_deriv(a: Activation, y: u32) -> u32 {
    match a {
        Activation::Identity => F_ONE,
        Activation::Logistic => mul_bits(y, sub_bits(F_ONE, y)),
        Activation::Tanh => sub_bits(F_ONE, mul_bits(y, y)),
        Activation::ReLU => if f32_lt(ZERO_BITS, y) {
            F_ONE
        } else {
            ZERO_BITS
        },
        Activation::SoftSign => {
            let t = sub_bits(F_ONE, f32_abs(y));
            mul_bits(t, t)
        },
    }
}

/// Computes the exponential approximation.
fn exp_f(x: u32) -> (r: u32)
    ensures
        r == exp_bits(x),
{
    let c = if f32_lt_bits(x, F_EXP_LO) {
        F_EXP_LO
    } else if f32_lt_bits(F_EXP_HI, x) {
        F_EXP_HI
    } else {
        x
    };
    let mut t = add_f(F_ONE, mul_f(c, F_INV_256));
    t = mul_f(t, t);
    t = mul_f(t, t);
    t = mul_f(t, t);
    t = mul_f(t, t);
    t = mul_f(t, t);
    t = mul_f(t, t);
    t = mul_f(t, t);
    mul_f(t, t)
}

impl Activation {
    /// Applies the variant's nonlinearity to one pattern.
    pub fn apply(self, x: u32) -> (r: u32)
        ensures
            r == act_apply(self, x),
    {
        match self {
            Activation::Identity => x,
            Activation::Logistic => div_f(F_ONE, add_f(F_ONE, exp_f(f32_neg_bits(x)))),
            Activation::Tanh => {
                let e = exp_f(mul_f(F_TWO, x));
                div_f(sub_f(e, F_ONE), add_f(e, F_ONE))
            },
            Activation::ReLU => if f32_lt_bits(ZERO_BITS, x) {
                x
            } else {
                ZERO_BITS
            },
            Activation::SoftSign => div_f(x, add_f(F_ONE, f32_abs_bits(x))),
        }
    }

    /// The variant's derivative, evaluated at the forward output `y`.
    pub fn deriv(self, y: u32) -> (r: u32)
        ensures
            r == act_deriv(self, y),
    {
        match self {
            Activation::Identity => F_ONE,
            Activation::Logistic => mul_f(y, sub_f(F_ONE, y)),
            Activation::Tanh => sub_f(F_ONE, mul_f(y, y)),
            Activation::ReLU => if f32_lt_bits(ZERO_BITS, y) {
                F_ONE
            } else {
                ZERO_BITS
            },
            Activation::SoftSign => {
                let t = sub_f(F_ONE, f32_abs_bits(y));
                mul_f(t, t)
            },
        }
    }
}

} // verus!
