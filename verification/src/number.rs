//! Binary64 numbers, held by their encoding, and their order.
//!
//! A number is kept as the 64 bits of its IEEE 754 binary64 encoding together with the
//! text it is shown as. The order of two numbers is stated over the values that the
//! encodings stand for, counted in units of 2^-1074, and decided on the bits alone.

use vstd::arithmetic::power2::{
    lemma2_to64, lemma_pow2_pos, lemma_pow2_strictly_increases, lemma_pow2_unfold, pow2,
};
use vstd::prelude::*;

verus! {

/// The bit that holds the sign.
pub const SIGN: u64 = 0x8000_0000_0000_0000;

/// The encoding of positive infinity: the largest magnitude that is a number.
pub const INFINITE: u64 = 0x7FF0_0000_0000_0000;

/// Two to the power of 52: the weight of the exponent in an encoding.
pub const UNIT: u64 = 0x0010_0000_0000_0000;

/// A number as read from a field.
#[derive(Debug)]
pub struct Number {
    /// The binary64 encoding of the number.
    pub bits: u64,
    /// The number as it is shown in a message.
    pub text: String,
}

/// What a `Number` stands for.
pub struct NumberView {
    pub bits: u64,
    pub text: Seq<char>,
}

impl View for Number {
    type V = NumberView;

    open spec fn view(&self) -> NumberView {
        NumberView { bits: self.bits, text: self.text@ }
    }
}

impl DeepView for Number {
    type V = NumberView;

    open spec fn deep_view(&self) -> NumberView {
        self@
    }
}

/// The encoding without its sign.
pub open spec fn magnitude(bits: u64) -> nat {
    if bits >= SIGN {
        (bits - SIGN) as nat
    } else {
        bits as nat
    }
}

/// Whether the sign is set.
pub open spec fn is_negative(bits: u64) -> bool {
    bits >= SIGN
}

/// Whether the encoding stands for no number at all.
pub open spec fn is_nan(bits: u64) -> bool {
    magnitude(bits) > INFINITE
}

/// The size that a magnitude stands for, in units of 2^-1074. The magnitude of the
/// infinities stands above that of every finite number.
pub open spec fn size_of(magnitude: nat) -> nat {
    let exponent = magnitude / (UNIT as nat);
    let fraction = magnitude % (UNIT as nat);
    if exponent == 0 {
        fraction
    } else {
        ((UNIT + fraction) * pow2((exponent - 1) as nat)) as nat
    }
}

/// The value that an encoding stands for, in units of 2^-1074.
pub open spec fn value_of(bits: u64) -> int {
    if is_negative(bits) {
        -(size_of(magnitude(bits)) as int)
    } else {
        size_of(magnitude(bits)) as int
    }
}

/// Whether `a` is a number below the number `b`.
pub open spec fn is_below(a: u64, b: u64) -> bool {
    !is_nan(a) && !is_nan(b) && value_of(a) < value_of(b)
}

/// A larger magnitude stands for a larger size.
pub proof fn lemma_size_increases(m1: nat, m2: nat)
    requires
        m1 < m2,
    ensures
        size_of(m1) < size_of(m2),
{
    let unit = UNIT as nat;
    let e1 = m1 / unit;
    let f1 = m1 % unit;
    let e2 = m2 / unit;
    let f2 = m2 % unit;
    assert(m1 == unit * e1 + f1 && m2 == unit * e2 + f2) by (nonlinear_arith)
        requires
            unit > 0,
            e1 == m1 / unit,
            f1 == m1 % unit,
            e2 == m2 / unit,
            f2 == m2 % unit,
    ;
    assert(e1 < e2 || (e1 == e2 && f1 < f2)) by (nonlinear_arith)
        requires
            m1 < m2,
            unit > 0,
            m1 == unit * e1 + f1,
            m2 == unit * e2 + f2,
            f1 < unit,
            f2 < unit,
    ;
    if e1 == e2 {
        if e1 > 0 {
            let p = pow2((e1 - 1) as nat);
            lemma_pow2_pos((e1 - 1) as nat);
            assert((unit + f1) * p < (unit + f2) * p) by (nonlinear_arith)
                requires
                    f1 < f2,
                    p > 0,
            ;
        }
    } else {
        let low = pow2(e1);
        let high = pow2((e2 - 1) as nat);
        lemma_pow2_pos(e1);
        if e1 < e2 - 1 {
            lemma_pow2_strictly_increases(e1, (e2 - 1) as nat);
        }
        assert(size_of(m1) < unit * low) by {
            if e1 == 0 {
                lemma2_to64();
            } else {
                let p = pow2((e1 - 1) as nat);
                lemma_pow2_pos((e1 - 1) as nat);
                lemma_pow2_unfold(e1);
                assert((unit + f1) * p < unit * (2 * p)) by (nonlinear_arith)
                    requires
                        f1 < unit,
                        p > 0,
                ;
            }
        }
        assert(unit * low <= (unit + f2) * high) by (nonlinear_arith)
            requires
                low <= high,
                unit > 0,
                f2 >= 0,
        ;
    }
}

/// Only the magnitude zero stands for the size zero.
pub proof fn lemma_size_zero(m: nat)
    ensures
        size_of(m) == 0 <==> m == 0,
{
    if m > 0 {
        lemma_size_increases(0, m);
    }
}

/// Whether `a` is a number below the number `b`.
pub fn below(a: u64, b: u64) -> (r: bool)
    ensures
        r == is_below(a, b),
{
    let a_negative = a >= SIGN;
    let b_negative = b >= SIGN;
    let a_magnitude: u64 = if a_negative { a - SIGN } else { a };
    let b_magnitude: u64 = if b_negative { b - SIGN } else { b };
    if a_magnitude > INFINITE || b_magnitude > INFINITE {
        return false;
    }
    proof {
        lemma_size_zero(a_magnitude as nat);
        lemma_size_zero(b_magnitude as nat);
        if a_magnitude < b_magnitude {
            lemma_size_increases(a_magnitude as nat, b_magnitude as nat);
        }
        if b_magnitude < a_magnitude {
            lemma_size_increases(b_magnitude as nat, a_magnitude as nat);
        }
    }
    if a_negative {
        if b_negative {
            a_magnitude > b_magnitude
        } else {
            a_magnitude > 0 || b_magnitude > 0
        }
    } else {
        !b_negative && a_magnitude < b_magnitude
    }
}

} // verus!
