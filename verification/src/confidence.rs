//! Confidence values, held as IEEE 754 double-precision bit patterns.

use vstd::prelude::*;

verus! {

/// The bit pattern of one.
pub const FULL_CONFIDENCE_BITS: u64 = 0x3ff0_0000_0000_0000;

/// The bit pattern of zero.
pub const NO_CONFIDENCE_BITS: u64 = 0;

/// The sign bit.
pub const SIGN_BIT: u64 = 0x8000_0000_0000_0000;

/// The bit pattern of positive infinity.
pub const INFINITY_BITS: u64 = 0x7ff0_0000_0000_0000;

/// The place of a bit pattern in the order of the values. The patterns of one sign are
/// ordered as integers, and the two zeros share a place.
pub open spec fn rank(bits: u64) -> int {
    if bits < SIGN_BIT {
        bits as int
    } else {
        SIGN_BIT - bits
    }
}

/// A bit pattern that stands for a number; the patterns beyond the infinities stand for none.
pub open spec fn is_number(bits: u64) -> bool {
    -INFINITY_BITS <= rank(bits) <= INFINITY_BITS
}

/// The value of `a` is at least that of `b`. No order holds where either is not a number.
pub open spec fn is_at_least(a: u64, b: u64) -> bool {
    is_number(a) && is_number(b) && rank(a) >= rank(b)
}

/// The values of `a` and `b` are equal: the two zeros are, and what is not a number equals
/// nothing, not even itself.
pub open spec fn is_same_value(a: u64, b: u64) -> bool {
    is_number(a) && is_number(b) && rank(a) == rank(b)
}

/// Whether the values of `a` and `b` are equal.
pub fn same_value(a: u64, b: u64) -> (res: bool)
    ensures
        res == is_same_value(a, b),
{
    at_least(a, b) && at_least(b, a)
}

/// Whether the value of `a` is at least that of `b`.
pub fn at_least(a: u64, b: u64) -> (res: bool)
    ensures
        res == is_at_least(a, b),
{
    let a_negative = a >= SIGN_BIT;
    let b_negative = b >= SIGN_BIT;
    let a_size: u64 = if a_negative { a - SIGN_BIT } else { a };
    let b_size: u64 = if b_negative { b - SIGN_BIT } else { b };
    if a_size > INFINITY_BITS || b_size > INFINITY_BITS {
        false
    } else if a_negative {
        if b_negative { a_size <= b_size } else { a_size == 0 && b_size == 0 }
    } else {
        b_negative || a_size >= b_size
    }
}

} // verus!
