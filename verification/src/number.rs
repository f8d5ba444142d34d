//! Numbers are IEEE-754 binary64 values, held as their bit patterns.
//!
//! Comparing two numbers needs nothing but the bits and is done here.
//! Arithmetic, and the conversions from and to text and integers, are the
//! host's work (see `host`).

use vstd::prelude::*;

verus! {

/// The sign bit of a binary64 value.
pub const SIGN_BIT: u64 = 0x8000_0000_0000_0000u64;

/// The bits of positive infinity: every larger magnitude is a NaN.
pub const INFINITY: u64 = 0x7ff0_0000_0000_0000u64;

/// The bits of `0.0`.
pub const ZERO: u64 = 0u64;

/// The bits of `1.0`.
pub const ONE: u64 = 0x3ff0_0000_0000_0000u64;

/// The bits without the sign.
pub open spec fn magnitude(bits: u64) -> int {
    if bits >= SIGN_BIT {
        bits - SIGN_BIT
    } else {
        bits as int
    }
}

/// Whether the bits are those of a NaN.
pub open spec fn is_nan(bits: u64) -> bool {
    magnitude(bits) > INFINITY
}

/// An integer that orders the numbers that are no NaN as their values are
/// ordered; both zeros get 0.
pub open spec fn order_key(bits: u64) -> int {
    if bits >= SIGN_BIT {
        -magnitude(bits)
    } else {
        magnitude(bits)
    }
}

/// `a == b` as binary64 values: a NaN equals nothing, the two zeros are
/// equal.
pub open spec fn same_number(a: u64, b: u64) -> bool {
    !is_nan(a) && !is_nan(b) && order_key(a) == order_key(b)
}

/// `a < b` as binary64 values: false where either is a NaN.
pub open spec fn smaller_number(a: u64, b: u64) -> bool {
    !is_nan(a) && !is_nan(b) && order_key(a) < order_key(b)
}

/// Truth of a number: everything but the two zeros, a NaN included.
pub open spec fn truthy_number(bits: u64) -> bool {
    !same_number(bits, ZERO)
}

fn split(bits: u64) -> (parts: (bool, u64))
    ensures
        parts.0 == (bits >= SIGN_BIT),
        parts.1 == magnitude(bits),
{
    if bits >= SIGN_BIT {
        (true, bits - SIGN_BIT)
    } else {
        (false, bits)
    }
}

pub fn number_is_nan(bits: u64) -> (nan: bool)
    ensures
        nan == is_nan(bits),
{
    let (_, size) = split(bits);
    size > INFINITY
}

pub fn numbers_equal(a: u64, b: u64) -> (equal: bool)
    ensures
        equal == same_number(a, b),
{
    if number_is_nan(a) || number_is_nan(b) {
        return false;
    }
    let (a_negative, a_size) = split(a);
    let (b_negative, b_size) = split(b);
    if a_negative == b_negative {
        a_size == b_size
    } else {
        a_size == 0 && b_size == 0
    }
}

pub fn number_less(a: u64, b: u64) -> (less: bool)
    ensures
        less == smaller_number(a, b),
{
    if number_is_nan(a) || number_is_nan(b) {
        return false;
    }
    let (a_negative, a_size) = split(a);
    let (b_negative, b_size) = split(b);
    if a_negative && b_negative {
        a_size > b_size
    } else if a_negative {
        a_size != 0 || b_size != 0
    } else if b_negative {
        false
    } else {
        a_size < b_size
    }
}

pub fn number_is_true(bits: u64) -> (truth: bool)
    ensures
        truth == truthy_number(bits),
{
    !numbers_equal(bits, ZERO)
}

/// Equality of numbers is symmetric.
pub proof fn same_number_symmetric(a: u64, b: u64)
    ensures
        same_number(a, b) == same_number(b, a),
{
}

/// Every number but a NaN equals itself.
pub proof fn same_number_reflexive(a: u64)
    requires
        !is_nan(a),
    ensures
        same_number(a, a),
{
}

} // verus!
