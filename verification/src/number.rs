//! Lox numbers: IEEE-754 doubles, kept as their 64 bits.
//!
//! What can be said of a double by looking at its bits is done here: order,
//! equality, negation. Arithmetic and the conversion from and to text are the
//! host's.
use vstd::prelude::*;

verus! {

/// The sign bit.
pub const SIGN: u64 = 0x8000_0000_0000_0000;

/// The bits of positive infinity: every larger magnitude is not a number.
pub const INFINITY: u64 = 0x7ff0_0000_0000_0000;

/// The bits of `bits` without the sign.
pub open spec fn magnitude(bits: u64) -> u64 {
    if bits >= SIGN {
        (bits - SIGN) as u64
    } else {
        bits
    }
}

/// Whether the double is not a number.
pub open spec fn is_nan(bits: u64) -> bool {
    magnitude(bits) > INFINITY
}

/// Where the double stands among the doubles that are numbers: doubles of
/// one sign are ordered as their magnitudes are, and both zeros stand at 0.
pub open spec fn rank(bits: u64) -> int {
    if bits >= SIGN {
        -(magnitude(bits) as int)
    } else {
        magnitude(bits) as int
    }
}

/// `a == b` on doubles: nothing equals what is not a number, and the two
/// zeros are equal.
pub open spec fn equal(a: u64, b: u64) -> bool {
    !is_nan(a) && !is_nan(b) && rank(a) == rank(b)
}

/// `a < b` on doubles: false where either is not a number.
pub open spec fn less(a: u64, b: u64) -> bool {
    !is_nan(a) && !is_nan(b) && rank(a) < rank(b)
}

/// `a <= b` on doubles: false where either is not a number.
pub open spec fn at_most(a: u64, b: u64) -> bool {
    !is_nan(a) && !is_nan(b) && rank(a) <= rank(b)
}

/// `-a` on doubles: the sign bit turned over.
pub open spec fn negated(bits: u64) -> u64 {
    if bits >= SIGN {
        (bits - SIGN) as u64
    } else {
        (bits + SIGN) as u64
    }
}

fn magnitude_of(bits: u64) -> (r: u64)
    ensures
        r == magnitude(bits),
{
    if bits >= SIGN {
        bits - SIGN
    } else {
        bits
    }
}

fn rank_of(bits: u64) -> (r: i128)
    ensures
        r == rank(bits),
{
    if bits >= SIGN {
        -((bits - SIGN) as i128)
    } else {
        bits as i128
    }
}

pub fn not_a_number(bits: u64) -> (r: bool)
    ensures
        r == is_nan(bits),
{
    magnitude_of(bits) > INFINITY
}

pub fn numbers_equal(a: u64, b: u64) -> (r: bool)
    ensures
        r == equal(a, b),
{
    !not_a_number(a) && !not_a_number(b) && rank_of(a) == rank_of(b)
}

pub fn number_less(a: u64, b: u64) -> (r: bool)
    ensures
        r == less(a, b),
{
    !not_a_number(a) && !not_a_number(b) && rank_of(a) < rank_of(b)
}

pub fn number_at_most(a: u64, b: u64) -> (r: bool)
    ensures
        r == at_most(a, b),
{
    !not_a_number(a) && !not_a_number(b) && rank_of(a) <= rank_of(b)
}

pub fn negate(bits: u64) -> (r: u64)
    ensures
        r == negated(bits),
{
    if bits >= SIGN {
        bits - SIGN
    } else {
        bits + SIGN
    }
}

} // verus!
