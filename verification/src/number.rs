//! Numbers of the language: IEEE-754 single-precision values, held by their
//! bit pattern. The verified core never computes with them; it only stores,
//! moves and compares them. Arithmetic is the host's business.

use vstd::prelude::*;

verus! {

/// Mask that clears the sign bit of a single-precision bit pattern.
pub const MAGNITUDE_MASK: u32 = 0x7fff_ffff;

/// Magnitude bits of an infinity: all exponent bits set, fraction zero.
pub const INFINITY_BITS: u32 = 0x7f80_0000;

/// Whether `bits` encodes a NaN: exponent all ones and a non-zero fraction.
pub open spec fn is_nan_bits(bits: u32) -> bool {
    (bits & MAGNITUDE_MASK) > INFINITY_BITS
}

/// Whether `bits` encodes positive or negative zero.
pub open spec fn is_zero_bits(bits: u32) -> bool {
    (bits & MAGNITUDE_MASK) == 0
}

/// Numeric equality of two single-precision bit patterns: a NaN equals
/// nothing, the two zeros equal each other, and every other value equals
/// exactly itself.
pub open spec fn same_number(a: u32, b: u32) -> bool {
    &&& !is_nan_bits(a)
    &&& !is_nan_bits(b)
    &&& (a == b || (is_zero_bits(a) && is_zero_bits(b)))
}

/// A single-precision number, stored as its IEEE-754 bit pattern.
#[derive(Clone, Copy, Debug)]
pub struct Number {
    pub bits: u32,
}

impl View for Number {
    type V = u32;

    open spec fn view(&self) -> u32 {
        self.bits
    }
}

impl Number {
    /// The number whose bit pattern is `bits`.
    pub fn from_bits(bits: u32) -> (n: Number)
        ensures
            n@ == bits,
    {
        Number { bits }
    }

    /// The bit pattern of this number.
    pub fn to_bits(&self) -> (bits: u32)
        ensures
            bits == self@,
    {
        self.bits
    }

    /// Whether this number is a NaN.
    pub fn is_nan(&self) -> (r: bool)
        ensures
            r == is_nan_bits(self@),
    {
        (self.bits & MAGNITUDE_MASK) > INFINITY_BITS
    }

    /// Whether this number is one of the two zeros.
    pub fn is_zero(&self) -> (r: bool)
        ensures
            r == is_zero_bits(self@),
    {
        (self.bits & MAGNITUDE_MASK) == 0
    }

    /// Numeric comparison by value.
    pub fn same_value(&self, other: &Number) -> (r: bool)
        ensures
            r == same_number(self@, other@),
    {
        !self.is_nan() && !other.is_nan() && (self.bits == other.bits || (self.is_zero()
            && other.is_zero()))
    }
}

} // verus!
