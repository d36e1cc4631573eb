//! Loss values, held as the bit pattern of a double-precision number and
//! compared as such numbers compare.

use vstd::prelude::*;

verus! {

/// The bit that carries the sign.
pub const SIGN_BIT: u64 = 0x8000_0000_0000_0000;

/// The bit pattern of positive infinity: every exponent bit set, no
/// fraction bit set.
pub const INFINITY_BITS: u64 = 0x7FF0_0000_0000_0000;

/// A loss in decibels: the bit pattern of an IEEE 754 binary64 number.
/// A smaller loss is a stronger signal.
#[derive(Clone, Copy, Debug, PartialEq, Eq, Structural)]
pub struct Decibels {
    pub bits: u64,
}

impl Decibels {
    /// The pattern without its sign bit.
    pub open spec fn magnitude(self) -> int {
        self.bits as int % 0x8000_0000_0000_0000
    }

    /// Whether the sign bit is set.
    pub open spec fn negative(self) -> bool {
        self.bits >= 0x8000_0000_0000_0000
    }

    /// Whether the pattern encodes no number at all.
    pub open spec fn nan(self) -> bool {
        self.magnitude() > 0x7FF0_0000_0000_0000
    }

    /// Whether the pattern encodes a number that is not infinite.
    pub open spec fn finite(self) -> bool {
        self.magnitude() < 0x7FF0_0000_0000_0000
    }

    /// The place of a number among all numbers: patterns of numbers compare
    /// as their ranks do. The two zeros share rank zero.
    pub open spec fn rank(self) -> int {
        if self.negative() {
            -self.magnitude()
        } else {
            self.magnitude()
        }
    }

    /// `self < other` as numbers: false whenever either is not a number.
    pub open spec fn lt(self, other: Decibels) -> bool {
        &&& !self.nan()
        &&& !other.nan()
        &&& self.rank() < other.rank()
    }

    /// The loss whose pattern is `bits`.
    pub fn from_bits(bits: u64) -> (out: Decibels)
        ensures
            out.bits == bits,
    {
        Decibels { bits }
    }

    /// The pattern of this loss.
    pub fn to_bits(&self) -> (bits: u64)
        ensures
            bits == self.bits,
    {
        self.bits
    }

    /// No loss at all: positive zero.
    pub fn zero() -> (out: Decibels)
        ensures
            out.bits == 0,
    {
        Decibels { bits: 0 }
    }

    /// Whether this loss is not a number.
    pub fn is_nan(&self) -> (out: bool)
        ensures
            out == self.nan(),
    {
        self.bits % SIGN_BIT > INFINITY_BITS
    }

    /// Whether this loss is a number and not infinite.
    pub fn is_finite(&self) -> (out: bool)
        ensures
            out == self.finite(),
    {
        self.bits % SIGN_BIT < INFINITY_BITS
    }

    /// The rank of this loss as a machine integer.
    fn signed_rank(&self) -> (out: i64)
        ensures
            out == self.rank(),
    {
        let magnitude: u64 = self.bits % SIGN_BIT;
        if self.bits >= SIGN_BIT {
            0 - (magnitude as i64)
        } else {
            magnitude as i64
        }
    }

    /// Whether this loss is strictly below `other`, as numbers compare.
    pub fn is_below(&self, other: &Decibels) -> (out: bool)
        ensures
            out == self.lt(*other),
    {
        !self.is_nan() && !other.is_nan() && self.signed_rank() < other.signed_rank()
    }
}

} // verus!
