//! Normalized gains, held as the bit pattern of an IEEE 754 double.
use vstd::prelude::*;

verus! {

/// A gain in binary64 form: one sign bit, eleven exponent bits, 52 fraction bits.
#[derive(Clone, Copy, Debug, PartialEq, Eq, Structural)]
pub struct Gain {
    pub bits: u64,
}

/// The pattern of 0.0.
pub const ZERO_BITS: u64 = 0;

/// The pattern of 0.4.
pub const TWO_FIFTHS_BITS: u64 = 0x3fd9_9999_9999_999a;

/// The pattern of 0.7.
pub const SEVEN_TENTHS_BITS: u64 = 0x3fe6_6666_6666_6666;

/// The pattern of 1.0.
pub const ONE_BITS: u64 = 0x3ff0_0000_0000_0000;

/// The bits below the sign bit: exponent and fraction.
pub open spec fn magnitude_bits(bits: u64) -> int {
    bits as int % 0x8000_0000_0000_0000
}

impl Gain {
    /// Neither an infinity nor a NaN: the exponent bits are not all ones.
    pub open spec fn finite(self) -> bool {
        magnitude_bits(self.bits) < 0x7ff0_0000_0000_0000
    }

    /// A number whose order is the numeric order of finite gains: the magnitude
    /// bits grow with the absolute value, and both zeros map to zero.
    pub open spec fn rank(self) -> int {
        if self.bits < 0x8000_0000_0000_0000 {
            magnitude_bits(self.bits)
        } else {
            -magnitude_bits(self.bits)
        }
    }

    /// Numeric order on finite gains; never true of a NaN.
    pub open spec fn below(self, other: Gain) -> bool {
        !self.nan() && !other.nan() && self.rank() < other.rank()
    }

    /// Not a number.
    pub open spec fn nan(self) -> bool {
        magnitude_bits(self.bits) > 0x7ff0_0000_0000_0000
    }

    fn magnitude(self) -> (magnitude: u64)
        ensures
            magnitude == magnitude_bits(self.bits),
    {
        self.bits % 0x8000_0000_0000_0000
    }

    pub fn is_finite(self) -> (finite: bool)
        ensures
            finite == self.finite(),
    {
        self.magnitude() < 0x7ff0_0000_0000_0000
    }

    pub fn is_nan(self) -> (nan: bool)
        ensures
            nan == self.nan(),
    {
        self.magnitude() > 0x7ff0_0000_0000_0000
    }

    /// `self < other` on the numbers that the two patterns encode.
    pub fn is_below(self, other: Gain) -> (below: bool)
        ensures
            below == self.below(other),
    {
        if self.is_nan() || other.is_nan() {
            return false;
        }
        let left: i128 = if self.bits < 0x8000_0000_0000_0000 {
            self.magnitude() as i128
        } else {
            -(self.magnitude() as i128)
        };
        let right: i128 = if other.bits < 0x8000_0000_0000_0000 {
            other.magnitude() as i128
        } else {
            -(other.magnitude() as i128)
        };
        left < right
    }

    /// A finite gain that is at least `minimum` and at most `maximum`.
    pub open spec fn within(self, minimum: Gain, maximum: Gain) -> bool {
        self.finite() && !self.below(minimum) && !maximum.below(self)
    }

    pub fn is_within(self, minimum: Gain, maximum: Gain) -> (within: bool)
        ensures
            within == self.within(minimum, maximum),
    {
        self.is_finite() && !self.is_below(minimum) && !maximum.is_below(self)
    }
}

} // verus!
