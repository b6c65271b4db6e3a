//! Double-precision numbers as bit patterns.
//!
//! A number is carried as the 64 bits of its IEEE 754 binary64 encoding: one
//! sign bit, eleven exponent bits, fifty-two fraction bits. What can be read
//! off the encoding is decided here: the sign, whether the value is a NaN,
//! negation, and the comparisons. Arithmetic is left to whoever holds a
//! floating-point unit.

use vstd::prelude::*;

verus! {

/// The sign bit of the encoding.
pub const SIGN_BIT: u64 = 0x8000_0000_0000_0000;

/// The encoding of positive infinity; every larger magnitude is a NaN.
pub const INFINITY_BITS: u64 = 0x7ff0_0000_0000_0000;

/// A double-precision number, held by its encoding.
#[derive(Clone, Copy, Debug)]
pub struct Float {
    pub bits: u64,
}

impl Float {
    /// Whether the sign bit is set.
    pub open spec fn is_negative(self) -> bool {
        self.bits >= SIGN_BIT
    }

    /// The encoding without its sign bit.
    pub open spec fn magnitude(self) -> u64 {
        if self.bits >= SIGN_BIT {
            (self.bits - SIGN_BIT) as u64
        } else {
            self.bits
        }
    }

    /// Whether the encoding is that of a NaN.
    pub open spec fn is_nan(self) -> bool {
        self.magnitude() > INFINITY_BITS
    }

    /// The place of a number that is no NaN in the order of the numbers: the
    /// encodings of the numbers of one sign are ordered as their absolute
    /// values are, and both zeros are at 0.
    pub open spec fn rank(self) -> int {
        if self.is_negative() {
            -(self.magnitude() as int)
        } else {
            self.magnitude() as int
        }
    }

    /// The same number with the sign bit flipped.
    pub open spec fn negated(self) -> Float {
        if self.bits >= SIGN_BIT {
            Float { bits: (self.bits - SIGN_BIT) as u64 }
        } else {
            Float { bits: (self.bits + SIGN_BIT) as u64 }
        }
    }

    /// Numeric equality: a NaN equals nothing, the two zeros are equal.
    pub open spec fn equals(self, other: Float) -> bool {
        !self.is_nan() && !other.is_nan() && self.rank() == other.rank()
    }

    /// Numeric `<`: false where either side is a NaN.
    pub open spec fn less(self, other: Float) -> bool {
        !self.is_nan() && !other.is_nan() && self.rank() < other.rank()
    }

    /// Numeric `<=`: false where either side is a NaN.
    pub open spec fn at_most(self, other: Float) -> bool {
        !self.is_nan() && !other.is_nan() && self.rank() <= other.rank()
    }

    /// The number with the given encoding.
    pub fn from_bits(bits: u64) -> (r: Float)
        ensures
            r.bits == bits,
    {
        Float { bits }
    }

    /// The encoding of the number.
    pub fn to_bits(self) -> (bits: u64)
        ensures
            bits == self.bits,
    {
        self.bits
    }

    /// Whether the number is a NaN.
    pub fn nan(self) -> (r: bool)
        ensures
            r == self.is_nan(),
    {
        self.abs_bits() > INFINITY_BITS
    }

    /// The number with the opposite sign.
    pub fn neg(self) -> (r: Float)
        ensures
            r == self.negated(),
    {
        if self.bits >= SIGN_BIT {
            Float { bits: self.bits - SIGN_BIT }
        } else {
            Float { bits: self.bits + SIGN_BIT }
        }
    }

    /// Numeric `<`.
    pub fn lt(self, other: Float) -> (r: bool)
        ensures
            r == self.less(other),
    {
        if self.nan() || other.nan() {
            false
        } else if self.bits >= SIGN_BIT {
            if other.bits >= SIGN_BIT {
                self.abs_bits() > other.abs_bits()
            } else {
                self.abs_bits() != 0 || other.abs_bits() != 0
            }
        } else {
            other.bits < SIGN_BIT && self.abs_bits() < other.abs_bits()
        }
    }

    /// Numeric `<=`.
    pub fn le(self, other: Float) -> (r: bool)
        ensures
            r == self.at_most(other),
    {
        if self.nan() || other.nan() {
            false
        } else if self.bits >= SIGN_BIT {
            other.bits < SIGN_BIT || self.abs_bits() >= other.abs_bits()
        } else if other.bits >= SIGN_BIT {
            self.abs_bits() == 0 && other.abs_bits() == 0
        } else {
            self.abs_bits() <= other.abs_bits()
        }
    }

    /// The encoding without its sign bit.
    fn abs_bits(self) -> (m: u64)
        ensures
            m == self.magnitude(),
    {
        if self.bits >= SIGN_BIT {
            self.bits - SIGN_BIT
        } else {
            self.bits
        }
    }
}

impl PartialEq for Float {
    /// Numeric `==`.
    fn eq(&self, other: &Float) -> (r: bool) {
        !self.nan() && !other.nan() && (self.bits == other.bits || (self.abs_bits() == 0
            && other.abs_bits() == 0))
    }
}

impl vstd::std_specs::cmp::PartialEqSpecImpl for Float {
    open spec fn obeys_eq_spec() -> bool {
        true
    }

    open spec fn eq_spec(&self, other: &Float) -> bool {
        self.equals(*other)
    }
}

} // verus!
