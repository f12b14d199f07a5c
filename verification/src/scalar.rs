//! Single-precision numbers by bit pattern, with the order of their values.

use vstd::prelude::*;

verus! {

/// A single-precision IEEE-754 number, held by its bit pattern.
#[derive(Clone, Copy, Debug, PartialEq, Eq, Structural)]
pub struct Scalar {
    pub bits: u32,
}

impl View for Scalar {
    type V = Scalar;

    open spec fn view(&self) -> Scalar {
        *self
    }
}

impl Scalar {
    /// Whether the sign bit is set.
    pub open spec fn negative(self) -> bool {
        self.bits >= 0x8000_0000
    }

    /// The pattern without its sign bit: exponent and fraction.
    pub open spec fn magnitude(self) -> int {
        if self.negative() {
            self.bits - 0x8000_0000
        } else {
            self.bits as int
        }
    }

    /// Whether the pattern encodes no number: an all-ones exponent with a
    /// fraction that is not zero.
    pub open spec fn nan(self) -> bool {
        self.magnitude() > 0x7f80_0000
    }

    /// Where the value stands on the number line. Patterns that are numbers are
    /// ordered by rank as their values are ordered; both zeros have rank 0.
    pub open spec fn rank(self) -> int {
        if self.negative() {
            -self.magnitude()
        } else {
            self.magnitude()
        }
    }

    /// `self < other` as values: false whenever either side is not a number.
    pub open spec fn below(self, other: Scalar) -> bool {
        !self.nan() && !other.nan() && self.rank() < other.rank()
    }

    /// `self <= other` as values: false whenever either side is not a number.
    pub open spec fn at_most(self, other: Scalar) -> bool {
        !self.nan() && !other.nan() && self.rank() <= other.rank()
    }

    /// Positive zero.
    pub fn zero() -> (r: Scalar)
        ensures
            r.bits == 0,
    {
        Scalar { bits: 0 }
    }

    /// The pattern `bits`.
    pub fn from_bits(bits: u32) -> (r: Scalar)
        ensures
            r.bits == bits,
    {
        Scalar { bits }
    }

    pub fn is_nan(&self) -> (r: bool)
        ensures
            r == self.nan(),
    {
        Self::magnitude_of(self.bits) > 0x7f80_0000
    }

    /// Whether `self < other` as values.
    pub fn lt(&self, other: &Scalar) -> (r: bool)
        ensures
            r == self.below(*other),
    {
        if self.is_nan() || other.is_nan() {
            return false;
        }
        let a: u32 = Self::magnitude_of(self.bits);
        let b: u32 = Self::magnitude_of(other.bits);
        if self.bits >= 0x8000_0000 {
            if other.bits >= 0x8000_0000 {
                b < a
            } else {
                a > 0 || b > 0
            }
        } else {
            if other.bits >= 0x8000_0000 {
                false
            } else {
                a < b
            }
        }
    }

    /// Whether `self > other` as values.
    pub fn gt(&self, other: &Scalar) -> (r: bool)
        ensures
            r == other.below(*self),
    {
        other.lt(self)
    }

    fn magnitude_of(bits: u32) -> (r: u32)
        ensures
            r == (Scalar { bits }).magnitude(),
    {
        if bits >= 0x8000_0000 {
            bits - 0x8000_0000
        } else {
            bits
        }
    }
}

} // verus!
