//! Binary64 numbers, held by their bit patterns.
//!
//! The library never does arithmetic on numbers; it only orders them. A
//! [`Scalar`] therefore carries the sixty-four bits of a binary64 value, and
//! the comparisons below decide the usual numeric order from those bits alone:
//! a not-a-number is unordered with everything, the two zeros are equal, and
//! otherwise the sign bit and the remaining sixty-three bits, read as an
//! integer, order the values.

use vstd::prelude::*;

verus! {

/// Mask of the sign bit.
pub const SIGN_MASK: u64 = 0x8000_0000_0000_0000;

/// Mask of the exponent and fraction bits.
pub const MAGNITUDE_MASK: u64 = 0x7fff_ffff_ffff_ffff;

/// Exponent and fraction bits of an infinity. Larger magnitudes are not numbers.
pub const INFINITY_MAGNITUDE: u64 = 0x7ff0_0000_0000_0000;

/// A binary64 number, identified by its bit pattern.
///
/// `==` compares bit patterns, so it tells the two zeros apart and finds a
/// not-a-number equal to itself; [`Scalar::same`] compares numbers.
#[derive(Clone, Copy, Debug, PartialEq, Eq, Structural)]
pub struct Scalar {
    pub bits: u64,
}

impl Scalar {
    /// Exponent and fraction bits, read as an unsigned integer.
    pub open spec fn magnitude(self) -> u64 {
        self.bits & MAGNITUDE_MASK
    }

    /// The sign bit is set.
    pub open spec fn sign(self) -> bool {
        self.bits & SIGN_MASK != 0
    }

    /// The bit pattern encodes no number.
    pub open spec fn is_nan(self) -> bool {
        self.magnitude() > INFINITY_MAGNITUDE
    }

    /// Position of a number on the number line: numbers are ordered as their
    /// ranks are, and both zeros have rank zero.
    pub open spec fn rank(self) -> int {
        if self.sign() {
            -(self.magnitude() as int)
        } else {
            self.magnitude() as int
        }
    }

    /// `self < other` as numbers.
    pub open spec fn less(self, other: Scalar) -> bool {
        !self.is_nan() && !other.is_nan() && self.rank() < other.rank()
    }

    /// `self > other` as numbers.
    pub open spec fn greater(self, other: Scalar) -> bool {
        other.less(self)
    }

    /// `self == other` as numbers: false when either is not a number, true
    /// for a zero of either sign against a zero of either sign.
    pub open spec fn equal(self, other: Scalar) -> bool {
        !self.is_nan() && !other.is_nan() && self.rank() == other.rank()
    }

    /// `self >= other` as numbers.
    pub open spec fn at_least(self, other: Scalar) -> bool {
        !self.is_nan() && !other.is_nan() && self.rank() >= other.rank()
    }

    /// `self <= other` as numbers.
    pub open spec fn at_most(self, other: Scalar) -> bool {
        other.at_least(self)
    }

    /// Positive zero.
    pub open spec fn zero() -> Scalar {
        Scalar { bits: 0 }
    }

    /// Wraps a bit pattern.
    pub fn from_bits(bits: u64) -> (r: Scalar)
        ensures
            r.bits == bits,
    {
        Scalar { bits }
    }

    /// The bit pattern.
    pub fn to_bits(self) -> (r: u64)
        ensures
            r == self.bits,
    {
        self.bits
    }

    /// Positive zero.
    pub fn new_zero() -> (r: Scalar)
        ensures
            r == Scalar::zero(),
    {
        Scalar { bits: 0 }
    }

    /// Tells whether the bit pattern encodes no number.
    pub fn nan(self) -> (r: bool)
        ensures
            r == self.is_nan(),
    {
        (self.bits & MAGNITUDE_MASK) > INFINITY_MAGNITUDE
    }

    /// The rank of a number as a machine integer.
    fn key(self) -> (k: i64)
        ensures
            k == self.rank(),
    {
        let bits = self.bits;
        let m: u64 = bits & MAGNITUDE_MASK;
        assert(bits & MAGNITUDE_MASK <= 0x7fff_ffff_ffff_ffffu64) by (bit_vector);
        if bits & SIGN_MASK != 0 {
            -(m as i64)
        } else {
            m as i64
        }
    }

    /// Decides `self < other`.
    pub fn lt(self, other: Scalar) -> (r: bool)
        ensures
            r == self.less(other),
    {
        if self.nan() || other.nan() {
            false
        } else {
            self.key() < other.key()
        }
    }

    /// Decides `self > other`.
    pub fn gt(self, other: Scalar) -> (r: bool)
        ensures
            r == self.greater(other),
    {
        other.lt(self)
    }

    /// Decides `self >= other`.
    pub fn ge(self, other: Scalar) -> (r: bool)
        ensures
            r == self.at_least(other),
    {
        if self.nan() || other.nan() {
            false
        } else {
            self.key() >= other.key()
        }
    }

    /// Decides `self <= other`.
    pub fn le(self, other: Scalar) -> (r: bool)
        ensures
            r == self.at_most(other),
    {
        other.ge(self)
    }

    /// Decides `self == other` as numbers.
    pub fn same(self, other: Scalar) -> (r: bool)
        ensures
            r == self.equal(other),
    {
        if self.nan() || other.nan() {
            false
        } else {
            self.key() == other.key()
        }
    }
}

/// Of two numbers exactly one of less, equal and greater holds; a
/// not-a-number is in none of the three relations with anything.
pub proof fn lemma_trichotomy(a: Scalar, b: Scalar)
    ensures
        a.is_nan() || b.is_nan() ==> !a.less(b) && !a.equal(b) && !a.greater(b),
        !a.is_nan() && !b.is_nan() ==> (a.less(b) || a.equal(b) || a.greater(b)),
        !(a.less(b) && a.equal(b)),
        !(a.less(b) && a.greater(b)),
        !(a.equal(b) && a.greater(b)),
        a.at_least(b) <==> a.greater(b) || a.equal(b),
        a.at_least(b) ==> !a.less(b),
{
}

/// The order of numbers is transitive.
pub proof fn lemma_order_transitive(a: Scalar, b: Scalar, c: Scalar)
    ensures
        a.less(b) && b.less(c) ==> a.less(c),
        a.at_most(b) && b.at_most(c) ==> a.at_most(c),
        a.less(b) && b.at_most(c) ==> a.less(c),
        a.at_most(b) && b.less(c) ==> a.less(c),
        a.equal(b) && b.equal(c) ==> a.equal(c),
{
}

} // verus!
