//! Launch angles in exact decimal arithmetic.
//!
//! An angle is a whole number of units of 10^-36 degree, measured from the
//! horizontal. A search moves an angle by strides of 10^-level degree, level 0
//! being one degree and level 36 a single unit, so every angle a search visits
//! is held exactly. A stride shrunk beyond a single unit is nothing: it leaves
//! an angle where it is. Searches stay inside the launch cone of -90 to +90
//! degrees.

use vstd::prelude::*;

verus! {

/// Units in one degree: 10^36.
pub const UNITS_PER_DEGREE: i128 = 1_000_000_000_000_000_000_000_000_000_000_000_000;

/// Units in ninety degrees, the half-width of the launch cone.
pub const CONE_UNITS: i128 = 90_000_000_000_000_000_000_000_000_000_000_000_000;

/// Level of the finest stride: one unit.
pub const FINEST_LEVEL: u8 = 36;

/// Level of a stride that has been shrunk beyond one unit and moves nothing.
pub const SPENT_LEVEL: u8 = 37;

/// Ten to the power `e`.
pub open spec fn pow10(e: nat) -> nat
    decreases e,
{
    if e == 0 {
        1
    } else {
        10 * pow10((e - 1) as nat)
    }
}

/// Powers of ten grow with the exponent, and the thirty-sixth is one degree.
pub proof fn lemma_pow10_bounds(e: nat)
    ensures
        1 <= pow10(e),
        e <= 36 ==> pow10(e) <= UNITS_PER_DEGREE,
        e < 36 ==> 10 * pow10(e) <= UNITS_PER_DEGREE,
        pow10(36) == UNITS_PER_DEGREE,
    decreases 36 - e,
{
    assert(pow10(36) == UNITS_PER_DEGREE) by {
        reveal_with_fuel(pow10, 37);
    }
    if e < 36 {
        lemma_pow10_bounds(e + 1);
        assert(pow10(e + 1) == 10 * pow10(e));
        lemma_pow10_positive(e);
    } else {
        lemma_pow10_positive(e);
    }
}

/// Every power of ten is at least one.
pub proof fn lemma_pow10_positive(e: nat)
    ensures
        1 <= pow10(e),
    decreases e,
{
    if e > 0 {
        lemma_pow10_positive((e - 1) as nat);
    }
}

/// An angle from the horizontal, in units of 10^-36 degree.
#[derive(Clone, Copy, Debug, PartialEq, Eq, Structural)]
pub struct Angle {
    pub units: i128,
}

impl Angle {
    /// The angle lies in the launch cone, -90 to +90 degrees inclusive.
    pub open spec fn in_cone(self) -> bool {
        -CONE_UNITS <= self.units <= CONE_UNITS
    }

    /// The angle one stride further, if that is still in the launch cone.
    pub open spec fn advanced(self, stride: Stride) -> Option<Angle> {
        let units = self.units + stride.offset();
        if -CONE_UNITS <= units <= CONE_UNITS {
            Some(Angle { units: units as i128 })
        } else {
            None
        }
    }

    /// The angle of `units` units.
    pub fn from_units(units: i128) -> (r: Angle)
        ensures
            r.units == units,
    {
        Angle { units }
    }

    /// The angle of a whole number of degrees.
    pub fn from_degrees(degrees: i8) -> (r: Angle)
        ensures
            r.units == degrees * UNITS_PER_DEGREE,
            -90 <= degrees <= 90 <==> r.in_cone(),
    {
        let d: i128 = degrees as i128;
        assert(-128 * UNITS_PER_DEGREE <= d * UNITS_PER_DEGREE <= 127 * UNITS_PER_DEGREE)
            by (nonlinear_arith)
            requires
                -128 <= d <= 127,
        ;
        assert(-90 <= d <= 90 <==> -CONE_UNITS <= d * UNITS_PER_DEGREE <= CONE_UNITS)
            by (nonlinear_arith)
            requires
                -128 <= d <= 127,
        ;
        Angle { units: d * UNITS_PER_DEGREE }
    }

    /// The number of units.
    pub fn to_units(self) -> (r: i128)
        ensures
            r == self.units,
    {
        self.units
    }

    /// Tells whether the angle lies in the launch cone.
    pub fn within_cone(self) -> (r: bool)
        ensures
            r == self.in_cone(),
    {
        -CONE_UNITS <= self.units && self.units <= CONE_UNITS
    }

    /// Moves one stride; `None` when that would leave the launch cone.
    pub fn advance(self, stride: Stride) -> (r: Option<Angle>)
        requires
            self.in_cone(),
            stride.wf(),
        ensures
            r == self.advanced(stride),
    {
        let magnitude = stride.magnitude_units();
        let units = if stride.descending {
            self.units - magnitude
        } else {
            self.units + magnitude
        };
        if -CONE_UNITS <= units && units <= CONE_UNITS {
            Some(Angle { units })
        } else {
            None
        }
    }
}

/// A signed angular step of 10^-level degree.
#[derive(Clone, Copy, Debug, PartialEq, Eq, Structural)]
pub struct Stride {
    /// The stride lowers the angle.
    pub descending: bool,
    /// Number of times the stride has been shrunk to a tenth, counted up to
    /// 37, from where on the stride is nothing.
    pub level: u8,
}

impl Stride {
    /// The level is one that a stride can have.
    pub open spec fn wf(self) -> bool {
        self.level <= SPENT_LEVEL
    }

    /// Size of the stride in units: 10^(36 - level), and nothing beyond
    /// level 36.
    pub open spec fn magnitude(self) -> int {
        if self.level <= FINEST_LEVEL {
            pow10((FINEST_LEVEL - self.level) as nat) as int
        } else {
            0
        }
    }

    /// Signed size of the stride in units.
    pub open spec fn offset(self) -> int {
        if self.descending {
            -self.magnitude()
        } else {
            self.magnitude()
        }
    }

    /// The stride of the opposite direction and a tenth of the size.
    pub open spec fn reversed(self) -> Stride {
        Stride {
            descending: !self.descending,
            level: if self.level < SPENT_LEVEL {
                (self.level + 1) as u8
            } else {
                SPENT_LEVEL
            },
        }
    }

    /// A stride of one degree.
    pub fn one_degree(descending: bool) -> (r: Stride)
        ensures
            r == (Stride { descending, level: 0 }),
            r.wf(),
            r.magnitude() == UNITS_PER_DEGREE,
    {
        proof {
            lemma_pow10_bounds(36);
        }
        Stride { descending, level: 0 }
    }

    /// Size of the stride in units.
    pub fn magnitude_units(self) -> (m: i128)
        requires
            self.wf(),
        ensures
            m == self.magnitude(),
            0 <= m <= UNITS_PER_DEGREE,
            self.level <= FINEST_LEVEL ==> 1 <= m,
    {
        if self.level > FINEST_LEVEL {
            return 0;
        }
        let exponent: u8 = FINEST_LEVEL - self.level;
        let mut m: i128 = 1;
        let mut i: u8 = 0;
        while i < exponent
            invariant
                i <= exponent <= 36,
                m == pow10(i as nat),
            decreases exponent - i,
        {
            proof {
                lemma_pow10_bounds(i as nat);
            }
            m = m * 10;
            i = i + 1;
        }
        proof {
            lemma_pow10_bounds(exponent as nat);
        }
        m
    }

    /// Reverses and shrinks the stride. A stride of a single unit becomes
    /// nothing, and stays nothing from then on.
    pub fn reverse(self) -> (r: Stride)
        requires
            self.wf(),
        ensures
            r == self.reversed(),
            r.wf(),
            10 * r.magnitude() == self.magnitude() || r.magnitude() == 0,
            self.level < FINEST_LEVEL ==> 10 * r.magnitude() == self.magnitude(),
    {
        proof {
            lemma_reversed_is_a_tenth(self);
        }
        let level = if self.level < SPENT_LEVEL {
            self.level + 1
        } else {
            SPENT_LEVEL
        };
        Stride { descending: !self.descending, level }
    }
}

/// Reversing a stride flips its sign and divides its size by ten exactly,
/// down to a single unit; a tenth of a single unit, or of nothing, is
/// nothing.
pub proof fn lemma_reversed_is_a_tenth(stride: Stride)
    requires
        stride.wf(),
    ensures
        stride.reversed().wf(),
        stride.reversed().descending != stride.descending,
        stride.level < FINEST_LEVEL ==> 10 * stride.reversed().magnitude() == stride.magnitude(),
        stride.level >= FINEST_LEVEL ==> stride.reversed().magnitude() == 0,
{
    if stride.level < FINEST_LEVEL {
        assert(pow10((FINEST_LEVEL - stride.level) as nat) == 10 * pow10(
            (FINEST_LEVEL - stride.level - 1) as nat,
        ));
    }
}

} // verus!
