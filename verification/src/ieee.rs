//! Binary floating-point settings, carried as their IEEE 754 bit patterns, with the two
//! comparisons that the planner makes on them.

use vstd::prelude::*;

verus! {

/// A single-precision number, as its bit pattern.
#[derive(Clone, Copy, PartialEq, Eq, Structural, Debug)]
pub struct Single {
    pub bits: u32,
}

/// A double-precision number, as its bit pattern.
#[derive(Clone, Copy, PartialEq, Eq, Structural, Debug)]
pub struct Double {
    pub bits: u64,
}

impl Single {
    /// The pattern without its sign bit.
    pub open spec fn magnitude(self) -> int {
        self.bits as int % 0x8000_0000
    }

    /// Not a number: an all-ones exponent with a non-zero fraction.
    pub open spec fn is_nan(self) -> bool {
        self.magnitude() > 0x7f80_0000
    }

    /// The rank of a number among all numbers; both zeros have rank 0.
    pub open spec fn rank(self) -> int {
        if self.bits >= 0x8000_0000 {
            -self.magnitude()
        } else {
            self.magnitude()
        }
    }

    /// The number compares unequal to zero, as a NaN does.
    pub open spec fn nonzero(self) -> bool {
        self.is_nan() || self.rank() != 0
    }

    /// Positive zero.
    pub fn zero() -> (r: Single)
        ensures
            r == (Single { bits: 0 }),
            !r.nonzero(),
    {
        Single { bits: 0 }
    }

    /// Tells whether the number compares unequal to zero.
    pub fn is_nonzero(self) -> (r: bool)
        ensures
            r == self.nonzero(),
            r == (self.bits != 0 && self.bits != 0x8000_0000),
    {
        self.bits != 0 && self.bits != 0x8000_0000
    }
}

impl Double {
    /// The pattern without its sign bit.
    pub open spec fn magnitude(self) -> int {
        self.bits as int % 0x8000_0000_0000_0000
    }

    /// Not a number: an all-ones exponent with a non-zero fraction.
    pub open spec fn is_nan(self) -> bool {
        self.magnitude() > 0x7ff0_0000_0000_0000
    }

    /// The rank of a number among all numbers; both zeros have rank 0.
    pub open spec fn rank(self) -> int {
        if self.bits >= 0x8000_0000_0000_0000 {
            -self.magnitude()
        } else {
            self.magnitude()
        }
    }

    /// `self > other`: false as soon as either is not a number.
    pub open spec fn above(self, other: Double) -> bool {
        !self.is_nan() && !other.is_nan() && self.rank() > other.rank()
    }

    /// Tells whether `self > other`.
    pub fn is_above(self, other: Double) -> (r: bool)
        ensures
            r == self.above(other),
    {
        let half: u64 = 0x8000_0000_0000_0000;
        let infinity: u64 = 0x7ff0_0000_0000_0000;
        let left: u64 = self.bits % half;
        let right: u64 = other.bits % half;
        if left > infinity || right > infinity {
            false
        } else if self.bits < half {
            if other.bits < half {
                left > right
            } else {
                left > 0 || right > 0
            }
        } else {
            other.bits >= half && right > left
        }
    }
}

/// The two zeros, and they alone, compare equal to zero.
pub proof fn law_zeros(x: Single)
    ensures
        x.nonzero() <==> x.bits != 0 && x.bits != 0x8000_0000,
{
}

/// Numbers without a sign are in the order of their patterns, numbers with a sign in the reverse
/// order, and every one with a sign is below every one without, but for the two zeros.
pub proof fn law_order_of_patterns(x: Double, y: Double)
    ensures
        x.bits <= 0x7ff0_0000_0000_0000 && y.bits <= 0x7ff0_0000_0000_0000 ==> (x.above(y)
            <==> x.bits > y.bits),
        0x8000_0000_0000_0000 <= x.bits <= 0xfff0_0000_0000_0000 && 0x8000_0000_0000_0000 <= y.bits
            <= 0xfff0_0000_0000_0000 ==> (x.above(y) <==> x.bits < y.bits),
        x.bits <= 0x7ff0_0000_0000_0000 && 0x8000_0000_0000_0000 <= y.bits
            <= 0xfff0_0000_0000_0000 ==> !y.above(x) && (x.above(y) <==> !(x.bits == 0 && y.bits
            == 0x8000_0000_0000_0000)),
        0x7ff0_0000_0000_0000 < x.bits < 0x8000_0000_0000_0000 || 0xfff0_0000_0000_0000 < x.bits
            ==> !x.above(y) && !y.above(x),
{
}

/// `above` is a strict order.
pub proof fn law_above_is_an_order(x: Double, y: Double, z: Double)
    ensures
        !x.above(x),
        x.above(y) ==> !y.above(x),
        x.above(y) && y.above(z) ==> x.above(z),
{
}

} // verus!
