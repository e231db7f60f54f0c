//! Comparison of IEEE 754 doubles by their bit patterns.
//!
//! The numbers themselves are computed elsewhere; the decisions taken on them
//! only ask how two of them compare, which their bits answer exactly.

use vstd::prelude::*;

verus! {

/// The bit pattern of a double.
#[derive(Debug, Clone, Copy, PartialEq, Eq, Structural)]
pub struct Double {
    pub bits: u64,
}

impl Double {
    /// The bits below the sign.
    pub open spec fn magnitude(self) -> int {
        if self.bits >= 0x8000_0000_0000_0000 {
            self.bits - 0x8000_0000_0000_0000
        } else {
            self.bits as int
        }
    }

    /// Whether this is a number: not beyond either infinity.
    pub open spec fn is_number(self) -> bool {
        self.bits <= 0x7ff0_0000_0000_0000 || 0x8000_0000_0000_0000 <= self.bits
            <= 0xfff0_0000_0000_0000
    }

    /// Whether this is not a number.
    pub open spec fn nan(self) -> bool {
        self.magnitude() > 0x7ff0_0000_0000_0000
    }

    /// The place of a number among the numbers: of two numbers the greater one
    /// has the greater rank, and both zeros have rank 0.
    pub open spec fn rank(self) -> int {
        if self.bits >= 0x8000_0000_0000_0000 {
            -self.magnitude()
        } else {
            self.magnitude()
        }
    }

    /// `self >= other`; false where either is not a number.
    pub open spec fn ge(self, other: Double) -> bool {
        !self.nan() && !other.nan() && self.rank() >= other.rank()
    }

    /// `self < other`; false where either is not a number.
    pub open spec fn lt(self, other: Double) -> bool {
        !self.nan() && !other.nan() && self.rank() < other.rank()
    }

    /// The number without its sign.
    pub open spec fn without_sign(self) -> Double {
        Double { bits: self.magnitude() as u64 }
    }

    /// The number without its sign.
    pub fn abs(self) -> (r: Double)
        ensures
            r == self.without_sign(),
            r.bits < 0x8000_0000_0000_0000,
            r.bits == self.bits || r.bits + 0x8000_0000_0000_0000 == self.bits,
    {
        if self.bits >= 0x8000_0000_0000_0000 {
            Double { bits: self.bits - 0x8000_0000_0000_0000 }
        } else {
            self
        }
    }

    /// Whether this is not a number.
    pub fn is_nan(self) -> (r: bool)
        ensures
            r == self.nan(),
    {
        self.abs().bits > 0x7ff0_0000_0000_0000
    }

    /// `self >= other`; false where either is not a number.
    pub fn at_least(self, other: Double) -> (r: bool)
        ensures
            r == self.ge(other),
            self.is_number() && other.is_number() && self.bits < 0x8000_0000_0000_0000
                && other.bits < 0x8000_0000_0000_0000 ==> r == (self.bits >= other.bits),
            self.is_number() && other.is_number() && self.bits >= 0x8000_0000_0000_0000
                && other.bits >= 0x8000_0000_0000_0000 ==> r == (self.bits <= other.bits),
            self.is_number() && other.is_number() && self.bits < 0x8000_0000_0000_0000
                && other.bits >= 0x8000_0000_0000_0000 ==> r,
            self.is_number() && other.is_number() && self.bits >= 0x8000_0000_0000_0000
                && other.bits < 0x8000_0000_0000_0000 ==> r == (self.bits
                == 0x8000_0000_0000_0000 && other.bits == 0),
            !self.is_number() || !other.is_number() ==> !r,
    {
        if self.is_nan() || other.is_nan() {
            return false;
        }
        let a: u64 = self.abs().bits;
        let b: u64 = other.abs().bits;
        if self.bits >= 0x8000_0000_0000_0000 {
            if other.bits >= 0x8000_0000_0000_0000 {
                a <= b
            } else {
                a == 0 && b == 0
            }
        } else if other.bits >= 0x8000_0000_0000_0000 {
            true
        } else {
            a >= b
        }
    }

    /// `self < other`; false where either is not a number.
    pub fn less_than(self, other: Double) -> (r: bool)
        ensures
            r == self.lt(other),
            r ==> self.is_number() && other.is_number(),
            self.is_number() && other.is_number() ==> r == !self.ge(other),
    {
        if self.is_nan() || other.is_nan() {
            false
        } else {
            !self.at_least(other)
        }
    }
}

/// How two numbers compare, by their bits: numbers without a sign as their bits
/// do, numbers with one the other way round, and a number with a sign is less
/// than one without, unless both are zero. What is not a number compares with
/// nothing, and taking the sign away clears the highest bit.
pub proof fn law_comparison(a: Double, b: Double)
    ensures
        a.nan() == !a.is_number(),
        a.ge(b) ==> a.is_number() && b.is_number(),
        a.lt(b) <==> a.is_number() && b.is_number() && !a.ge(b),
        a.is_number() && b.is_number() ==> {
            let top: u64 = 0x8000_0000_0000_0000;
            &&& a.bits < top && b.bits < top ==> (a.ge(b) <==> a.bits >= b.bits)
            &&& a.bits >= top && b.bits >= top ==> (a.ge(b) <==> a.bits <= b.bits)
            &&& a.bits < top && b.bits >= top ==> a.ge(b)
            &&& a.bits >= top && b.bits < top ==> (a.ge(b) <==> a.bits == top && b.bits == 0)
        },
        a.without_sign().bits < 0x8000_0000_0000_0000,
        a.without_sign().bits == a.bits || a.without_sign().bits + 0x8000_0000_0000_0000 == a.bits,
{
}

} // verus!
