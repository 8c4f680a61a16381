//! Single-precision numbers by their bit patterns.
//!
//! Importance, confidence and relevance are single-precision numbers. Nothing in this
//! crate adds or multiplies them: it only compares them and hands them on, and for that
//! the bit pattern is enough, since the patterns of two numbers of one sign are ordered
//! as the numbers are.

use vstd::prelude::*;

verus! {

/// A single-precision number, held as its IEEE 754 bit pattern.
#[derive(Debug, Clone, Copy, PartialEq, Eq, Structural)]
pub struct Score {
    /// The sign in the top bit, then eight bits of exponent, then the fraction.
    pub bits: u32,
}

/// The pattern of zero with the sign bit set; patterns from here on are negative.
pub const SIGN: u32 = 0x8000_0000;

/// The pattern of positive infinity; a larger magnitude is not a number.
pub const INFINITY: u32 = 0x7f80_0000;

/// The pattern of negative infinity.
pub const NEG_INFINITY: u32 = 0xff80_0000;

/// The pattern of one.
pub const ONE: u32 = 0x3f80_0000;

impl Score {
    /// The pattern without its sign.
    pub open spec fn magnitude(self) -> int {
        if self.bits < SIGN {
            self.bits as int
        } else {
            self.bits - SIGN
        }
    }

    /// The pattern stands for no number.
    pub open spec fn nan(self) -> bool {
        self.magnitude() > INFINITY
    }

    /// An integer that orders the numbers as their values do; both zeros get 0.
    pub open spec fn rank(self) -> int {
        if self.bits < SIGN {
            self.magnitude()
        } else {
            -self.magnitude()
        }
    }

    /// An integer that orders all patterns: negative zero comes before zero, and the
    /// patterns that stand for no number come before or after all others by their sign.
    pub open spec fn total_rank(self) -> int {
        if self.bits < SIGN {
            self.magnitude()
        } else {
            -1 - self.magnitude()
        }
    }

    /// `self` is a smaller number than `other`; false if either is not a number.
    pub open spec fn lt(self, other: Score) -> bool {
        !self.nan() && !other.nan() && self.rank() < other.rank()
    }

    /// `self` is a number from 0 to 1.
    pub open spec fn unit(self) -> bool {
        !self.nan() && 0 <= self.rank() <= ONE
    }

    /// The larger of two numbers; the other one if one is not a number.
    pub open spec fn max(self, other: Score) -> Score {
        if self.nan() || self.lt(other) {
            other
        } else {
            self
        }
    }

    /// The number with this bit pattern.
    pub fn from_bits(bits: u32) -> (r: Score)
        ensures
            r.bits == bits,
    {
        Score { bits }
    }

    /// Whether the pattern stands for no number.
    pub fn is_nan(&self) -> (r: bool)
        ensures
            r == self.nan(),
    {
        if self.bits < SIGN {
            self.bits > INFINITY
        } else {
            self.bits - SIGN > INFINITY
        }
    }

    /// An integer that orders the numbers as their values do.
    pub fn to_rank(&self) -> (r: i64)
        ensures
            r == self.rank(),
    {
        if self.bits < SIGN {
            self.bits as i64
        } else {
            -((self.bits - SIGN) as i64)
        }
    }

    /// An integer that orders all patterns.
    pub fn to_total_rank(&self) -> (r: i64)
        ensures
            r == self.total_rank(),
    {
        if self.bits < SIGN {
            self.bits as i64
        } else {
            -1 - (self.bits - SIGN) as i64
        }
    }

    /// Whether `self` is a smaller number than `other`.
    pub fn less_than(&self, other: &Score) -> (r: bool)
        ensures
            r == self.lt(*other),
    {
        !self.is_nan() && !other.is_nan() && self.to_rank() < other.to_rank()
    }

    /// Whether `self` is a number from 0 to 1.
    pub fn in_unit_range(&self) -> (r: bool)
        ensures
            r == self.unit(),
    {
        let rank: i64 = self.to_rank();
        !self.is_nan() && 0 <= rank && rank <= ONE as i64
    }

    /// The larger of two numbers.
    pub fn larger(self, other: Score) -> (r: Score)
        ensures
            r == self.max(other),
    {
        if self.is_nan() || self.less_than(&other) {
            other
        } else {
            self
        }
    }
}

/// The larger of two numbers is one of them, and not smaller than either.
pub proof fn law_max_bounds(a: Score, b: Score)
    requires
        !a.nan(),
        !b.nan(),
    ensures
        !a.max(b).lt(a),
        !a.max(b).lt(b),
        a.max(b) == a || a.max(b) == b,
{
}

/// Where the numeric order tells two numbers apart, the total order agrees with it.
pub proof fn law_total_order_extends(a: Score, b: Score)
    requires
        a.lt(b),
    ensures
        a.total_rank() < b.total_rank(),
{
}

} // verus!
