//! Binary64 quantities carried as bit patterns.
//!
//! Times, gains and frequencies are floating-point numbers outside this
//! crate. Here they travel as their 64-bit IEEE 754 patterns: they can be
//! stored, passed on and compared, and the callers that own an arithmetic unit
//! do the sums.

use vstd::prelude::*;

verus! {

/// The weight of the sign bit.
pub const SIGN: u64 = 0x8000_0000_0000_0000;

/// The pattern of positive infinity, above which a magnitude is not a number.
pub const INFINITY: u64 = 0x7ff0_0000_0000_0000;

/// A binary64 value, by its bit pattern.
#[derive(Debug, Clone, Copy, PartialEq, Eq, Structural)]
pub struct Quantity {
    pub bits: u64,
}

/// The pattern of 0.0.
pub const ZERO: u64 = 0;

/// The pattern of 1.0.
pub const ONE: u64 = 0x3ff0_0000_0000_0000;

impl Quantity {
    /// The pattern without its sign bit.
    pub open spec fn magnitude(self) -> int {
        if self.bits < SIGN {
            self.bits as int
        } else {
            self.bits - SIGN
        }
    }

    /// The place of the value on the number line: IEEE 754 orders the numbers of
    /// one sign as it orders their patterns, and both zeros stand at 0.
    pub open spec fn ordinal(self) -> int {
        if self.bits < SIGN {
            self.magnitude()
        } else {
            -self.magnitude()
        }
    }

    /// Not a number: no comparison with it holds.
    pub open spec fn nan(self) -> bool {
        self.magnitude() > INFINITY
    }

    /// The value is less than `other`.
    pub open spec fn below(self, other: Quantity) -> bool {
        !self.nan() && !other.nan() && self.ordinal() < other.ordinal()
    }

    /// The value is less than or equal to `other`.
    pub open spec fn at_most(self, other: Quantity) -> bool {
        !self.nan() && !other.nan() && self.ordinal() <= other.ordinal()
    }

    /// `low` where the value is less than `low`, `high` where it is greater than
    /// `high`, and the value itself otherwise.
    pub open spec fn clamped(self, low: Quantity, high: Quantity) -> Quantity {
        if self.below(low) {
            low
        } else if high.below(self) {
            high
        } else {
            self
        }
    }

    /// The value with this pattern.
    pub fn new(bits: u64) -> (r: Quantity)
        ensures
            r.bits == bits,
    {
        Quantity { bits }
    }

    /// Whether the value is not a number.
    pub fn is_nan(&self) -> (r: bool)
        ensures
            r == self.nan(),
    {
        if self.bits < SIGN {
            self.bits > INFINITY
        } else {
            self.bits - SIGN > INFINITY
        }
    }

    /// The place of the value on the number line.
    fn rank(&self) -> (r: i64)
        ensures
            r == self.ordinal(),
    {
        if self.bits < SIGN {
            self.bits as i64
        } else {
            -((self.bits - SIGN) as i64)
        }
    }

    /// `self < other`
    pub fn lt(&self, other: &Quantity) -> (r: bool)
        ensures
            r == self.below(*other),
    {
        !self.is_nan() && !other.is_nan() && self.rank() < other.rank()
    }

    /// `self <= other`
    pub fn le(&self, other: &Quantity) -> (r: bool)
        ensures
            r == self.at_most(*other),
    {
        !self.is_nan() && !other.is_nan() && self.rank() <= other.rank()
    }

    /// Whether the value comes strictly before `other` on the number line, where
    /// the patterns that are no numbers lie beyond the infinities.
    pub fn precedes(&self, other: &Quantity) -> (r: bool)
        ensures
            r == (self.ordinal() < other.ordinal()),
    {
        self.rank() < other.rank()
    }

    /// Restricts the value to the range from `low` to `high`.
    pub fn clamp(&self, low: &Quantity, high: &Quantity) -> (r: Quantity)
        requires
            low.at_most(*high),
        ensures
            r == self.clamped(*low, *high),
    {
        if self.lt(low) {
            *low
        } else if high.lt(self) {
            *high
        } else {
            *self
        }
    }
}

/// A number that was clamped lies in the range, and one that lay there already is
/// left alone.
pub proof fn clamp_stays_in_range(value: Quantity, low: Quantity, high: Quantity)
    requires
        !value.nan(),
        low.at_most(high),
    ensures
        low.at_most(value.clamped(low, high)),
        value.clamped(low, high).at_most(high),
        low.at_most(value) && value.at_most(high) ==> value.clamped(low, high) == value,
{
}

/// Among numbers exactly one of three holds: one is less, the other is less, or each is at most
/// the other. What is not a number compares with nothing.
pub proof fn numbers_are_totally_ordered(a: Quantity, b: Quantity)
    ensures
        a.nan() || b.nan() ==> !a.below(b) && !a.at_most(b) && !b.below(a) && !b.at_most(a),
        !a.nan() && !b.nan() ==> (a.below(b) <==> !b.at_most(a)),
        !a.nan() && !b.nan() ==> a.at_most(b) || b.at_most(a),
        a.below(b) ==> a.at_most(b),
{
}

/// The order is transitive, strictly so where one of the steps is.
pub proof fn order_is_transitive(a: Quantity, b: Quantity, c: Quantity)
    ensures
        a.at_most(b) && b.at_most(c) ==> a.at_most(c),
        a.below(b) && b.at_most(c) ==> a.below(c),
        a.at_most(b) && b.below(c) ==> a.below(c),
{
}

/// The order is that of IEEE 754: a larger pattern is a larger number where the sign bit is
/// clear and a smaller one where it is set, every negative number is less than every positive
/// one, the two zeros are equal, and a pattern is no number exactly if it lies beyond an
/// infinity.
pub proof fn order_follows_the_patterns(a: Quantity, b: Quantity)
    ensures
        a.nan() <==> 0x7ff0_0000_0000_0000 < a.bits < 0x8000_0000_0000_0000 || a.bits
            > 0xfff0_0000_0000_0000,
        !a.nan() && !b.nan() && a.bits < 0x8000_0000_0000_0000 && b.bits < 0x8000_0000_0000_0000
            ==> (a.below(b) <==> a.bits < b.bits),
        !a.nan() && !b.nan() && a.bits >= 0x8000_0000_0000_0000 && b.bits
            >= 0x8000_0000_0000_0000 ==> (a.below(b) <==> a.bits > b.bits),
        !a.nan() && !b.nan() && a.bits >= 0x8000_0000_0000_0000 && b.bits < 0x8000_0000_0000_0000
            ==> a.at_most(b) && (a.below(b) <==> a.bits != 0x8000_0000_0000_0000 || b.bits != 0),
{
}

/// A number outside the range becomes the end of the range that it is beyond, and what is not a
/// number is left alone.
pub proof fn clamp_takes_the_nearest_end(value: Quantity, low: Quantity, high: Quantity)
    requires
        low.at_most(high),
    ensures
        value.below(low) ==> value.clamped(low, high) == low,
        high.below(value) ==> value.clamped(low, high) == high,
        value.nan() ==> value.clamped(low, high) == value,
{
}

} // verus!
