//! Probabilities, fits and thresholds as IEEE 754 binary64 bit patterns. The
//! decisions made here only compare such numbers, and a comparison of two
//! binary64 values is a comparison of the integers their patterns spell.

use vstd::prelude::*;

verus! {

/// A binary64 number, by its bit pattern.
#[derive(Clone, Copy, Debug, PartialEq, Eq, Structural)]
pub struct Score {
    pub bits: u64,
}

pub const SIGN_BIT: u64 = 0x8000_0000_0000_0000;

pub const INFINITY_BITS: u64 = 0x7ff0_0000_0000_0000;

impl Score {
    /// The pattern without its sign.
    pub open spec fn magnitude(self) -> int {
        self.bits as int % SIGN_BIT as int
    }

    /// Whether the sign bit is set.
    pub open spec fn negative(self) -> bool {
        self.bits >= SIGN_BIT
    }

    /// Whether the pattern is a NaN.
    pub open spec fn is_nan(self) -> bool {
        self.magnitude() > INFINITY_BITS
    }

    /// A number that orders every pattern but the NaNs as binary64 orders
    /// their values; the two zeros are equal.
    pub open spec fn position(self) -> int {
        if self.negative() {
            -self.magnitude()
        } else {
            self.magnitude()
        }
    }

    /// The binary64 `>=`: false where either side is a NaN.
    pub open spec fn at_least_spec(self, other: Score) -> bool {
        !self.is_nan() && !other.is_nan() && self.position() >= other.position()
    }

    /// The binary64 `<`: false where either side is a NaN.
    pub open spec fn below_spec(self, other: Score) -> bool {
        !self.is_nan() && !other.is_nan() && self.position() < other.position()
    }

    /// The binary64 `==`: false where either side is a NaN.
    pub open spec fn same_spec(self, other: Score) -> bool {
        !self.is_nan() && !other.is_nan() && self.position() == other.position()
    }

    /// The key of the IEEE 754 total order, in which the negative zero stands
    /// below the positive one and every NaN has a place.
    pub open spec fn total_key(self) -> int {
        if self.negative() {
            -self.magnitude() - 1
        } else {
            self.magnitude()
        }
    }

    fn split(self) -> (r: (bool, u64))
        ensures
            r.0 == self.negative(),
            r.1 as int == self.magnitude(),
            r.1 < SIGN_BIT,
    {
        if self.bits >= SIGN_BIT {
            (true, self.bits - SIGN_BIT)
        } else {
            (false, self.bits)
        }
    }

    fn signed(self) -> (r: i128)
        ensures
            r as int == self.position(),
    {
        let (negative, magnitude): (bool, u64) = self.split();
        if negative {
            -(magnitude as i128)
        } else {
            magnitude as i128
        }
    }

    fn nan(self) -> (r: bool)
        ensures
            r == self.is_nan(),
    {
        self.split().1 > INFINITY_BITS
    }

    /// Whether this number is at least the other.
    pub fn at_least(self, other: Score) -> (r: bool)
        ensures
            r == self.at_least_spec(other),
    {
        !self.nan() && !other.nan() && self.signed() >= other.signed()
    }

    /// Whether this number is less than the other.
    pub fn below(self, other: Score) -> (r: bool)
        ensures
            r == self.below_spec(other),
    {
        !self.nan() && !other.nan() && self.signed() < other.signed()
    }

    /// Whether the two numbers are equal as values.
    pub fn same(self, other: Score) -> (r: bool)
        ensures
            r == self.same_spec(other),
    {
        !self.nan() && !other.nan() && self.signed() == other.signed()
    }

    /// Whether this number stands above the other in the total order.
    pub fn total_above(self, other: Score) -> (r: bool)
        ensures
            r == (self.total_key() > other.total_key()),
    {
        let (a_negative, a): (bool, u64) = self.split();
        let (b_negative, b): (bool, u64) = other.split();
        if a_negative != b_negative {
            b_negative
        } else if a_negative {
            a < b
        } else {
            a > b
        }
    }
}

/// The total order tells any two distinct patterns apart.
pub proof fn lemma_total_key_injective(a: Score, b: Score)
    ensures
        a.total_key() == b.total_key() ==> a == b,
{
}

/// Where neither number is a NaN, the total order refines the order of values.
pub proof fn lemma_total_order_refines_values(a: Score, b: Score)
    requires
        !a.is_nan(),
        !b.is_nan(),
    ensures
        a.below_spec(b) ==> a.total_key() < b.total_key(),
        a.total_key() < b.total_key() ==> b.at_least_spec(a),
{
}

/// The order of numbers is that of their patterns: without the sign bit the
/// greater pattern is the greater number, with it the smaller one, and a number
/// with it is at most one without. The two zeros are equal, and a NaN is neither
/// at least, nor less than, nor equal to anything.
pub proof fn lemma_order_is_that_of_patterns(a: Score, b: Score)
    ensures
        a.bits <= INFINITY_BITS && b.bits <= INFINITY_BITS ==> {
            &&& a.at_least_spec(b) == (a.bits >= b.bits)
            &&& a.below_spec(b) == (a.bits < b.bits)
            &&& a.same_spec(b) == (a.bits == b.bits)
        },
        SIGN_BIT <= a.bits <= SIGN_BIT + INFINITY_BITS && SIGN_BIT <= b.bits <= SIGN_BIT
            + INFINITY_BITS ==> {
            &&& a.at_least_spec(b) == (a.bits <= b.bits)
            &&& a.below_spec(b) == (a.bits > b.bits)
            &&& a.same_spec(b) == (a.bits == b.bits)
        },
        a.bits <= INFINITY_BITS && SIGN_BIT <= b.bits <= SIGN_BIT + INFINITY_BITS ==> {
            &&& a.at_least_spec(b)
            &&& !a.below_spec(b)
            &&& b.below_spec(a) == !(a.bits == 0 && b.bits == SIGN_BIT)
            &&& a.same_spec(b) == (a.bits == 0 && b.bits == SIGN_BIT)
        },
        INFINITY_BITS < a.bits < SIGN_BIT || a.bits > SIGN_BIT + INFINITY_BITS ==> {
            &&& !a.at_least_spec(b) && !b.at_least_spec(a)
            &&& !a.below_spec(b) && !b.below_spec(a)
            &&& !a.same_spec(b) && !b.same_spec(a)
        },
{
}

/// The total order is that of the patterns too: every pattern with the sign bit
/// stands below every one without it, and among those the greater stands
/// further from zero.
pub proof fn lemma_total_order_is_that_of_patterns(a: Score, b: Score)
    ensures
        a.bits < SIGN_BIT && b.bits < SIGN_BIT ==> (a.total_key() > b.total_key()) == (a.bits
            > b.bits),
        a.bits >= SIGN_BIT && b.bits >= SIGN_BIT ==> (a.total_key() > b.total_key()) == (a.bits
            < b.bits),
        a.bits < SIGN_BIT && b.bits >= SIGN_BIT ==> a.total_key() > b.total_key(),
{
}

} // verus!
