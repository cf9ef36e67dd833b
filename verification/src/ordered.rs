//! Floating-point numbers that are only compared: each is held by the bit pattern of its `f64`, and
//! the comparisons work on the patterns. Whoever adds or multiplies them does so outside and hands
//! the result in.

use vstd::prelude::*;

verus! {

/// A number, by the bit pattern of its `f64`.
#[derive(Debug, Clone, Copy, PartialEq, Eq, Structural, Default)]
pub struct Real(pub u64);

/// The sign bit.
pub const SIGN: u64 = 0x8000_0000_0000_0000;

/// The pattern of positive infinity.
pub const INFINITE: u64 = 0x7ff0_0000_0000_0000;

/// The pattern without its sign.
pub open spec fn magnitude(r: Real) -> int {
    if r.0 >= SIGN {
        r.0 - SIGN
    } else {
        r.0 as int
    }
}

/// Whether the pattern stands for no number at all.
pub open spec fn is_nan(r: Real) -> bool {
    magnitude(r) > INFINITE
}

/// Where the number stands among all numbers: larger numbers have larger ranks, both zeros the
/// same.
pub open spec fn rank(r: Real) -> int {
    if r.0 >= SIGN {
        -magnitude(r)
    } else {
        magnitude(r)
    }
}

/// Whether `a` is at most `b`; nothing compares to what is not a number.
pub open spec fn le(a: Real, b: Real) -> bool {
    !is_nan(a) && !is_nan(b) && rank(a) <= rank(b)
}

/// The smaller of two numbers; what is not a number gives way to the other.
pub open spec fn smaller(a: Real, b: Real) -> Real {
    if is_nan(b) || le(a, b) {
        a
    } else {
        b
    }
}

/// The larger of two numbers; what is not a number gives way to the other.
pub open spec fn larger(a: Real, b: Real) -> Real {
    if is_nan(b) || le(b, a) {
        a
    } else {
        b
    }
}

impl Real {
    /// Whether the pattern stands for no number at all.
    pub fn nan(self) -> (r: bool)
        ensures
            r == is_nan(self),
    {
        if self.0 >= SIGN {
            self.0 - SIGN > INFINITE
        } else {
            self.0 > INFINITE
        }
    }

    /// Whether this number is at most `other`.
    pub fn at_most(self, other: Real) -> (r: bool)
        ensures
            r == le(self, other),
    {
        if self.nan() || other.nan() {
            return false;
        }
        if self.0 >= SIGN {
            if other.0 >= SIGN {
                other.0 <= self.0
            } else {
                true
            }
        } else if other.0 >= SIGN {
            self.0 == 0 && other.0 == SIGN
        } else {
            self.0 <= other.0
        }
    }

    /// The smaller of two numbers.
    pub fn smaller_of(self, other: Real) -> (r: Real)
        ensures
            r == smaller(self, other),
    {
        if other.nan() || self.at_most(other) {
            self
        } else {
            other
        }
    }

    /// The larger of two numbers.
    pub fn larger_of(self, other: Real) -> (r: Real)
        ensures
            r == larger(self, other),
    {
        if other.nan() || other.at_most(self) {
            self
        } else {
            other
        }
    }
}

/// Of two numbers the smaller is at most either, and the larger at least either.
pub proof fn smaller_and_larger_bound(a: Real, b: Real)
    requires
        !is_nan(a),
        !is_nan(b),
    ensures
        le(smaller(a, b), a),
        le(smaller(a, b), b),
        le(a, larger(a, b)),
        le(b, larger(a, b)),
{
}

/// The order is transitive.
pub proof fn order_is_transitive(a: Real, b: Real, c: Real)
    requires
        le(a, b),
        le(b, c),
    ensures
        le(a, c),
{
}

/// The order is the one of the numbers: among those without a sign it is the order of their patterns,
/// among those with one the reverse, one with a sign is at most one without, both zeros are equal, and
/// what is not a number is neither at most nor at least anything.
pub proof fn patterns_are_ordered_as_numbers(a: u64, b: u64)
    ensures
        a <= 0x7ff0_0000_0000_0000 && b <= 0x7ff0_0000_0000_0000 ==> (le(Real(a), Real(b)) <==> a
            <= b),
        0x8000_0000_0000_0000 <= a <= 0xfff0_0000_0000_0000 && 0x8000_0000_0000_0000 <= b
            <= 0xfff0_0000_0000_0000 ==> (le(Real(a), Real(b)) <==> b <= a),
        0x8000_0000_0000_0000 <= a <= 0xfff0_0000_0000_0000 && b <= 0x7ff0_0000_0000_0000 ==> le(
            Real(a),
            Real(b),
        ),
        a <= 0x7ff0_0000_0000_0000 && 0x8000_0000_0000_0000 <= b <= 0xfff0_0000_0000_0000 ==> (le(
            Real(a),
            Real(b),
        ) <==> a == 0 && b == 0x8000_0000_0000_0000),
        is_nan(Real(a)) <==> 0x7ff0_0000_0000_0000 < a < 0x8000_0000_0000_0000 || a
            > 0xfff0_0000_0000_0000,
        is_nan(Real(a)) ==> !le(Real(a), Real(b)) && !le(Real(b), Real(a)),
{
}

/// The smaller and the larger of two are one of the two; if one is not a number, the other.
pub proof fn smaller_and_larger_choose(a: Real, b: Real)
    ensures
        smaller(a, b) == a || smaller(a, b) == b,
        larger(a, b) == a || larger(a, b) == b,
        is_nan(a) ==> smaller(a, b) == b || is_nan(b),
        is_nan(a) ==> larger(a, b) == b || is_nan(b),
        is_nan(b) ==> smaller(a, b) == a && larger(a, b) == a,
{
}

} // verus!
