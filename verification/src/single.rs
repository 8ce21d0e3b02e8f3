//! Single-precision numbers, carried by their bit patterns.
//!
//! The library never computes with such a number. It stores one, hands it on, and compares two of
//! them the way the IEEE 754 binary32 format orders them.
use vstd::prelude::*;

verus! {

/// A binary32 number by its bits: the sign, eight bits of exponent and 23 bits of fraction.
#[derive(Clone, Copy, Debug, PartialEq, Eq, Structural)]
pub struct Single {
    pub bits: u32,
}

impl Single {
    /// The bits without the sign.
    pub open spec fn magnitude(self) -> int {
        self.bits as int % 0x8000_0000
    }

    /// Whether the sign bit is set.
    pub open spec fn negative(self) -> bool {
        self.bits >= 0x8000_0000
    }

    /// Whether the bits stand for no number.
    pub open spec fn nan(self) -> bool {
        self.magnitude() > 0x7f80_0000
    }

    /// The place of a number in the order of all of them. Both zeros have the same one.
    pub open spec fn rank(self) -> int {
        if self.negative() {
            -self.magnitude()
        } else {
            self.magnitude()
        }
    }

    /// `self < other`: false wherever one of them is no number.
    pub open spec fn below(self, other: Single) -> bool {
        !self.nan() && !other.nan() && self.rank() < other.rank()
    }

    /// `self <= other`: false wherever one of them is no number.
    pub open spec fn at_most(self, other: Single) -> bool {
        !self.nan() && !other.nan() && self.rank() <= other.rank()
    }

    /// The number without its sign.
    pub open spec fn unsigned(self) -> Single {
        Single { bits: self.magnitude() as u32 }
    }

    /// The larger of two numbers; where one of them is no number, the other.
    pub open spec fn larger(self, other: Single) -> Single {
        if self.nan() {
            other
        } else if other.nan() {
            self
        } else if self.rank() < other.rank() {
            other
        } else {
            self
        }
    }

    /// Whether a positive normal number is the one nearest to `num / den`. Its bits are an exponent
    /// `e` and a fraction `f`, and its value is `(2^23 + f) * 2^(e - 150)`; for the numbers up to
    /// `2^24` that are meant here, `e` is at most 150.
    pub open spec fn nearest_to(self, num: int, den: int) -> bool {
        let e = self.bits as int / 0x80_0000;
        let f = self.bits as int % 0x80_0000;
        let scaled = num * vstd::arithmetic::power2::pow2((150 - e) as nat);
        let value = (0x80_0000 + f) * den;
        &&& 1 <= e <= 150
        &&& 0 < den
        &&& 2 * (scaled - value) < den
        &&& 2 * (value - scaled) < den
        &&& f == 0 ==> 4 * (value - scaled) < den
    }

    /// Whether `self` is smaller than `other`.
    pub fn lt(self, other: Single) -> (r: bool)
        ensures
            r == self.below(other),
    {
        !self.is_nan() && !other.is_nan() && self.ordinal() < other.ordinal()
    }

    /// Whether `self` is smaller than `other`, or as large.
    pub fn le(self, other: Single) -> (r: bool)
        ensures
            r == self.at_most(other),
    {
        !self.is_nan() && !other.is_nan() && self.ordinal() <= other.ordinal()
    }

    /// The number without its sign.
    pub fn abs(self) -> (r: Single)
        ensures
            r == self.unsigned(),
    {
        Single { bits: self.bits % 0x8000_0000 }
    }

    /// The larger of two numbers; where one of them is no number, the other.
    pub fn max(self, other: Single) -> (r: Single)
        ensures
            r == self.larger(other),
    {
        if self.is_nan() {
            other
        } else if other.is_nan() {
            self
        } else if self.ordinal() < other.ordinal() {
            other
        } else {
            self
        }
    }

    fn is_nan(self) -> (r: bool)
        ensures
            r == self.nan(),
    {
        self.bits % 0x8000_0000 > 0x7f80_0000
    }

    fn ordinal(self) -> (r: i64)
        ensures
            r == self.rank(),
    {
        let magnitude: i64 = (self.bits % 0x8000_0000) as i64;
        if self.bits >= 0x8000_0000 {
            -magnitude
        } else {
            magnitude
        }
    }
}

// ---------------------------------------------------------------------------
// Laws
// ---------------------------------------------------------------------------

/// Whether the bits stand for a number: the exponent is not full, or there is no fraction behind it.
pub open spec fn is_number(s: Single) -> bool {
    (s.bits as int / 0x80_0000) % 0x100 != 0xff || s.bits as int % 0x80_0000 == 0
}

/// What a number is worth, without its sign and in units of `2^-149`: its fraction, behind a leading
/// one and shifted by its exponent where that is not zero. Infinity is worth more than all others.
pub open spec fn worth(s: Single) -> int {
    let e = (s.bits as int / 0x80_0000) % 0x100;
    let f = s.bits as int % 0x80_0000;
    if e == 0 {
        f
    } else {
        (0x80_0000 + f) * vstd::arithmetic::power2::pow2((e - 1) as nat)
    }
}

/// The value of a number in units of `2^-149`.
pub open spec fn value(s: Single) -> int {
    if s.bits >= 0x8000_0000 {
        -worth(s)
    } else {
        worth(s)
    }
}

/// Larger bits without a sign are worth more.
proof fn larger_bits_are_worth_more(a: Single, b: Single)
    requires
        a.bits as int % 0x8000_0000 < b.bits as int % 0x8000_0000,
    ensures
        0 <= worth(a) < worth(b),
{
    let e1 = (a.bits as int / 0x80_0000) % 0x100;
    let f1 = a.bits as int % 0x80_0000;
    let e2 = (b.bits as int / 0x80_0000) % 0x100;
    let f2 = b.bits as int % 0x80_0000;
    assert(a.bits as int % 0x8000_0000 == e1 * 0x80_0000 + f1);
    assert(b.bits as int % 0x8000_0000 == e2 * 0x80_0000 + f2);
    if e1 > 0 {
        let p1 = vstd::arithmetic::power2::pow2((e1 - 1) as nat) as int;
        let p2 = vstd::arithmetic::power2::pow2((e2 - 1) as nat) as int;
        vstd::arithmetic::power2::lemma_pow2_pos((e1 - 1) as nat);
        assert(0 <= (0x80_0000 + f1) * p1) by (nonlinear_arith)
            requires
                0 <= f1,
                0 < p1,
        ;
        if e1 == e2 {
            assert((0x80_0000 + f1) * p1 < (0x80_0000 + f2) * p1) by (nonlinear_arith)
                requires
                    f1 < f2,
                    0 < p1,
            ;
        } else {
            let p = vstd::arithmetic::power2::pow2(e1 as nat) as int;
            vstd::arithmetic::power2::lemma_pow2_unfold(e1 as nat);
            assert(p == 2 * p1);
            if e1 < e2 - 1 {
                vstd::arithmetic::power2::lemma_pow2_strictly_increases(
                    e1 as nat,
                    (e2 - 1) as nat,
                );
            }
            assert((0x80_0000 + f1) * p1 < (0x80_0000 + f2) * p2) by (nonlinear_arith)
                requires
                    0 <= f1 < 0x80_0000,
                    0 <= f2,
                    0 < p1,
                    2 * p1 <= p2,
            ;
        }
    } else if e2 > 0 {
        let p2 = vstd::arithmetic::power2::pow2((e2 - 1) as nat) as int;
        vstd::arithmetic::power2::lemma_pow2_pos((e2 - 1) as nat);
        assert(f1 < (0x80_0000 + f2) * p2) by (nonlinear_arith)
            requires
                f1 < 0x80_0000,
                0 <= f2,
                0 < p2,
        ;
    }
}

/// Numbers are ordered by their values, and what is no number stands in no order to anything.
pub proof fn order_is_that_of_the_values(a: Single, b: Single)
    ensures
        a.nan() <==> !is_number(a),
        a.below(b) <==> is_number(a) && is_number(b) && value(a) < value(b),
        a.at_most(b) <==> is_number(a) && is_number(b) && value(a) <= value(b),
{
    let m = a.bits as int % 0x8000_0000;
    let n = b.bits as int % 0x8000_0000;
    let zero = Single { bits: 0 };
    if m < n {
        larger_bits_are_worth_more(a, b);
    } else if n < m {
        larger_bits_are_worth_more(b, a);
    }
    if 0 < m {
        larger_bits_are_worth_more(zero, a);
    }
    if 0 < n {
        larger_bits_are_worth_more(zero, b);
    }
}

/// Without its sign a number is worth the same and is not below zero.
pub proof fn unsigned_keeps_the_worth(a: Single)
    ensures
        is_number(a.unsigned()) <==> is_number(a),
        worth(a.unsigned()) == worth(a),
        value(a.unsigned()) == worth(a),
        0 <= worth(a),
{
    let zero = Single { bits: 0 };
    if 0 < a.bits as int % 0x8000_0000 {
        larger_bits_are_worth_more(zero, a);
    }
}

/// The larger of two numbers is one of them that none of them exceeds, and of a number and something
/// that is none it is the number.
pub proof fn larger_is_the_larger(a: Single, b: Single)
    ensures
        a.larger(b) == a || a.larger(b) == b,
        is_number(a) || is_number(b) ==> is_number(a.larger(b)),
        is_number(a) ==> value(a) <= value(a.larger(b)),
        is_number(b) ==> value(b) <= value(a.larger(b)),
{
    order_is_that_of_the_values(a, b);
    order_is_that_of_the_values(b, a);
    order_is_that_of_the_values(a, a);
}

} // verus!
