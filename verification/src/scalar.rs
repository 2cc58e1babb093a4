//! Single-precision numbers as bit patterns: their order, their signs and
//! the value that a pattern stands for.

use vstd::arithmetic::power2::{
    lemma_pow2_pos, lemma_pow2_strictly_increases, lemma_pow2_unfold, pow2,
};
use vstd::prelude::*;

verus! {

/// A single-precision binary number, held as its 32-bit pattern: one sign
/// bit, eight exponent bits and twenty-three fraction bits.
///
/// The library never computes with such a number itself. It orders them,
/// tests them, flips and clears their sign, and hands them to the arithmetic
/// unit of its caller; all of that is decided by the pattern alone.
#[derive(Clone, Copy, Debug, PartialEq, Eq, Structural)]
pub struct Scalar {
    pub bits: u32,
}

/// The sign bit of a pattern.
pub const SIGN_BIT: u32 = 0x8000_0000;

/// The weight of the lowest exponent bit of a pattern: two to the power of
/// twenty-three, one more than the largest fraction.
pub const FRACTION_RANGE: u32 = 0x0080_0000;

/// The pattern of positive infinity; every larger magnitude is not a number.
pub const INFINITY_BITS: u32 = 0x7f80_0000;

/// Zero.
pub const ZERO_BITS: u32 = 0x0000_0000;

/// One.
pub const ONE_BITS: u32 = 0x3f80_0000;

/// Minus one.
pub const MINUS_ONE_BITS: u32 = 0xbf80_0000;

/// One half.
pub const HALF_BITS: u32 = 0x3f00_0000;

/// Two.
pub const TWO_BITS: u32 = 0x4000_0000;

/// Three.
pub const THREE_BITS: u32 = 0x4040_0000;

/// Four.
pub const FOUR_BITS: u32 = 0x4080_0000;

/// Six.
pub const SIX_BITS: u32 = 0x40c0_0000;

/// Nine.
pub const NINE_BITS: u32 = 0x4110_0000;

/// Twenty-seven.
pub const TWENTY_SEVEN_BITS: u32 = 0x41d8_0000;

/// The nearest number to one hundredth.
pub const HUNDREDTH_BITS: u32 = 0x3c23_d70a;

/// The gap between one and the next larger number, two to the power of
/// minus twenty-three.
pub const EPSILON_BITS: u32 = 0x3400_0000;

/// The nearest number to the circle constant.
pub const PI_BITS: u32 = 0x4049_0fdb;

/// Five.
pub const FIVE_BITS: u32 = 0x40a0_0000;

/// Thirty.
pub const THIRTY_BITS: u32 = 0x41f0_0000;

/// One hundred.
pub const HUNDRED_BITS: u32 = 0x42c8_0000;

/// One hundred and eighty.
pub const HUNDRED_EIGHTY_BITS: u32 = 0x4334_0000;

/// The nearest number to one thousandth.
pub const THOUSANDTH_BITS: u32 = 0x3a83_126f;

impl Scalar {
    /// The pattern without its sign bit.
    pub open spec fn magnitude(self) -> u32 {
        if self.bits >= SIGN_BIT {
            (self.bits - SIGN_BIT) as u32
        } else {
            self.bits
        }
    }

    /// Whether the sign bit is set (also true of minus zero).
    pub open spec fn sign(self) -> bool {
        self.bits >= SIGN_BIT
    }

    /// Whether the pattern is not a number.
    pub open spec fn nan(self) -> bool {
        self.magnitude() > INFINITY_BITS
    }

    /// Whether the pattern is one of the two zeros.
    pub open spec fn zero(self) -> bool {
        self.magnitude() == 0
    }

    /// Whether the pattern is a number other than the two infinities.
    pub open spec fn finite(self) -> bool {
        self.magnitude() < INFINITY_BITS
    }

    /// The exponent bits of the pattern, from 0 to 255.
    pub open spec fn exponent_field(self) -> nat {
        (self.magnitude() / FRACTION_RANGE) as nat
    }

    /// The fraction bits of the pattern, below two to the power of
    /// twenty-three.
    pub open spec fn fraction_field(self) -> nat {
        (self.magnitude() % FRACTION_RANGE) as nat
    }

    /// The size of a number other than infinity, counted in the smallest
    /// size that a number can have, two to the power of minus 149. With the
    /// exponent bits at zero it is the fraction; with the exponent bits at
    /// `e` it is the fraction with a leading one before it, doubled `e - 1`
    /// times.
    pub open spec fn scaled_size(self) -> nat {
        if self.exponent_field() == 0 {
            self.fraction_field()
        } else {
            ((FRACTION_RANGE + self.fraction_field()) * pow2(
                (self.exponent_field() - 1) as nat,
            )) as nat
        }
    }

    /// The value of a number other than infinity, counted in the smallest
    /// size that a number can have: its size, taken below zero where the
    /// sign bit is set.
    pub open spec fn scaled_value(self) -> int {
        if self.sign() {
            -(self.scaled_size() as int)
        } else {
            self.scaled_size() as int
        }
    }

    /// An integer that orders the numbers as their values are ordered: the
    /// two zeros share the key 0, a larger value has a larger key, and the
    /// keys of the two infinities bound all others.
    pub open spec fn order_key(self) -> int {
        if self.sign() {
            -(self.magnitude() as int)
        } else {
            self.magnitude() as int
        }
    }

    /// `self < other` as numbers; false as soon as one is not a number.
    pub open spec fn below(self, other: Scalar) -> bool {
        !self.nan() && !other.nan() && self.order_key() < other.order_key()
    }

    /// `self <= other` as numbers; false as soon as one is not a number.
    pub open spec fn at_most(self, other: Scalar) -> bool {
        !self.nan() && !other.nan() && self.order_key() <= other.order_key()
    }

    /// `self == other` as numbers: the two zeros are equal, and what is not
    /// a number equals nothing.
    pub open spec fn same(self, other: Scalar) -> bool {
        !self.nan() && !other.nan() && self.order_key() == other.order_key()
    }

    /// The number with its sign bit cleared.
    pub open spec fn absolute(self) -> Scalar {
        Scalar { bits: self.magnitude() }
    }

    /// The number with its sign bit flipped.
    pub open spec fn negated(self) -> Scalar {
        if self.sign() {
            Scalar { bits: self.magnitude() }
        } else {
            Scalar { bits: (self.bits + SIGN_BIT) as u32 }
        }
    }

    /// The larger of two numbers; where one is not a number, the other.
    pub open spec fn larger(self, other: Scalar) -> Scalar {
        if self.nan() || self.below(other) {
            other
        } else {
            self
        }
    }

    /// The smaller of two numbers; where one is not a number, the other.
    pub open spec fn smaller(self, other: Scalar) -> Scalar {
        if self.nan() || other.below(self) {
            other
        } else {
            self
        }
    }

    /// The number held to the range from `low` to `high`; what is not a
    /// number stays as it is.
    pub open spec fn clamped(self, low: Scalar, high: Scalar) -> Scalar {
        if self.below(low) {
            low
        } else if high.below(self) {
            high
        } else {
            self
        }
    }

    /// Whether the number lies between zero and one, both included.
    pub open spec fn in_unit_interval(self) -> bool {
        Scalar { bits: ZERO_BITS }.at_most(self) && self.at_most(Scalar { bits: ONE_BITS })
    }

    /// The number with the given pattern.
    pub open spec fn with_bits(bits: u32) -> Scalar {
        Scalar { bits }
    }

    /// The number with the given pattern.
    #[verifier::when_used_as_spec(with_bits)]
    pub fn from_bits(bits: u32) -> (s: Scalar)
        ensures
            s == Scalar::with_bits(bits),
    {
        Scalar { bits }
    }

    /// The pattern of the number.
    pub fn to_bits(self) -> (bits: u32)
        ensures
            bits == self.bits,
    {
        self.bits
    }

    fn magnitude_bits(self) -> (m: u32)
        ensures
            m == self.magnitude(),
            m <= 0x7fff_ffff,
    {
        if self.bits >= SIGN_BIT {
            self.bits - SIGN_BIT
        } else {
            self.bits
        }
    }

    /// Tests whether the sign bit is set.
    #[verifier::when_used_as_spec(sign)]
    pub fn is_sign_negative(self) -> (r: bool)
        ensures
            r == self.sign(),
    {
        self.bits >= SIGN_BIT
    }

    /// Tests whether the pattern is not a number.
    #[verifier::when_used_as_spec(nan)]
    pub fn is_nan(self) -> (r: bool)
        ensures
            r == self.nan(),
    {
        self.magnitude_bits() > INFINITY_BITS
    }

    /// Tests whether the pattern is one of the two zeros.
    #[verifier::when_used_as_spec(zero)]
    pub fn is_zero(self) -> (r: bool)
        ensures
            r == self.zero(),
    {
        self.magnitude_bits() == 0
    }

    /// Tests whether the pattern is a number other than the two infinities.
    #[verifier::when_used_as_spec(finite)]
    pub fn is_finite(self) -> (r: bool)
        ensures
            r == self.finite(),
    {
        self.magnitude_bits() < INFINITY_BITS
    }

    /// `self < other` as numbers.
    #[verifier::when_used_as_spec(below)]
    pub fn lt(self, other: Scalar) -> (r: bool)
        ensures
            r == self.below(other),
    {
        let a: u32 = self.magnitude_bits();
        let b: u32 = other.magnitude_bits();
        if a > INFINITY_BITS || b > INFINITY_BITS {
            false
        } else if self.is_sign_negative() {
            if other.is_sign_negative() {
                a > b
            } else {
                a > 0 || b > 0
            }
        } else {
            !other.is_sign_negative() && a < b
        }
    }

    /// `self <= other` as numbers.
    #[verifier::when_used_as_spec(at_most)]
    pub fn le(self, other: Scalar) -> (r: bool)
        ensures
            r == self.at_most(other),
    {
        let a: u32 = self.magnitude_bits();
        let b: u32 = other.magnitude_bits();
        if a > INFINITY_BITS || b > INFINITY_BITS {
            false
        } else if self.is_sign_negative() {
            if other.is_sign_negative() {
                a >= b
            } else {
                true
            }
        } else if other.is_sign_negative() {
            a == 0 && b == 0
        } else {
            a <= b
        }
    }

    /// `self > other` as numbers.
    pub fn gt(self, other: Scalar) -> (r: bool)
        ensures
            r == other.below(self),
    {
        other.lt(self)
    }

    /// `self >= other` as numbers.
    pub fn ge(self, other: Scalar) -> (r: bool)
        ensures
            r == other.at_most(self),
    {
        other.le(self)
    }

    /// `self == other` as numbers.
    #[verifier::when_used_as_spec(same)]
    pub fn eq_value(self, other: Scalar) -> (r: bool)
        ensures
            r == self.same(other),
    {
        let a: u32 = self.magnitude_bits();
        let b: u32 = other.magnitude_bits();
        if a > INFINITY_BITS || b > INFINITY_BITS {
            false
        } else if a == 0 && b == 0 {
            true
        } else {
            self.bits == other.bits
        }
    }

    /// The number with its sign bit cleared.
    #[verifier::when_used_as_spec(absolute)]
    pub fn abs(self) -> (r: Scalar)
        ensures
            r == self.absolute(),
    {
        Scalar { bits: self.magnitude_bits() }
    }

    /// The number with its sign bit flipped.
    #[verifier::when_used_as_spec(negated)]
    pub fn neg(self) -> (r: Scalar)
        ensures
            r == self.negated(),
    {
        if self.bits >= SIGN_BIT {
            Scalar { bits: self.bits - SIGN_BIT }
        } else {
            Scalar { bits: self.bits + SIGN_BIT }
        }
    }

    /// The larger of two numbers; where one is not a number, the other.
    #[verifier::when_used_as_spec(larger)]
    pub fn max(self, other: Scalar) -> (r: Scalar)
        ensures
            r == self.larger(other),
    {
        if self.is_nan() || self.lt(other) {
            other
        } else {
            self
        }
    }

    /// The smaller of two numbers; where one is not a number, the other.
    #[verifier::when_used_as_spec(smaller)]
    pub fn min(self, other: Scalar) -> (r: Scalar)
        ensures
            r == self.smaller(other),
    {
        if self.is_nan() || other.lt(self) {
            other
        } else {
            self
        }
    }

    /// The number held to the range from `low` to `high`.
    #[verifier::when_used_as_spec(clamped)]
    pub fn clamp(self, low: Scalar, high: Scalar) -> (r: Scalar)
        ensures
            r == self.clamped(low, high),
    {
        if self.lt(low) {
            low
        } else if high.lt(self) {
            high
        } else {
            self
        }
    }
}

/// The order of the keys is a total preorder on the numbers: of two numbers
/// exactly one of "below", "same" and "above" holds, and "at most" is "below
/// or same".
pub proof fn lemma_order_is_total(a: Scalar, b: Scalar)
    requires
        !a.nan(),
        !b.nan(),
    ensures
        a.below(b) || a.same(b) || b.below(a),
        !(a.below(b) && a.same(b)),
        !(a.below(b) && b.below(a)),
        !(a.same(b) && b.below(a)),
        a.at_most(b) <==> (a.below(b) || a.same(b)),
{
}

/// "Below" and "at most" are transitive.
pub proof fn lemma_order_is_transitive(a: Scalar, b: Scalar, c: Scalar)
    ensures
        a.below(b) && b.below(c) ==> a.below(c),
        a.at_most(b) && b.at_most(c) ==> a.at_most(c),
        a.below(b) && b.at_most(c) ==> a.below(c),
        a.at_most(b) && b.below(c) ==> a.below(c),
{
}

/// Clamping between two ordered bounds gives a number between them, unless
/// the input is not a number, which clamping hands back.
pub proof fn lemma_clamped_is_within(x: Scalar, low: Scalar, high: Scalar)
    requires
        low.at_most(high),
    ensures
        x.nan() ==> x.clamped(low, high) == x,
        !x.nan() ==> low.at_most(x.clamped(low, high)) && x.clamped(low, high).at_most(high),
{
}

/// The sign operations keep the magnitude: the absolute value is never
/// negative, negation is its own inverse, and a number and its negation
/// have opposite keys.
pub proof fn lemma_sign_operations(x: Scalar)
    ensures
        x.absolute().magnitude() == x.magnitude(),
        !x.absolute().sign(),
        x.negated().magnitude() == x.magnitude(),
        x.negated().sign() == !x.sign(),
        x.negated().negated() == x,
        x.negated().order_key() == -x.order_key(),
        x.absolute().nan() == x.nan(),
        x.negated().nan() == x.nan(),
{
}

/// Of two numbers other than infinity, the one with the larger pattern,
/// signs left aside, has the larger size.
pub proof fn lemma_size_grows_with_magnitude(a: Scalar, b: Scalar)
    requires
        a.finite(),
        b.finite(),
        a.magnitude() < b.magnitude(),
    ensures
        a.scaled_size() < b.scaled_size(),
{
    let ea = a.exponent_field();
    let eb = b.exponent_field();
    let fa = a.fraction_field();
    let fb = b.fraction_field();
    let range = FRACTION_RANGE as int;
    assert(a.magnitude() == ea * range + fa && fa < range) by {
        assert(a.magnitude() as int == (a.magnitude() as int / range) * range + a.magnitude() as int
            % range);
    }
    assert(b.magnitude() == eb * range + fb && fb < range) by {
        assert(b.magnitude() as int == (b.magnitude() as int / range) * range + b.magnitude() as int
            % range);
    }
    assert(ea <= eb) by (nonlinear_arith)
        requires
            ea * range + fa < eb * range + fb,
            0 <= fa < range,
            0 <= fb < range,
            0 <= ea,
            0 <= eb,
    ;
    if ea == eb {
        assert(fa < fb);
        if ea != 0 {
            let p = pow2((ea - 1) as nat) as int;
            lemma_pow2_pos((ea - 1) as nat);
            assert((range + fa) * p < (range + fb) * p) by (nonlinear_arith)
                requires
                    fa < fb,
                    p > 0,
            ;
        }
    } else {
        // the smaller stays below the leading one of the larger
        let low = pow2(ea) as int;
        let high = pow2((eb - 1) as nat) as int;
        lemma_pow2_pos(ea);
        assert(low <= high) by {
            if ea < eb - 1 {
                lemma_pow2_strictly_increases(ea, (eb - 1) as nat);
            }
        }
        assert(a.scaled_size() < range * low) by {
            if ea == 0 {
                assert(pow2(0) == 1) by {
                    lemma_pow2_unfold(1);
                    vstd::arithmetic::power2::lemma2_to64();
                }
                assert(range * low == range) by (nonlinear_arith)
                    requires
                        low == 1,
                ;
            } else {
                let p = pow2((ea - 1) as nat) as int;
                lemma_pow2_pos((ea - 1) as nat);
                lemma_pow2_unfold(ea);
                assert(low == 2 * p);
                assert((range + fa) * p < range * (2 * p)) by (nonlinear_arith)
                    requires
                        0 <= fa < range,
                        p > 0,
                ;
            }
        }
        assert(range * low <= (range + fb) * high) by (nonlinear_arith)
            requires
                0 < low <= high,
                0 <= fb,
                range > 0,
        ;
    }
}

/// The order of the keys is the order of the values: of two numbers other
/// than infinity, the key of the first is below, at or above that of the
/// second exactly where its value is.
pub proof fn lemma_keys_order_as_values(a: Scalar, b: Scalar)
    requires
        a.finite(),
        b.finite(),
    ensures
        a.order_key() < b.order_key() <==> a.scaled_value() < b.scaled_value(),
        a.order_key() == b.order_key() <==> a.scaled_value() == b.scaled_value(),
        a.below(b) <==> a.scaled_value() < b.scaled_value(),
        a.same(b) <==> a.scaled_value() == b.scaled_value(),
        a.zero() <==> a.scaled_value() == 0,
{
    let zero = Scalar { bits: 0 };
    if a.magnitude() < b.magnitude() {
        lemma_size_grows_with_magnitude(a, b);
    }
    if b.magnitude() < a.magnitude() {
        lemma_size_grows_with_magnitude(b, a);
    }
    if 0 < a.magnitude() {
        lemma_size_grows_with_magnitude(zero, a);
    }
    if 0 < b.magnitude() {
        lemma_size_grows_with_magnitude(zero, b);
    }
    assert(a.magnitude() == b.magnitude() ==> a.scaled_size() == b.scaled_size());
    assert(zero.scaled_size() == 0);
    assert(a.magnitude() == 0 ==> a.scaled_size() == 0);
    assert(b.magnitude() == 0 ==> b.scaled_size() == 0);
}

/// The two infinities bound the numbers: every other number lies strictly
/// between them.
pub proof fn lemma_infinities_bound(x: Scalar)
    requires
        x.finite(),
    ensures
        (Scalar { bits: (INFINITY_BITS + SIGN_BIT) as u32 }).below(x),
        x.below(Scalar { bits: INFINITY_BITS }),
{
}

} // verus!
