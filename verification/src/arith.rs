//! The arithmetic unit that the library's caller hands in, and what the
//! library asks of it.

use crate::scalar::Scalar;
use crate::scalar::{HUNDRED_EIGHTY_BITS, ONE_BITS, PI_BITS, ZERO_BITS};
use vstd::prelude::*;

verus! {

/// The operations that the library asks of its arithmetic unit. Those with
/// one operand take it first; the unit is free to ignore the second.
#[derive(Clone, Copy, Debug, PartialEq, Eq, Structural)]
pub enum Op {
    /// First plus second.
    Add,
    /// First minus second.
    Sub,
    /// First times second.
    Mul,
    /// First divided by second.
    Div,
    /// Square root of the first.
    Sqrt,
    /// Cube root of the first.
    Cbrt,
    /// First raised to the power of the second.
    Pow,
    /// Sine of the first, an angle in radians.
    Sin,
    /// Cosine of the first, an angle in radians.
    Cos,
    /// Arc cosine of the first, in radians.
    Acos,
    /// Four-quadrant arc tangent of first over second, in radians.
    Atan2,
}

/// What the library asks of an arithmetic unit: that it accepts every
/// operation on every pair of operands, and that the same operation on the
/// same operands always gives the same result.
pub open spec fn well_behaved<A: Fn(Op, Scalar, Scalar) -> Scalar>(unit: A) -> bool {
    &&& forall|op: Op, a: Scalar, b: Scalar| call_requires(unit, (op, a, b))
    &&& forall|op: Op, a: Scalar, b: Scalar, r1: Scalar, r2: Scalar|
        call_ensures(unit, (op, a, b), r1) && call_ensures(unit, (op, a, b), r2) ==> r1 == r2
}

/// The result that `unit` gives for `op` on `a` and `b`.
pub open spec fn result_of<A: Fn(Op, Scalar, Scalar) -> Scalar>(
    unit: A,
    op: Op,
    a: Scalar,
    b: Scalar,
) -> Scalar {
    choose|r: Scalar| call_ensures(unit, (op, a, b), r)
}

/// Runs one operation on the unit.
pub fn apply<A: Fn(Op, Scalar, Scalar) -> Scalar>(unit: &A, op: Op, a: Scalar, b: Scalar) -> (r:
    Scalar)
    requires
        well_behaved(*unit),
    ensures
        r == result_of(*unit, op, a, b),
{
    unit(op, a, b)
}

/// What the unit gives for `a + b`.
pub open spec fn plus_of<A: Fn(Op, Scalar, Scalar) -> Scalar>(
    unit: &A,
    a: Scalar,
    b: Scalar,
) -> Scalar {
    result_of(*unit, Op::Add, a, b)
}

/// What the unit gives for `a - b`.
pub open spec fn minus_of<A: Fn(Op, Scalar, Scalar) -> Scalar>(
    unit: &A,
    a: Scalar,
    b: Scalar,
) -> Scalar {
    result_of(*unit, Op::Sub, a, b)
}

/// What the unit gives for `a * b`.
pub open spec fn times_of<A: Fn(Op, Scalar, Scalar) -> Scalar>(
    unit: &A,
    a: Scalar,
    b: Scalar,
) -> Scalar {
    result_of(*unit, Op::Mul, a, b)
}

/// What the unit gives for `a / b`.
pub open spec fn over_of<A: Fn(Op, Scalar, Scalar) -> Scalar>(
    unit: &A,
    a: Scalar,
    b: Scalar,
) -> Scalar {
    result_of(*unit, Op::Div, a, b)
}

/// What the unit gives for the square root of `a`.
pub open spec fn sqrt_of<A: Fn(Op, Scalar, Scalar) -> Scalar>(unit: &A, a: Scalar) -> Scalar {
    result_of(*unit, Op::Sqrt, a, a)
}

/// What the unit gives for the cube root of `a`.
pub open spec fn cbrt_of<A: Fn(Op, Scalar, Scalar) -> Scalar>(unit: &A, a: Scalar) -> Scalar {
    result_of(*unit, Op::Cbrt, a, a)
}

/// What the unit gives for `a` to the power `b`.
pub open spec fn powf_of<A: Fn(Op, Scalar, Scalar) -> Scalar>(
    unit: &A,
    a: Scalar,
    b: Scalar,
) -> Scalar {
    result_of(*unit, Op::Pow, a, b)
}

/// What the unit gives for the sine of `a`.
pub open spec fn sin_of<A: Fn(Op, Scalar, Scalar) -> Scalar>(unit: &A, a: Scalar) -> Scalar {
    result_of(*unit, Op::Sin, a, a)
}

/// What the unit gives for the cosine of `a`.
pub open spec fn cos_of<A: Fn(Op, Scalar, Scalar) -> Scalar>(unit: &A, a: Scalar) -> Scalar {
    result_of(*unit, Op::Cos, a, a)
}

/// What the unit gives for the arc cosine of `a`.
pub open spec fn acos_of<A: Fn(Op, Scalar, Scalar) -> Scalar>(unit: &A, a: Scalar) -> Scalar {
    result_of(*unit, Op::Acos, a, a)
}

/// What the unit gives for the four-quadrant arc tangent of `a / b`.
pub open spec fn atan2_of<A: Fn(Op, Scalar, Scalar) -> Scalar>(
    unit: &A,
    a: Scalar,
    b: Scalar,
) -> Scalar {
    result_of(*unit, Op::Atan2, a, b)
}

/// An angle in degrees as radians: the hundred-and-eightieth part of the
/// angle, times the circle constant.
///
/// The division comes first. The product of the angle with the rounded
/// hundred-and-eightieth part of the circle constant is another formula: on
/// many angles it differs from this one in the last place, on ten degrees
/// for one.
pub open spec fn to_radians_of<A: Fn(Op, Scalar, Scalar) -> Scalar>(
    unit: &A,
    a: Scalar,
) -> Scalar {
    times_of(
        unit,
        over_of(unit, a, Scalar::from_bits(HUNDRED_EIGHTY_BITS)),
        Scalar::from_bits(PI_BITS),
    )
}

/// `a + b` on the unit.
#[verifier::when_used_as_spec(plus_of)]
pub fn plus<A: Fn(Op, Scalar, Scalar) -> Scalar>(unit: &A, a: Scalar, b: Scalar) -> (r: Scalar)
    requires
        well_behaved(*unit),
    ensures
        r == plus_of(unit, a, b),
{
    apply(unit, Op::Add, a, b)
}

/// `a - b` on the unit.
#[verifier::when_used_as_spec(minus_of)]
pub fn minus<A: Fn(Op, Scalar, Scalar) -> Scalar>(unit: &A, a: Scalar, b: Scalar) -> (r: Scalar)
    requires
        well_behaved(*unit),
    ensures
        r == minus_of(unit, a, b),
{
    apply(unit, Op::Sub, a, b)
}

/// `a * b` on the unit.
#[verifier::when_used_as_spec(times_of)]
pub fn times<A: Fn(Op, Scalar, Scalar) -> Scalar>(unit: &A, a: Scalar, b: Scalar) -> (r: Scalar)
    requires
        well_behaved(*unit),
    ensures
        r == times_of(unit, a, b),
{
    apply(unit, Op::Mul, a, b)
}

/// `a / b` on the unit.
#[verifier::when_used_as_spec(over_of)]
pub fn over<A: Fn(Op, Scalar, Scalar) -> Scalar>(unit: &A, a: Scalar, b: Scalar) -> (r: Scalar)
    requires
        well_behaved(*unit),
    ensures
        r == over_of(unit, a, b),
{
    apply(unit, Op::Div, a, b)
}

/// The square root of `a` on the unit.
#[verifier::when_used_as_spec(sqrt_of)]
pub fn sqrt<A: Fn(Op, Scalar, Scalar) -> Scalar>(unit: &A, a: Scalar) -> (r: Scalar)
    requires
        well_behaved(*unit),
    ensures
        r == sqrt_of(unit, a),
{
    apply(unit, Op::Sqrt, a, a)
}

/// The cube root of `a` on the unit.
#[verifier::when_used_as_spec(cbrt_of)]
pub fn cbrt<A: Fn(Op, Scalar, Scalar) -> Scalar>(unit: &A, a: Scalar) -> (r: Scalar)
    requires
        well_behaved(*unit),
    ensures
        r == cbrt_of(unit, a),
{
    apply(unit, Op::Cbrt, a, a)
}

/// `a` to the power `b` on the unit.
#[verifier::when_used_as_spec(powf_of)]
pub fn powf<A: Fn(Op, Scalar, Scalar) -> Scalar>(unit: &A, a: Scalar, b: Scalar) -> (r: Scalar)
    requires
        well_behaved(*unit),
    ensures
        r == powf_of(unit, a, b),
{
    apply(unit, Op::Pow, a, b)
}

/// The sine of `a` on the unit.
#[verifier::when_used_as_spec(sin_of)]
pub fn sin<A: Fn(Op, Scalar, Scalar) -> Scalar>(unit: &A, a: Scalar) -> (r: Scalar)
    requires
        well_behaved(*unit),
    ensures
        r == sin_of(unit, a),
{
    apply(unit, Op::Sin, a, a)
}

/// The cosine of `a` on the unit.
#[verifier::when_used_as_spec(cos_of)]
pub fn cos<A: Fn(Op, Scalar, Scalar) -> Scalar>(unit: &A, a: Scalar) -> (r: Scalar)
    requires
        well_behaved(*unit),
    ensures
        r == cos_of(unit, a),
{
    apply(unit, Op::Cos, a, a)
}

/// The arc cosine of `a` on the unit.
#[verifier::when_used_as_spec(acos_of)]
pub fn acos<A: Fn(Op, Scalar, Scalar) -> Scalar>(unit: &A, a: Scalar) -> (r: Scalar)
    requires
        well_behaved(*unit),
    ensures
        r == acos_of(unit, a),
{
    apply(unit, Op::Acos, a, a)
}

/// The four-quadrant arc tangent of `a / b` on the unit.
#[verifier::when_used_as_spec(atan2_of)]
pub fn atan2<A: Fn(Op, Scalar, Scalar) -> Scalar>(unit: &A, a: Scalar, b: Scalar) -> (r: Scalar)
    requires
        well_behaved(*unit),
    ensures
        r == atan2_of(unit, a, b),
{
    apply(unit, Op::Atan2, a, b)
}

/// `a`, in degrees, as radians.
#[verifier::when_used_as_spec(to_radians_of)]
pub fn to_radians<A: Fn(Op, Scalar, Scalar) -> Scalar>(unit: &A, a: Scalar) -> (r: Scalar)
    requires
        well_behaved(*unit),
    ensures
        r == to_radians_of(unit, a),
{
    let part = over(unit, a, Scalar::from_bits(HUNDRED_EIGHTY_BITS));
    times(unit, part, Scalar::from_bits(PI_BITS))
}

/// Whether `unit` is exact where the exact result is a number at hand, as
/// arithmetic is that rounds each result to the nearest number:
/// a number times zero is zero, a number plus zero is that number, a number
/// minus itself is zero, zero divided by a number other than zero is zero,
/// a number times one is that number, and a number other than zero divided
/// by itself is one. Of infinity only what holds of it is asked.
pub open spec fn exact_at_zero_and_one<A: Fn(Op, Scalar, Scalar) -> Scalar>(unit: &A) -> bool {
    &&& forall|x: Scalar, z: Scalar|
        x.finite() && z.zero() ==> (#[trigger] times_of(unit, x, z)).zero()
    &&& forall|x: Scalar, z: Scalar|
        !x.nan() && z.zero() ==> (#[trigger] plus_of(unit, x, z)).same(x)
    &&& forall|x: Scalar| x.finite() ==> (#[trigger] minus_of(unit, x, x)).zero()
    &&& forall|z: Scalar, d: Scalar|
        z.zero() && !d.nan() && !d.zero() ==> (#[trigger] over_of(unit, z, d)).zero()
    &&& forall|x: Scalar|
        !x.nan() ==> #[trigger] times_of(unit, x, Scalar::from_bits(ONE_BITS)) == x
    &&& forall|x: Scalar|
        x.finite() && !x.zero() ==> #[trigger] over_of(unit, x, x) == Scalar::from_bits(ONE_BITS)
}

/// Whether `unit` keeps the order of its operands, as arithmetic does that
/// rounds each result to the nearest number: where both results are
/// numbers, the larger operand gives the larger or the same result, in a
/// sum, in a difference, in a quotient by a number above zero and in a
/// product with a number that is not below zero; in a product with a number
/// that is not above zero it gives the smaller or the same result.
pub open spec fn keeps_order<A: Fn(Op, Scalar, Scalar) -> Scalar>(unit: &A) -> bool {
    &&& forall|c: Scalar, a: Scalar, b: Scalar|
        a.le(b) && !(#[trigger] plus_of(unit, c, a)).nan() && !(#[trigger] plus_of(
            unit,
            c,
            b,
        )).nan() ==> plus_of(unit, c, a).le(plus_of(unit, c, b))
    &&& forall|a: Scalar, b: Scalar, c: Scalar|
        a.le(b) && !(#[trigger] minus_of(unit, a, c)).nan() && !(#[trigger] minus_of(
            unit,
            b,
            c,
        )).nan() ==> minus_of(unit, a, c).le(minus_of(unit, b, c))
    &&& forall|a: Scalar, b: Scalar, d: Scalar|
        a.le(b) && Scalar::from_bits(ZERO_BITS).lt(d) && !(#[trigger] over_of(unit, a, d)).nan()
            && !(#[trigger] over_of(unit, b, d)).nan() ==> over_of(unit, a, d).le(
            over_of(unit, b, d),
        )
    &&& forall|c: Scalar, a: Scalar, b: Scalar|
        a.le(b) && Scalar::from_bits(ZERO_BITS).le(c) && !(#[trigger] times_of(unit, c, a)).nan()
            && !(#[trigger] times_of(unit, c, b)).nan() ==> times_of(unit, c, a).le(
            times_of(unit, c, b),
        )
    &&& forall|c: Scalar, a: Scalar, b: Scalar|
        a.le(b) && c.le(Scalar::from_bits(ZERO_BITS)) && !(#[trigger] times_of(unit, c, a)).nan()
            && !(#[trigger] times_of(unit, c, b)).nan() ==> times_of(unit, c, b).le(
            times_of(unit, c, a),
        )
}

/// Whether `unit` divides numbers into numbers, as arithmetic does that
/// rounds each result to the nearest number: a number divided by a number
/// other than zero and infinity is a number.
pub open spec fn divides_numbers<A: Fn(Op, Scalar, Scalar) -> Scalar>(unit: &A) -> bool {
    forall|x: Scalar, d: Scalar|
        !x.nan() && d.finite() && !d.zero() ==> !(#[trigger] over_of(unit, x, d)).nan()
}

} // verus!
