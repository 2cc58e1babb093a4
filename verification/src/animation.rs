//! Motion playback: segments and their values, the solver for the timing of
//! Bezier segments, curves with their cursors, and motions that write to a
//! model.

use crate::arith::{
    acos, cbrt, cos, divides_numbers, exact_at_zero_and_one, keeps_order, minus, over, plus,
    sqrt, times, well_behaved, Op,
};
use crate::fault::Fault;
use crate::model_resource::{first_index_of, Live2DModelResource};
use crate::motion_json::{Curve, MotionJson};
use crate::scalar::Scalar;
use crate::scalar::{
    EPSILON_BITS, FOUR_BITS, HALF_BITS, HUNDREDTH_BITS, MINUS_ONE_BITS, NINE_BITS, ONE_BITS,
    PI_BITS, SIX_BITS, THREE_BITS, TWENTY_SEVEN_BITS, TWO_BITS, ZERO_BITS,
};
use vstd::prelude::*;

verus! {

/// A key of a curve: a value at a time.
#[derive(Clone, Copy, Debug, PartialEq, Eq, Structural)]
pub struct AnimationPoint {
    pub time: Scalar,
    pub value: Scalar,
}

/// One segment of a curve, with the points that shape it. The first point
/// is where the segment starts and the last where it ends.
#[derive(Clone, Copy, Debug, PartialEq, Eq, Structural)]
pub enum AnimationCurveType {
    Linear(AnimationPoint, AnimationPoint),
    Bezier(AnimationPoint, AnimationPoint, AnimationPoint, AnimationPoint),
    Stepped(AnimationPoint, AnimationPoint),
    InverseStepped(AnimationPoint, AnimationPoint),
}

/// The shapes that a segment can have.
#[derive(Clone, Copy, Debug, PartialEq, Eq, Structural)]
pub enum AnimationSegment {
    Linear,
    Bezier,
    Stepped,
    InverseStepped,
}

/// What a curve drives.
#[derive(Clone, Copy, Debug, PartialEq, Eq, Structural)]
pub enum AnimationType {
    ModelAnimationCurve,
    ParameterAnimationCurve,
    PartOpacityAnimationCurve,
}

/// `a + (b - a) * t` on the unit.
pub open spec fn lerp_of<A: Fn(Op, Scalar, Scalar) -> Scalar>(
    unit: &A,
    a: Scalar,
    b: Scalar,
    t: Scalar,
) -> Scalar {
    plus(unit, a, times(unit, minus(unit, b, a), t))
}

/// Interpolates between `a` and `b` at the fraction `t`.
#[verifier::when_used_as_spec(lerp_of)]
pub fn lerp<A: Fn(Op, Scalar, Scalar) -> Scalar>(unit: &A, a: Scalar, b: Scalar, t: Scalar) -> (r:
    Scalar)
    requires
        well_behaved(*unit),
    ensures
        r == lerp_of(unit, a, b, t),
{
    let d = minus(unit, b, a);
    let m = times(unit, d, t);
    plus(unit, a, m)
}

/// The value of a linear segment from `p0` to `p1` at `time`: the fraction
/// of the way is held at zero from below and left open above.
pub open spec fn evaluate_linear_of<A: Fn(Op, Scalar, Scalar) -> Scalar>(
    unit: &A,
    p0: AnimationPoint,
    p1: AnimationPoint,
    time: Scalar,
) -> Scalar {
    let t = over(unit, minus(unit, time, p0.time), minus(unit, p1.time, p0.time));
    let t = if t.lt(Scalar::from_bits(ZERO_BITS)) {
        Scalar::from_bits(ZERO_BITS)
    } else {
        t
    };
    lerp(unit, p0.value, p1.value, t)
}

/// Evaluates a linear segment.
#[verifier::when_used_as_spec(evaluate_linear_of)]
pub fn evaluate_linear<A: Fn(Op, Scalar, Scalar) -> Scalar>(
    unit: &A,
    p0: AnimationPoint,
    p1: AnimationPoint,
    time: Scalar,
) -> (r: Scalar)
    requires
        well_behaved(*unit),
    ensures
        r == evaluate_linear_of(unit, p0, p1, time),
{
    let elapsed = minus(unit, time, p0.time);
    let span = minus(unit, p1.time, p0.time);
    let mut t = over(unit, elapsed, span);
    if t.lt(Scalar::from_bits(ZERO_BITS)) {
        t = Scalar::from_bits(ZERO_BITS);
    }
    lerp(unit, p0.value, p1.value, t)
}

/// At the fraction zero the interpolation gives its first end, for every
/// unit that is exact at zero and one: provided the first end is a number
/// and the difference of the two ends is a number other than infinity.
pub proof fn lemma_lerp_starts_at_the_first<A: Fn(Op, Scalar, Scalar) -> Scalar>(
    unit: &A,
    a: Scalar,
    b: Scalar,
    t: Scalar,
)
    requires
        exact_at_zero_and_one(unit),
        t.zero(),
        !a.nan(),
        minus(unit, b, a).finite(),
    ensures
        lerp(unit, a, b, t).same(a),
{
    let difference = minus(unit, b, a);
    assert(times(unit, difference, t).zero());
    assert(plus(unit, a, times(unit, difference, t)).same(a));
}

/// At the fraction one the interpolation gives its second end, for every
/// unit that is exact at zero and one, on exactly those ends for which the
/// rounded difference, added back to the first end, gives the second.
pub proof fn lemma_lerp_ends_at_the_second<A: Fn(Op, Scalar, Scalar) -> Scalar>(
    unit: &A,
    a: Scalar,
    b: Scalar,
)
    requires
        exact_at_zero_and_one(unit),
        !minus(unit, b, a).nan(),
    ensures
        lerp(unit, a, b, Scalar::from_bits(ONE_BITS)).same(b) <==> plus(
            unit,
            a,
            minus(unit, b, a),
        ).same(b),
{
    let difference = minus(unit, b, a);
    assert(times(unit, difference, Scalar::from_bits(ONE_BITS)) == difference);
}

/// The interpolation of two points starts at the first and ends at the
/// second, in time and in value, under the conditions of the two lemmas
/// before.
pub proof fn lemma_lerp_points_round_trip<A: Fn(Op, Scalar, Scalar) -> Scalar>(
    unit: &A,
    a: AnimationPoint,
    b: AnimationPoint,
)
    requires
        exact_at_zero_and_one(unit),
        !a.time.nan(),
        !a.value.nan(),
        minus(unit, b.time, a.time).finite(),
        minus(unit, b.value, a.value).finite(),
        plus(unit, a.time, minus(unit, b.time, a.time)).same(b.time),
        plus(unit, a.value, minus(unit, b.value, a.value)).same(b.value),
    ensures
        AnimationCurveType::lerp_points(unit, &a, &b, Scalar::from_bits(ZERO_BITS)).time.same(
            a.time,
        ),
        AnimationCurveType::lerp_points(unit, &a, &b, Scalar::from_bits(ZERO_BITS)).value.same(
            a.value,
        ),
        AnimationCurveType::lerp_points(unit, &a, &b, Scalar::from_bits(ONE_BITS)).time.same(
            b.time,
        ),
        AnimationCurveType::lerp_points(unit, &a, &b, Scalar::from_bits(ONE_BITS)).value.same(
            b.value,
        ),
{
    lemma_lerp_starts_at_the_first(unit, a.time, b.time, Scalar::from_bits(ZERO_BITS));
    lemma_lerp_starts_at_the_first(unit, a.value, b.value, Scalar::from_bits(ZERO_BITS));
    lemma_lerp_ends_at_the_second(unit, a.time, b.time);
    lemma_lerp_ends_at_the_second(unit, a.value, b.value);
}

/// A linear segment takes the value of its start at the time of its start,
/// for every unit that is exact at zero and one: provided the time of the
/// start is a number other than infinity, the segment has a length other
/// than zero, the value of the start is a number, and the difference of the
/// two values is a number other than infinity.
pub proof fn lemma_linear_starts_at_its_start<A: Fn(Op, Scalar, Scalar) -> Scalar>(
    unit: &A,
    p0: AnimationPoint,
    p1: AnimationPoint,
)
    requires
        exact_at_zero_and_one(unit),
        p0.time.finite(),
        !minus(unit, p1.time, p0.time).nan(),
        !minus(unit, p1.time, p0.time).zero(),
        !p0.value.nan(),
        minus(unit, p1.value, p0.value).finite(),
    ensures
        evaluate_linear(unit, p0, p1, p0.time).same(p0.value),
{
    let elapsed = minus(unit, p0.time, p0.time);
    let span = minus(unit, p1.time, p0.time);
    assert(elapsed.zero());
    let t = over(unit, elapsed, span);
    assert(t.zero());
    assert(!t.lt(Scalar::from_bits(ZERO_BITS)));
    lemma_lerp_starts_at_the_first(unit, p0.value, p1.value, t);
}

/// A linear segment takes the value of its end at the time of its end, for
/// every unit that is exact at zero and one, on exactly those values for
/// which the rounded difference, added back to the first, gives the second:
/// provided the segment has a length other than zero and infinity.
pub proof fn lemma_linear_ends_at_its_end<A: Fn(Op, Scalar, Scalar) -> Scalar>(
    unit: &A,
    p0: AnimationPoint,
    p1: AnimationPoint,
)
    requires
        exact_at_zero_and_one(unit),
        minus(unit, p1.time, p0.time).finite(),
        !minus(unit, p1.time, p0.time).zero(),
        !minus(unit, p1.value, p0.value).nan(),
    ensures
        evaluate_linear(unit, p0, p1, p1.time).same(p1.value) <==> plus(
            unit,
            p0.value,
            minus(unit, p1.value, p0.value),
        ).same(p1.value),
{
    let span = minus(unit, p1.time, p0.time);
    let t = over(unit, span, span);
    assert(t == Scalar::from_bits(ONE_BITS));
    assert(!t.lt(Scalar::from_bits(ZERO_BITS)));
    lemma_lerp_ends_at_the_second(unit, p0.value, p1.value);
}

/// Whether every step on the way to the value of a linear segment at `time`
/// gives a number.
pub open spec fn linear_is_defined<A: Fn(Op, Scalar, Scalar) -> Scalar>(
    unit: &A,
    p0: AnimationPoint,
    p1: AnimationPoint,
    time: Scalar,
) -> bool {
    let elapsed = minus(unit, time, p0.time);
    let t = over(unit, elapsed, minus(unit, p1.time, p0.time));
    let held = if t.lt(Scalar::from_bits(ZERO_BITS)) {
        Scalar::from_bits(ZERO_BITS)
    } else {
        t
    };
    let offset = times(unit, minus(unit, p1.value, p0.value), held);
    &&& !elapsed.nan()
    &&& !t.nan()
    &&& !offset.nan()
    &&& !plus(unit, p0.value, offset).nan()
}

/// A linear segment that runs forward in time never turns back: between two
/// times, the later one has its value on the side of the segment's end, for
/// every unit that keeps the order of its operands and wherever every step
/// of the two evaluations gives a number.
pub proof fn lemma_linear_is_monotonic<A: Fn(Op, Scalar, Scalar) -> Scalar>(
    unit: &A,
    p0: AnimationPoint,
    p1: AnimationPoint,
    earlier: Scalar,
    later: Scalar,
)
    requires
        keeps_order(unit),
        earlier.le(later),
        Scalar::from_bits(ZERO_BITS).lt(minus(unit, p1.time, p0.time)),
        !minus(unit, p1.value, p0.value).nan(),
        linear_is_defined(unit, p0, p1, earlier),
        linear_is_defined(unit, p0, p1, later),
    ensures
        Scalar::from_bits(ZERO_BITS).le(minus(unit, p1.value, p0.value)) ==> evaluate_linear(
            unit,
            p0,
            p1,
            earlier,
        ).le(evaluate_linear(unit, p0, p1, later)),
        minus(unit, p1.value, p0.value).le(Scalar::from_bits(ZERO_BITS)) ==> evaluate_linear(
            unit,
            p0,
            p1,
            later,
        ).le(evaluate_linear(unit, p0, p1, earlier)),
{
    let zero = Scalar::from_bits(ZERO_BITS);
    let span = minus(unit, p1.time, p0.time);
    let difference = minus(unit, p1.value, p0.value);
    let elapsed_a = minus(unit, earlier, p0.time);
    let elapsed_b = minus(unit, later, p0.time);
    assert(elapsed_a.le(elapsed_b));
    let t_a = over(unit, elapsed_a, span);
    let t_b = over(unit, elapsed_b, span);
    assert(t_a.le(t_b));
    let held_a = if t_a.lt(zero) {
        zero
    } else {
        t_a
    };
    let held_b = if t_b.lt(zero) {
        zero
    } else {
        t_b
    };
    assert(held_a.le(held_b));
    let offset_a = times(unit, difference, held_a);
    let offset_b = times(unit, difference, held_b);
    if zero.le(difference) {
        assert(offset_a.le(offset_b));
        assert(plus(unit, p0.value, offset_a).le(plus(unit, p0.value, offset_b)));
    }
    if difference.le(zero) {
        assert(offset_b.le(offset_a));
        assert(plus(unit, p0.value, offset_b).le(plus(unit, p0.value, offset_a)));
    }
}

/// Between the times of its ends a linear segment that runs forward in time
/// runs from the value of its start towards the value of its end and never
/// beyond: of two times the later one has its value on the side of the end,
/// and both values lie between the value of the start and the value that
/// the segment takes at its end, the value of the start plus the rounded
/// difference of the two values. Where that sum gives the value of the end,
/// both lie between the values of the two ends.
///
/// This holds for every unit that is exact at zero and one and keeps the
/// order of its operands, wherever the steps of the two evaluations and the
/// value at the end are numbers.
pub proof fn lemma_linear_segment_runs_between_its_ends<A: Fn(Op, Scalar, Scalar) -> Scalar>(
    unit: &A,
    p0: AnimationPoint,
    p1: AnimationPoint,
    earlier: Scalar,
    later: Scalar,
)
    requires
        exact_at_zero_and_one(unit),
        keeps_order(unit),
        p0.time.le(earlier),
        earlier.le(later),
        later.le(p1.time),
        p0.time.finite(),
        Scalar::from_bits(ZERO_BITS).lt(minus(unit, p1.time, p0.time)),
        minus(unit, p1.time, p0.time).finite(),
        !p0.value.nan(),
        minus(unit, p1.value, p0.value).finite(),
        !plus(unit, p0.value, minus(unit, p1.value, p0.value)).nan(),
        linear_is_defined(unit, p0, p1, earlier),
        linear_is_defined(unit, p0, p1, later),
    ensures
        ({
            let segment = AnimationCurveType::Linear(p0, p1);
            let first = segment.evaluate_of(unit, earlier);
            let second = segment.evaluate_of(unit, later);
            let difference = minus(unit, p1.value, p0.value);
            let far = plus(unit, p0.value, difference);
            &&& segment.evaluate_of(unit, p0.time).same(p0.value)
            &&& segment.evaluate_of(unit, p1.time) == far
            &&& Scalar::from_bits(ZERO_BITS).le(difference) ==> {
                &&& p0.value.le(first)
                &&& first.le(second)
                &&& second.le(far)
            }
            &&& difference.le(Scalar::from_bits(ZERO_BITS)) ==> {
                &&& far.le(second)
                &&& second.le(first)
                &&& first.le(p0.value)
            }
            &&& far.same(p1.value) && p0.value.le(p1.value) ==> {
                &&& p0.value.le(first)
                &&& first.le(second)
                &&& second.le(p1.value)
            }
            &&& far.same(p1.value) && p1.value.le(p0.value) ==> {
                &&& p1.value.le(second)
                &&& second.le(first)
                &&& first.le(p0.value)
            }
        }),
{
    let zero = Scalar::from_bits(ZERO_BITS);
    let one = Scalar::from_bits(ONE_BITS);
    let span = minus(unit, p1.time, p0.time);
    let difference = minus(unit, p1.value, p0.value);
    let far = plus(unit, p0.value, difference);

    // at the start
    lemma_linear_starts_at_its_start(unit, p0, p1);
    let elapsed_start = minus(unit, p0.time, p0.time);
    assert(elapsed_start.zero());
    let t_start = over(unit, elapsed_start, span);
    assert(t_start.zero());
    assert(!t_start.lt(zero));
    assert(times(unit, difference, t_start).zero());
    assert(plus(unit, p0.value, times(unit, difference, t_start)).same(p0.value));
    assert(linear_is_defined(unit, p0, p1, p0.time));

    // at the end
    let t_end = over(unit, span, span);
    assert(t_end == one);
    assert(!t_end.lt(zero));
    assert(times(unit, difference, one) == difference);
    assert(evaluate_linear(unit, p0, p1, p1.time) == far);
    assert(linear_is_defined(unit, p0, p1, p1.time));

    lemma_linear_is_monotonic(unit, p0, p1, p0.time, earlier);
    lemma_linear_is_monotonic(unit, p0, p1, earlier, later);
    lemma_linear_is_monotonic(unit, p0, p1, later, p1.time);
}

/// A timing that is all but linear is solved to a fraction between zero and
/// one, for every unit that divides numbers into numbers: where the two
/// leading coefficients vanish, and the other two are numbers, the third of
/// them other than infinity, the answer is the root of the remaining linear
/// equation held to the range from zero to one, and it is a number.
pub proof fn lemma_near_linear_timing_gives_a_fraction<A: Fn(Op, Scalar, Scalar) -> Scalar>(
    unit: &A,
    a: Scalar,
    b: Scalar,
    c: Scalar,
    d: Scalar,
)
    requires
        divides_numbers(unit),
        a.abs().lt(Scalar::from_bits(EPSILON_BITS)),
        b.abs().lt(Scalar::from_bits(EPSILON_BITS)),
        c.finite(),
        !d.nan(),
    ensures
        AnimationCurveType::cardano_algorithm_for_bezier(unit, a, b, c, d).in_unit_interval(),
        AnimationCurveType::cardano_algorithm_for_bezier(unit, a, b, c, d) == clamp_unit(
            if c.abs().lt(Scalar::from_bits(EPSILON_BITS)) {
                d.neg()
            } else {
                over(unit, d.neg(), c)
            },
        ),
{
    let root = AnimationCurveType::quadration_equation(unit, b, c, d);
    assert(AnimationCurveType::cubic_root_of(unit, a, b, c, d) == root);
    if !c.abs().lt(Scalar::from_bits(EPSILON_BITS)) {
        assert(!c.zero());
        assert(!d.neg().nan());
        assert(!over(unit, d.neg(), c).nan());
    }
    assert(!root.nan());
}

/// Whether a candidate root lies in the window round one half within which
/// the solver accepts it.
pub open spec fn near_center_of<A: Fn(Op, Scalar, Scalar) -> Scalar>(
    unit: &A,
    root: Scalar,
) -> bool {
    let center = Scalar::from_bits(HALF_BITS);
    let threshold = plus(unit, center, Scalar::from_bits(HUNDREDTH_BITS));
    minus(unit, root, center).abs().lt(threshold)
}

/// Tests whether a candidate root is accepted.
#[verifier::when_used_as_spec(near_center_of)]
pub fn near_center<A: Fn(Op, Scalar, Scalar) -> Scalar>(unit: &A, root: Scalar) -> (r: bool)
    requires
        well_behaved(*unit),
    ensures
        r == near_center_of(unit, root),
{
    let center = Scalar::from_bits(HALF_BITS);
    let threshold = plus(unit, center, Scalar::from_bits(HUNDREDTH_BITS));
    minus(unit, root, center).abs().lt(threshold)
}

/// The number held to the range from zero to one.
pub open spec fn clamp_unit_of(x: Scalar) -> Scalar {
    x.clamp(Scalar::from_bits(ZERO_BITS), Scalar::from_bits(ONE_BITS))
}

/// Holds a number to the range from zero to one. What comes out is in that
/// range, or is not a number because what went in was not.
#[verifier::when_used_as_spec(clamp_unit_of)]
pub fn clamp_unit(x: Scalar) -> (r: Scalar)
    ensures
        r == clamp_unit_of(x),
        r.nan() || r.in_unit_interval(),
        r.nan() <==> x.nan(),
{
    x.clamp(Scalar::from_bits(ZERO_BITS), Scalar::from_bits(ONE_BITS))
}

impl AnimationCurveType {
    /// The point at which the segment starts.
    pub open spec fn first_point_of(&self) -> AnimationPoint {
        match *self {
            AnimationCurveType::Linear(f, _) => f,
            AnimationCurveType::Bezier(f, _, _, _) => f,
            AnimationCurveType::Stepped(f, _) => f,
            AnimationCurveType::InverseStepped(f, _) => f,
        }
    }

    /// The point at which the segment ends.
    pub open spec fn last_point_of(&self) -> AnimationPoint {
        match *self {
            AnimationCurveType::Linear(_, l) => l,
            AnimationCurveType::Bezier(_, _, _, l) => l,
            AnimationCurveType::Stepped(_, l) => l,
            AnimationCurveType::InverseStepped(_, l) => l,
        }
    }

    /// The shape of the segment.
    pub open spec fn kind_of(&self) -> AnimationSegment {
        match *self {
            AnimationCurveType::Linear(..) => AnimationSegment::Linear,
            AnimationCurveType::Bezier(..) => AnimationSegment::Bezier,
            AnimationCurveType::Stepped(..) => AnimationSegment::Stepped,
            AnimationCurveType::InverseStepped(..) => AnimationSegment::InverseStepped,
        }
    }

    /// Whether `time` lies between the segment's start and end, both
    /// included.
    pub open spec fn covers_of(&self, time: Scalar) -> bool {
        self.first_point_of().time.le(time) && time.le(self.last_point_of().time)
    }

    /// The point at which the segment starts.
    #[verifier::when_used_as_spec(first_point_of)]
    pub fn first_point(&self) -> (p: AnimationPoint)
        ensures
            p == self.first_point_of(),
    {
        match self {
            AnimationCurveType::Linear(f, _) => *f,
            AnimationCurveType::Bezier(f, _, _, _) => *f,
            AnimationCurveType::Stepped(f, _) => *f,
            AnimationCurveType::InverseStepped(f, _) => *f,
        }
    }

    /// The point at which the segment ends.
    #[verifier::when_used_as_spec(last_point_of)]
    pub fn last_point(&self) -> (p: AnimationPoint)
        ensures
            p == self.last_point_of(),
    {
        match self {
            AnimationCurveType::Linear(_, l) => *l,
            AnimationCurveType::Bezier(_, _, _, l) => *l,
            AnimationCurveType::Stepped(_, l) => *l,
            AnimationCurveType::InverseStepped(_, l) => *l,
        }
    }

    /// The shape of the segment.
    #[verifier::when_used_as_spec(kind_of)]
    pub fn kind(&self) -> (k: AnimationSegment)
        ensures
            k == self.kind_of(),
    {
        match self {
            AnimationCurveType::Linear(..) => AnimationSegment::Linear,
            AnimationCurveType::Bezier(..) => AnimationSegment::Bezier,
            AnimationCurveType::Stepped(..) => AnimationSegment::Stepped,
            AnimationCurveType::InverseStepped(..) => AnimationSegment::InverseStepped,
        }
    }

    /// Tests whether `time` lies between the start and the end of the segment.
    #[verifier::when_used_as_spec(covers_of)]
    pub fn covers(&self, time: Scalar) -> (r: bool)
        ensures
            r == self.covers_of(time),
    {
        self.first_point().time.le(time) && time.le(self.last_point().time)
    }

    /// The point between `a` and `b` at the fraction `t`, in time and in
    /// value.
    pub open spec fn lerp_points_of<A: Fn(Op, Scalar, Scalar) -> Scalar>(
        unit: &A,
        a: &AnimationPoint,
        b: &AnimationPoint,
        t: Scalar,
    ) -> AnimationPoint {
        AnimationPoint {
            time: lerp(unit, a.time, b.time, t),
            value: lerp(unit, a.value, b.value, t),
        }
    }

    /// Interpolates between two points, in time and in value.
    #[verifier::when_used_as_spec(lerp_points_of)]
    pub fn lerp_points<A: Fn(Op, Scalar, Scalar) -> Scalar>(
        unit: &A,
        a: &AnimationPoint,
        b: &AnimationPoint,
        t: Scalar,
    ) -> (r: AnimationPoint)
        requires
            well_behaved(*unit),
        ensures
            r == Self::lerp_points_of(unit, a, b, t),
    {
        AnimationPoint {
            time: lerp(unit, a.time, b.time, t),
            value: lerp(unit, a.value, b.value, t),
        }
    }

    /// The root that the solver takes of `a t^2 + b t + c`: where the
    /// leading coefficients vanish, that of the equation of lower degree.
    pub open spec fn quadration_equation_of<A: Fn(Op, Scalar, Scalar) -> Scalar>(
        unit: &A,
        a: Scalar,
        b: Scalar,
        c: Scalar,
    ) -> Scalar {
        let epsilon = Scalar::from_bits(EPSILON_BITS);
        if a.abs().lt(epsilon) {
            if b.abs().lt(epsilon) {
                c.neg()
            } else {
                over(unit, c.neg(), b)
            }
        } else {
            let square = times(unit, b, b);
            let product = times(unit, times(unit, Scalar::from_bits(FOUR_BITS), a), c);
            let root = sqrt(unit, minus(unit, square, product));
            over(unit, plus(unit, b, root).neg(), times(unit, Scalar::from_bits(TWO_BITS), a))
        }
    }

    /// Solves `a t^2 + b t + c = 0` the way the solver of the cubic needs it.
    #[verifier::when_used_as_spec(quadration_equation_of)]
    pub fn quadration_equation<A: Fn(Op, Scalar, Scalar) -> Scalar>(
        unit: &A,
        a: Scalar,
        b: Scalar,
        c: Scalar,
    ) -> (r: Scalar)
        requires
            well_behaved(*unit),
        ensures
            r == Self::quadration_equation_of(unit, a, b, c),
    {
        let epsilon = Scalar::from_bits(EPSILON_BITS);
        if a.abs().lt(epsilon) {
            if b.abs().lt(epsilon) {
                return c.neg();
            }
            return over(unit, c.neg(), b);
        }
        let square = times(unit, b, b);
        let four_a = times(unit, Scalar::from_bits(FOUR_BITS), a);
        let product = times(unit, four_a, c);
        let root = sqrt(unit, minus(unit, square, product));
        let two_a = times(unit, Scalar::from_bits(TWO_BITS), a);
        over(unit, plus(unit, b, root).neg(), two_a)
    }

    /// The root taken where the reduced cubic has three real roots: the
    /// first of the three, in the order of the cosine formula, that lies
    /// near one half, else the third.
    pub open spec fn three_real_roots_of<A: Fn(Op, Scalar, Scalar) -> Scalar>(
        unit: &A,
        p: Scalar,
        q: Scalar,
        ba: Scalar,
    ) -> Scalar {
        let two = Scalar::from_bits(TWO_BITS);
        let three = Scalar::from_bits(THREE_BITS);
        let pi = Scalar::from_bits(PI_BITS);
        let mp3 = over(unit, p.neg(), three);
        let mp33 = times(unit, times(unit, mp3, mp3), mp3);
        let r = sqrt(unit, mp33);
        let t = over(unit, q.neg(), times(unit, two, r));
        let cosphi = t.clamp(Scalar::from_bits(MINUS_ONE_BITS), Scalar::from_bits(ONE_BITS));
        let phi = acos(unit, cosphi);
        let t1 = times(unit, two, cbrt(unit, r));
        let shift = over(unit, ba, three);
        let root1 = minus(unit, times(unit, t1, cos(unit, over(unit, phi, three))), shift);
        let angle2 = over(unit, plus(unit, phi, times(unit, two, pi)), three);
        let root2 = minus(unit, times(unit, t1, cos(unit, angle2)), shift);
        let angle3 = over(
            unit,
            plus(unit, phi, times(unit, Scalar::from_bits(FOUR_BITS), pi)),
            three,
        );
        let root3 = minus(unit, times(unit, t1, cos(unit, angle3)), shift);
        if near_center(unit, root1) {
            root1
        } else if near_center(unit, root2) {
            root2
        } else {
            root3
        }
    }

    /// The root that Cardano's formula gives where the reduced cubic has one
    /// real root.
    pub open spec fn single_root_of<A: Fn(Op, Scalar, Scalar) -> Scalar>(
        unit: &A,
        discriminant: Scalar,
        q2: Scalar,
        ba: Scalar,
    ) -> Scalar {
        let sd = sqrt(unit, discriminant);
        let u1 = cbrt(unit, minus(unit, sd, q2));
        let v1 = cbrt(unit, plus(unit, sd, q2));
        minus(unit, minus(unit, u1, v1), over(unit, ba, Scalar::from_bits(THREE_BITS)))
    }

    /// The root taken where the discriminant is zero: of the two candidates
    /// the first that lies near one half, else the root of the formula for a
    /// single real root.
    pub open spec fn double_root_of<A: Fn(Op, Scalar, Scalar) -> Scalar>(
        unit: &A,
        discriminant: Scalar,
        q2: Scalar,
        ba: Scalar,
    ) -> Scalar {
        let u1 = if q2.lt(Scalar::from_bits(ZERO_BITS)) {
            cbrt(unit, q2.neg())
        } else {
            cbrt(unit, q2).neg()
        };
        let shift = over(unit, ba, Scalar::from_bits(THREE_BITS));
        let root1 = minus(unit, times(unit, Scalar::from_bits(TWO_BITS), u1), shift);
        let root2 = minus(unit, u1.neg(), shift);
        if near_center(unit, root1) {
            root1
        } else if near_center(unit, root2) {
            root2
        } else {
            Self::single_root_of(unit, discriminant, q2, ba)
        }
    }

    /// The root, before it is held to the range from zero to one, that the
    /// solver takes of `a t^3 + b t^2 + c t + d`.
    pub open spec fn cubic_root_of<A: Fn(Op, Scalar, Scalar) -> Scalar>(
        unit: &A,
        a: Scalar,
        b: Scalar,
        c: Scalar,
        d: Scalar,
    ) -> Scalar {
        if a.abs().lt(Scalar::from_bits(EPSILON_BITS)) {
            Self::quadration_equation(unit, b, c, d)
        } else {
            let zero = Scalar::from_bits(ZERO_BITS);
            let two = Scalar::from_bits(TWO_BITS);
            let three = Scalar::from_bits(THREE_BITS);
            let nine = Scalar::from_bits(NINE_BITS);
            let twenty_seven = Scalar::from_bits(TWENTY_SEVEN_BITS);
            let ba = over(unit, b, a);
            let ca = over(unit, c, a);
            let da = over(unit, d, a);
            let p = over(unit, minus(unit, times(unit, three, ca), times(unit, ba, ba)), three);
            let p3 = over(unit, p, three);
            let cube = times(unit, times(unit, times(unit, two, ba), ba), ba);
            let cross = times(unit, times(unit, nine, ba), ca);
            let q = over(
                unit,
                plus(unit, minus(unit, cube, cross), times(unit, twenty_seven, da)),
                twenty_seven,
            );
            let q2 = over(unit, q, two);
            let discriminant = plus(
                unit,
                times(unit, q2, q2),
                times(unit, times(unit, p3, p3), p3),
            );
            if discriminant.lt(zero) {
                Self::three_real_roots_of(unit, p, q, ba)
            } else if discriminant.eq_value(zero) {
                Self::double_root_of(unit, discriminant, q2, ba)
            } else {
                Self::single_root_of(unit, discriminant, q2, ba)
            }
        }
    }

    /// The solver's answer: the chosen root, held to the range from zero to
    /// one.
    pub open spec fn cardano_algorithm_for_bezier_of<A: Fn(Op, Scalar, Scalar) -> Scalar>(
        unit: &A,
        a: Scalar,
        b: Scalar,
        c: Scalar,
        d: Scalar,
    ) -> Scalar {
        clamp_unit(Self::cubic_root_of(unit, a, b, c, d))
    }

    fn three_real_roots<A: Fn(Op, Scalar, Scalar) -> Scalar>(
        unit: &A,
        p: Scalar,
        q: Scalar,
        ba: Scalar,
    ) -> (r: Scalar)
        requires
            well_behaved(*unit),
        ensures
            r == Self::three_real_roots_of(unit, p, q, ba),
    {
        let two = Scalar::from_bits(TWO_BITS);
        let three = Scalar::from_bits(THREE_BITS);
        let pi = Scalar::from_bits(PI_BITS);
        let mp3 = over(unit, p.neg(), three);
        let mp33 = times(unit, times(unit, mp3, mp3), mp3);
        let r = sqrt(unit, mp33);
        let t = over(unit, q.neg(), times(unit, two, r));
        let cosphi = t.clamp(Scalar::from_bits(MINUS_ONE_BITS), Scalar::from_bits(ONE_BITS));
        let phi = acos(unit, cosphi);
        let crtr = cbrt(unit, r);
        let t1 = times(unit, two, crtr);
        let shift = over(unit, ba, three);

        let root1 = minus(unit, times(unit, t1, cos(unit, over(unit, phi, three))), shift);
        if near_center(unit, root1) {
            return root1;
        }
        let angle2 = over(unit, plus(unit, phi, times(unit, two, pi)), three);
        let root2 = minus(unit, times(unit, t1, cos(unit, angle2)), shift);
        if near_center(unit, root2) {
            return root2;
        }
        let four_pi = times(unit, Scalar::from_bits(FOUR_BITS), pi);
        let angle3 = over(unit, plus(unit, phi, four_pi), three);
        minus(unit, times(unit, t1, cos(unit, angle3)), shift)
    }

    fn single_root<A: Fn(Op, Scalar, Scalar) -> Scalar>(
        unit: &A,
        discriminant: Scalar,
        q2: Scalar,
        ba: Scalar,
    ) -> (r: Scalar)
        requires
            well_behaved(*unit),
        ensures
            r == Self::single_root_of(unit, discriminant, q2, ba),
    {
        let sd = sqrt(unit, discriminant);
        let u1 = cbrt(unit, minus(unit, sd, q2));
        let v1 = cbrt(unit, plus(unit, sd, q2));
        minus(unit, minus(unit, u1, v1), over(unit, ba, Scalar::from_bits(THREE_BITS)))
    }

    fn double_root<A: Fn(Op, Scalar, Scalar) -> Scalar>(
        unit: &A,
        discriminant: Scalar,
        q2: Scalar,
        ba: Scalar,
    ) -> (r: Scalar)
        requires
            well_behaved(*unit),
        ensures
            r == Self::double_root_of(unit, discriminant, q2, ba),
    {
        let u1 = if q2.lt(Scalar::from_bits(ZERO_BITS)) {
            cbrt(unit, q2.neg())
        } else {
            cbrt(unit, q2).neg()
        };
        let shift = over(unit, ba, Scalar::from_bits(THREE_BITS));
        let root1 = minus(unit, times(unit, Scalar::from_bits(TWO_BITS), u1), shift);
        if near_center(unit, root1) {
            return root1;
        }
        let root2 = minus(unit, u1.neg(), shift);
        if near_center(unit, root2) {
            return root2;
        }
        Self::single_root(unit, discriminant, q2, ba)
    }

    /// Solves `a t^3 + b t^2 + c t + d = 0` for the fraction `t` of a Bezier
    /// segment. The answer is never outside the range from zero to one; it
    /// is not a number exactly where the chosen root is not.
    #[verifier::when_used_as_spec(cardano_algorithm_for_bezier_of)]
    pub fn cardano_algorithm_for_bezier<A: Fn(Op, Scalar, Scalar) -> Scalar>(
        unit: &A,
        a: Scalar,
        b: Scalar,
        c: Scalar,
        d: Scalar,
    ) -> (r: Scalar)
        requires
            well_behaved(*unit),
        ensures
            r == Self::cardano_algorithm_for_bezier_of(unit, a, b, c, d),
            r.nan() || r.in_unit_interval(),
            r.nan() <==> Self::cubic_root_of(unit, a, b, c, d).nan(),
    {
        if a.abs().lt(Scalar::from_bits(EPSILON_BITS)) {
            return clamp_unit(Self::quadration_equation(unit, b, c, d));
        }
        let zero = Scalar::from_bits(ZERO_BITS);
        let two = Scalar::from_bits(TWO_BITS);
        let three = Scalar::from_bits(THREE_BITS);
        let nine = Scalar::from_bits(NINE_BITS);
        let twenty_seven = Scalar::from_bits(TWENTY_SEVEN_BITS);

        let ba = over(unit, b, a);
        let ca = over(unit, c, a);
        let da = over(unit, d, a);

        let p = over(unit, minus(unit, times(unit, three, ca), times(unit, ba, ba)), three);
        let p3 = over(unit, p, three);
        let cube = times(unit, times(unit, times(unit, two, ba), ba), ba);
        let cross = times(unit, times(unit, nine, ba), ca);
        let sum = plus(unit, minus(unit, cube, cross), times(unit, twenty_seven, da));
        let q = over(unit, sum, twenty_seven);
        let q2 = over(unit, q, two);
        let discriminant = plus(unit, times(unit, q2, q2), times(unit, times(unit, p3, p3), p3));

        if discriminant.lt(zero) {
            clamp_unit(Self::three_real_roots(unit, p, q, ba))
        } else if discriminant.eq_value(zero) {
            clamp_unit(Self::double_root(unit, discriminant, q2, ba))
        } else {
            clamp_unit(Self::single_root(unit, discriminant, q2, ba))
        }
    }

    /// The value of a Bezier segment at `time`: the fraction is solved from
    /// the four times, and the four points are then interpolated pairwise,
    /// three times over, at that fraction.
    pub open spec fn evaluate_bezier_of<A: Fn(Op, Scalar, Scalar) -> Scalar>(
        unit: &A,
        p0: AnimationPoint,
        p1: AnimationPoint,
        p2: AnimationPoint,
        p3: AnimationPoint,
        time: Scalar,
    ) -> Scalar {
        let three = Scalar::from_bits(THREE_BITS);
        let six = Scalar::from_bits(SIX_BITS);
        let x1 = p0.time;
        let x2 = p3.time;
        let cx1 = p1.time;
        let cx2 = p2.time;
        let a = minus(
            unit,
            plus(unit, minus(unit, x2, times(unit, three, cx2)), times(unit, three, cx1)),
            x1,
        );
        let b = plus(
            unit,
            minus(unit, times(unit, three, cx2), times(unit, six, cx1)),
            times(unit, three, x1),
        );
        let c = minus(unit, times(unit, three, cx1), times(unit, three, x1));
        let d = minus(unit, x1, time);
        let t = Self::cardano_algorithm_for_bezier(unit, a, b, c, d);
        let p01 = Self::lerp_points(unit, &p0, &p1, t);
        let p12 = Self::lerp_points(unit, &p1, &p2, t);
        let p23 = Self::lerp_points(unit, &p2, &p3, t);
        let p012 = Self::lerp_points(unit, &p01, &p12, t);
        let p123 = Self::lerp_points(unit, &p12, &p23, t);
        Self::lerp_points(unit, &p012, &p123, t).value
    }

    /// The value of the segment at `time`. A stepped segment holds the value
    /// of its start, an inverse stepped one that of its end.
    pub open spec fn evaluate_of<A: Fn(Op, Scalar, Scalar) -> Scalar>(
        &self,
        unit: &A,
        time: Scalar,
    ) -> Scalar {
        match *self {
            AnimationCurveType::Linear(p0, p1) => evaluate_linear(unit, p0, p1, time),
            AnimationCurveType::Bezier(p0, p1, p2, p3) => Self::evaluate_bezier_of(
                unit,
                p0,
                p1,
                p2,
                p3,
                time,
            ),
            AnimationCurveType::Stepped(p0, _) => p0.value,
            AnimationCurveType::InverseStepped(_, p1) => p1.value,
        }
    }

    /// The value of the segment at `time`.
    #[verifier::when_used_as_spec(evaluate_of)]
    pub fn evaluate<A: Fn(Op, Scalar, Scalar) -> Scalar>(&self, unit: &A, time: Scalar) -> (r:
        Scalar)
        requires
            well_behaved(*unit),
        ensures
            r == self.evaluate_of(unit, time),
    {
        match self {
            AnimationCurveType::Linear(p0, p1) => evaluate_linear(unit, *p0, *p1, time),
            AnimationCurveType::Bezier(p0, p1, p2, p3) => {
                let three = Scalar::from_bits(THREE_BITS);
                let six = Scalar::from_bits(SIX_BITS);
                let x1 = p0.time;
                let x2 = p3.time;
                let cx1 = p1.time;
                let cx2 = p2.time;

                let a = minus(
                    unit,
                    plus(unit, minus(unit, x2, times(unit, three, cx2)), times(unit, three, cx1)),
                    x1,
                );
                let b = plus(
                    unit,
                    minus(unit, times(unit, three, cx2), times(unit, six, cx1)),
                    times(unit, three, x1),
                );
                let c = minus(unit, times(unit, three, cx1), times(unit, three, x1));
                let d = minus(unit, x1, time);

                let t = Self::cardano_algorithm_for_bezier(unit, a, b, c, d);

                let p01 = Self::lerp_points(unit, p0, p1, t);
                let p12 = Self::lerp_points(unit, p1, p2, t);
                let p23 = Self::lerp_points(unit, p2, p3, t);

                let p012 = Self::lerp_points(unit, &p01, &p12, t);
                let p123 = Self::lerp_points(unit, &p12, &p23, t);

                Self::lerp_points(unit, &p012, &p123, t).value
            },
            AnimationCurveType::Stepped(p0, _) => p0.value,
            AnimationCurveType::InverseStepped(_, p1) => p1.value,
        }
    }
}

/// The point that two neighbours of a segment stream give.
pub open spec fn point_of(time: Scalar, value: Scalar) -> AnimationPoint {
    AnimationPoint { time, value }
}

/// The segments that a stream holds from `index` on, where the segment
/// before ended at `last`; `None` where the stream breaks the format.
///
/// A segment starts with its tag. The tag zero is followed by the end point
/// of a linear segment, the tag one by the two control points and the end
/// point of a Bezier segment. Each point is a time and a value. Every
/// segment starts where the one before it ended, and ends no earlier than
/// it starts.
pub open spec fn segments_from(stream: Seq<Scalar>, index: int, last: AnimationPoint) -> Option<
    Seq<AnimationCurveType>,
>
    decreases stream.len() - index,
{
    if index < 0 {
        None
    } else if index >= stream.len() {
        Some(Seq::empty())
    } else if stream[index].eq_value(Scalar::from_bits(ONE_BITS)) {
        if index + 6 < stream.len() && last.time.le(stream[index + 5]) {
            let end = point_of(stream[index + 5], stream[index + 6]);
            let segment = AnimationCurveType::Bezier(
                last,
                point_of(stream[index + 1], stream[index + 2]),
                point_of(stream[index + 3], stream[index + 4]),
                end,
            );
            match segments_from(stream, index + 7, end) {
                Some(rest) => Some(seq![segment] + rest),
                None => None,
            }
        } else {
            None
        }
    } else if stream[index].eq_value(Scalar::from_bits(ZERO_BITS)) {
        if index + 2 < stream.len() && last.time.le(stream[index + 1]) {
            let end = point_of(stream[index + 1], stream[index + 2]);
            let segment = AnimationCurveType::Linear(last, end);
            match segments_from(stream, index + 3, end) {
                Some(rest) => Some(seq![segment] + rest),
                None => None,
            }
        } else {
            None
        }
    } else {
        None
    }
}

/// The segments of a whole stream: it opens with the first point, holds at
/// least one segment after it, and keeps to the format to its end.
pub open spec fn parse_segments_of(stream: Seq<Scalar>) -> Option<Seq<AnimationCurveType>> {
    if stream.len() < 2 {
        None
    } else {
        match segments_from(stream, 2, point_of(stream[0], stream[1])) {
            Some(segments) => if segments.len() == 0 {
                None
            } else {
                Some(segments)
            },
            None => None,
        }
    }
}

/// Whether each segment starts at the point where the one before it ended.
pub open spec fn contiguous(segments: Seq<AnimationCurveType>) -> bool {
    forall|i: int|
        0 <= i < segments.len() - 1 ==> #[trigger] segments[i].last_point_of() == segments[i
            + 1].first_point_of()
}

/// Whether each segment ends at the time at which it starts or later.
pub open spec fn ascending(segments: Seq<AnimationCurveType>) -> bool {
    forall|i: int|
        0 <= i < segments.len() ==> (#[trigger] segments[i]).first_point_of().time.le(
            segments[i].last_point_of().time,
        )
}

/// Whether the segments make up a curve: there is at least one, they follow
/// each other without a gap, and time never runs back.
pub open spec fn is_curve(segments: Seq<AnimationCurveType>) -> bool {
    segments.len() > 0 && contiguous(segments) && ascending(segments)
}

/// Whether `time` lies in the domain of a curve, between the start of its
/// first segment and the end of its last.
pub open spec fn in_domain(segments: Seq<AnimationCurveType>, time: Scalar) -> bool {
    segments[0].first_point_of().time.le(time) && time.le(
        segments[segments.len() - 1].last_point_of().time,
    )
}

/// The number of stream entries that a segment takes, its tag included.
pub open spec fn stride_of(segment: AnimationCurveType) -> int {
    match segment {
        AnimationCurveType::Bezier(..) => 7,
        _ => 3,
    }
}

/// The number of stream entries that a run of segments takes.
pub open spec fn stream_length_of(segments: Seq<AnimationCurveType>) -> int
    decreases segments.len(),
{
    if segments.len() == 0 {
        0
    } else {
        stride_of(segments[0]) + stream_length_of(segments.drop_first())
    }
}

/// What comes out of a stream is a chain: the first segment starts at the
/// point handed in, each next one where the one before ended, only linear
/// and Bezier segments occur, and together they take up the stream to its
/// end.
pub proof fn lemma_segments_from_chain(stream: Seq<Scalar>, index: int, last: AnimationPoint)
    requires
        0 <= index <= stream.len(),
        segments_from(stream, index, last) is Some,
    ensures
        ({
            let segments = segments_from(stream, index, last)->0;
            &&& contiguous(segments)
            &&& ascending(segments)
            &&& segments.len() > 0 ==> segments[0].first_point_of() == last
            &&& forall|i: int|
                0 <= i < segments.len() ==> (#[trigger] segments[i].kind_of())
                    == AnimationSegment::Linear || segments[i].kind_of()
                    == AnimationSegment::Bezier
            &&& index + stream_length_of(segments) == stream.len()
        }),
    decreases stream.len() - index,
{
    let segments = segments_from(stream, index, last)->0;
    if index >= stream.len() {
    } else {
        let bezier = stream[index].eq_value(Scalar::from_bits(ONE_BITS));
        let step: int = if bezier {
            7
        } else {
            3
        };
        let end = if bezier {
            point_of(stream[index + 5], stream[index + 6])
        } else {
            point_of(stream[index + 1], stream[index + 2])
        };
        lemma_segments_from_chain(stream, index + step, end);
        let rest = segments_from(stream, index + step, end)->0;
        assert(segments.drop_first() =~= rest);
        assert forall|i: int|
            0 <= i < segments.len() - 1 implies #[trigger] segments[i].last_point_of()
            == segments[i + 1].first_point_of() by {
            if i > 0 {
                assert(segments[i] == rest[i - 1]);
                assert(segments[i + 1] == rest[i]);
            } else {
                assert(segments[1] == rest[0]);
            }
        }
        assert forall|i: int| 0 <= i < segments.len() implies (#[trigger] segments[i].kind_of())
            == AnimationSegment::Linear || segments[i].kind_of() == AnimationSegment::Bezier by {
            if i > 0 {
                assert(segments[i] == rest[i - 1]);
            }
        }
        assert forall|i: int| 0 <= i < segments.len() implies (
        #[trigger] segments[i]).first_point_of().time.le(segments[i].last_point_of().time) by {
            if i > 0 {
                assert(segments[i] == rest[i - 1]);
            }
        }
    }
}

/// What is read from a stream is a curve.
pub proof fn lemma_parsed_is_curve(stream: Seq<Scalar>)
    requires
        parse_segments_of(stream) is Some,
    ensures
        is_curve(parse_segments_of(stream)->0),
{
    lemma_segments_from_chain(stream, 2, point_of(stream[0], stream[1]));
}

/// Reads the segments of a curve from its stream. The stream is rejected
/// where it is too short for its first point, holds no segment, carries a
/// tag other than zero or one, ends in the middle of a segment, or has a
/// segment end before it starts. What is read is a curve.
pub fn parse_segments(segments_vec: &Vec<Scalar>) -> (r: Result<Vec<AnimationCurveType>, Fault>)
    ensures
        match parse_segments_of(segments_vec@) {
            Some(segments) => r matches Ok(parsed) && parsed@ == segments,
            None => r == Err::<Vec<AnimationCurveType>, Fault>(Fault::MalformedDescriptor),
        },
        r matches Ok(parsed) ==> {
            &&& is_curve(parsed@)
            &&& parsed@[0].first_point_of() == point_of(segments_vec@[0], segments_vec@[1])
            &&& 2 + stream_length_of(parsed@) == segments_vec@.len()
        },
{
    let n = segments_vec.len();
    if n < 2 {
        return Err(Fault::MalformedDescriptor);
    }
    let mut ret: Vec<AnimationCurveType> = Vec::new();
    let mut index: usize = 2;
    let mut last_point = AnimationPoint { time: segments_vec[0], value: segments_vec[1] };
    let ghost first = last_point;
    let ghost stream = segments_vec@;

    while index < n
        invariant
            n == segments_vec@.len(),
            stream == segments_vec@,
            2 <= index,
            2 <= n,
            first == point_of(stream[0], stream[1]),
            segments_from(stream, 2, first) == match segments_from(
                stream,
                index as int,
                last_point,
            ) {
                Some(rest) => Some(ret@ + rest),
                None => None,
            },
        decreases n - index,
    {
        let tag = segments_vec[index];
        if tag.eq_value(Scalar::from_bits(ONE_BITS)) {
            if n - index < 7 {
                assert(segments_from(stream, index as int, last_point) is None);
                return Err(Fault::MalformedDescriptor);
            }
            let end = AnimationPoint {
                time: segments_vec[index + 5],
                value: segments_vec[index + 6],
            };
            if !last_point.time.le(end.time) {
                assert(segments_from(stream, index as int, last_point) is None);
                return Err(Fault::MalformedDescriptor);
            }
            let segment = AnimationCurveType::Bezier(
                last_point,
                AnimationPoint { time: segments_vec[index + 1], value: segments_vec[index + 2] },
                AnimationPoint { time: segments_vec[index + 3], value: segments_vec[index + 4] },
                end,
            );
            proof {
                let rest = segments_from(stream, index + 7, end);
                if rest is Some {
                    assert(ret@.push(segment) + rest->0 =~= ret@ + (seq![segment] + rest->0));
                }
            }
            ret.push(segment);
            last_point = end;
            index += 7;
        } else if tag.eq_value(Scalar::from_bits(ZERO_BITS)) {
            if n - index < 3 {
                assert(segments_from(stream, index as int, last_point) is None);
                return Err(Fault::MalformedDescriptor);
            }
            let end = AnimationPoint {
                time: segments_vec[index + 1],
                value: segments_vec[index + 2],
            };
            if !last_point.time.le(end.time) {
                assert(segments_from(stream, index as int, last_point) is None);
                return Err(Fault::MalformedDescriptor);
            }
            let segment = AnimationCurveType::Linear(last_point, end);
            proof {
                let rest = segments_from(stream, index + 3, end);
                if rest is Some {
                    assert(ret@.push(segment) + rest->0 =~= ret@ + (seq![segment] + rest->0));
                }
            }
            ret.push(segment);
            last_point = end;
            index += 3;
        } else {
            assert(segments_from(stream, index as int, last_point) is None);
            return Err(Fault::MalformedDescriptor);
        }
    }
    proof {
        assert(ret@ + Seq::<AnimationCurveType>::empty() =~= ret@);
        if ret@.len() > 0 {
            lemma_segments_from_chain(stream, 2, first);
        }
    }
    if ret.len() == 0 {
        return Err(Fault::MalformedDescriptor);
    }
    Ok(ret)
}

/// A curve: what it drives, its segments in the order of their times, and
/// the cursor, the index of the segment that the last evaluation found.
#[derive(Clone, Debug)]
pub struct AnimationCurve {
    pub curve_type: AnimationType,
    pub segments: Vec<AnimationCurveType>,
    /// How far the curve has been played: the search for a segment starts
    /// here.
    pub evaluated_index: usize,
}

/// The first segment from `from` on that covers `time`, if there is one.
pub open spec fn first_cover(segments: Seq<AnimationCurveType>, from: int, time: Scalar) -> Option<
    int,
>
    decreases segments.len() - from,
{
    if from < 0 || from >= segments.len() {
        None
    } else if segments[from].covers(time) {
        Some(from)
    } else {
        first_cover(segments, from + 1, time)
    }
}

/// `first_cover` finds the least index from `from` on whose segment covers
/// `time`, and finds none only where none of them covers it.
pub proof fn lemma_first_cover(segments: Seq<AnimationCurveType>, from: int, time: Scalar)
    requires
        0 <= from,
    ensures
        match first_cover(segments, from, time) {
            Some(i) => {
                &&& from <= i < segments.len()
                &&& segments[i].covers(time)
                &&& forall|j: int| from <= j < i ==> !(#[trigger] segments[j]).covers(time)
            },
            None => forall|j: int|
                from <= j < segments.len() ==> !(#[trigger] segments[j]).covers(time),
        },
    decreases segments.len() - from,
{
    if from < segments.len() && !segments[from].covers(time) {
        lemma_first_cover(segments, from + 1, time);
    }
}

/// In a curve the segments from `from` on cover every time between the
/// start of the segment at `from` and the end of the last segment.
pub proof fn lemma_curve_covers_from(segments: Seq<AnimationCurveType>, from: int, time: Scalar)
    requires
        is_curve(segments),
        0 <= from < segments.len(),
        segments[from].first_point_of().time.le(time),
        time.le(segments[segments.len() - 1].last_point_of().time),
    ensures
        first_cover(segments, from, time) is Some,
    decreases segments.len() - from,
{
    if !segments[from].covers(time) {
        // the time lies behind the end of this segment, where the next one starts
        assert(segments[from].last_point_of() == segments[from + 1].first_point_of()) by {
            if from == segments.len() - 1 {
            }
        }
        lemma_curve_covers_from(segments, from + 1, time);
    }
}

/// In a curve the start of the first segment is the earliest time and the
/// end of the last segment the latest: every segment lies between them.
pub proof fn lemma_curve_spans_its_segments(segments: Seq<AnimationCurveType>, i: int)
    requires
        is_curve(segments),
        0 <= i < segments.len(),
    ensures
        segments[0].first_point_of().time.le(segments[i].first_point_of().time),
        segments[i].last_point_of().time.le(segments[segments.len() - 1].last_point_of().time),
{
    lemma_curve_starts_ascend(segments, i);
    lemma_curve_ends_ascend(segments, i);
}

proof fn lemma_curve_starts_ascend(segments: Seq<AnimationCurveType>, i: int)
    requires
        is_curve(segments),
        0 <= i < segments.len(),
    ensures
        segments[0].first_point_of().time.le(segments[i].first_point_of().time),
    decreases i,
{
    if i > 0 {
        lemma_curve_starts_ascend(segments, i - 1);
        assert(segments[i - 1].last_point_of() == segments[i].first_point_of());
        assert(segments[i - 1].first_point_of().time.le(segments[i - 1].last_point_of().time));
    } else {
        assert(segments[0].first_point_of().time.le(segments[0].last_point_of().time));
    }
}

proof fn lemma_curve_ends_ascend(segments: Seq<AnimationCurveType>, i: int)
    requires
        is_curve(segments),
        0 <= i < segments.len(),
    ensures
        segments[i].last_point_of().time.le(segments[segments.len() - 1].last_point_of().time),
    decreases segments.len() - i,
{
    if i < segments.len() - 1 {
        lemma_curve_ends_ascend(segments, i + 1);
        assert(segments[i].last_point_of() == segments[i + 1].first_point_of());
        assert(segments[i + 1].first_point_of().time.le(segments[i + 1].last_point_of().time));
    } else {
        assert(segments[i].first_point_of().time.le(segments[i].last_point_of().time));
    }
}

/// A curve that is played from its start has a value at exactly the times
/// of its domain: a segment covers the time where the time lies between the
/// start of the first segment and the end of the last, and nowhere else.
pub proof fn lemma_domain_is_what_is_covered(segments: Seq<AnimationCurveType>, time: Scalar)
    requires
        is_curve(segments),
    ensures
        first_cover(segments, 0, time) is Some <==> in_domain(segments, time),
{
    if in_domain(segments, time) {
        lemma_curve_covers_from(segments, 0, time);
    }
    lemma_first_cover(segments, 0, time);
    if first_cover(segments, 0, time) is Some {
        let i = first_cover(segments, 0, time)->0;
        lemma_curve_spans_its_segments(segments, i);
    }
}

impl AnimationCurve {
    /// The segment that an evaluation at `time` finds: the first one at or
    /// after the cursor that covers `time`.
    pub open spec fn cover_of(&self, time: Scalar) -> Option<int> {
        first_cover(self.segments@, self.evaluated_index as int, time)
    }

    /// The value of the curve at `time`, where a segment covers it.
    pub open spec fn value_of<A: Fn(Op, Scalar, Scalar) -> Scalar>(
        &self,
        unit: &A,
        time: Scalar,
    ) -> Scalar {
        self.segments@[self.cover_of(time)->0].evaluate_of(unit, time)
    }

    /// Looks for the segment that covers `time`, from the cursor on, and
    /// leaves the cursor where it is.
    pub fn find_segment(&self, time: Scalar) -> (r: Option<usize>)
        ensures
            match r {
                Some(i) => self.cover_of(time) == Some(i as int) && i < self.segments@.len(),
                None => self.cover_of(time) is None,
            },
    {
        let n = self.segments.len();
        let mut i: usize = self.evaluated_index;
        while i < n
            invariant
                n == self.segments@.len(),
                self.evaluated_index <= i,
                self.cover_of(time) == first_cover(self.segments@, i as int, time),
            decreases n - i,
        {
            if self.segments[i].covers(time) {
                return Some(i);
            }
            i += 1;
        }
        None
    }

    /// The value of the curve at `time`. The segment is looked for from the
    /// cursor on, and the cursor moves to the segment found. Where no
    /// segment covers `time` the call fails and the cursor stays.
    pub fn evaluate_curve<A: Fn(Op, Scalar, Scalar) -> Scalar>(
        &mut self,
        unit: &A,
        time: Scalar,
    ) -> (r: Result<Scalar, Fault>)
        requires
            well_behaved(*unit),
        ensures
            final(self).curve_type == old(self).curve_type,
            final(self).segments == old(self).segments,
            match old(self).cover_of(time) {
                Some(i) => {
                    &&& r == Ok::<Scalar, Fault>(old(self).value_of(unit, time))
                    &&& final(self).evaluated_index == i
                },
                None => {
                    &&& r == Err::<Scalar, Fault>(Fault::OutOfDomain)
                    &&& final(self).evaluated_index == old(self).evaluated_index
                },
            },
    {
        match self.find_segment(time) {
            Some(i) => {
                self.evaluated_index = i;
                Ok(self.segments[i].evaluate(unit, time))
            },
            None => Err(Fault::OutOfDomain),
        }
    }

    /// Moves the cursor back to the first segment, as a restart of the
    /// motion asks.
    pub fn reset(&mut self)
        ensures
            final(self).curve_type == old(self).curve_type,
            final(self).segments == old(self).segments,
            final(self).evaluated_index == 0,
    {
        self.evaluated_index = 0;
    }
}

/// A motion: its length, whether it loops, the number of curves that its
/// description announced, and its curves, each under the identifier of what
/// it drives. No identifier occurs twice.
#[derive(Clone, Debug)]
pub struct Animation {
    /// The length of the motion in seconds.
    pub duration: Scalar,
    /// Whether the motion starts over when it has ended.
    pub is_loop: bool,
    pub curve_count: usize,
    pub curves: Vec<(String, AnimationCurve)>,
}

/// A curve under its identifier, as a plain value.
pub struct CurveEntry {
    pub id: Seq<char>,
    pub curve_type: AnimationType,
    pub segments: Seq<AnimationCurveType>,
    pub cursor: int,
}

/// What the target word of a curve description stands for.
pub open spec fn target_of(target: Seq<char>) -> Option<AnimationType> {
    if target == "Parameter"@ {
        Some(AnimationType::ParameterAnimationCurve)
    } else if target == "PartOpacity"@ {
        Some(AnimationType::PartOpacityAnimationCurve)
    } else {
        None
    }
}

/// The curve that a curve description gives, with its cursor at the start;
/// `None` where the target word is unknown or the stream is malformed.
pub open spec fn entry_of(curve: Curve) -> Option<CurveEntry> {
    match (target_of(curve.target@), parse_segments_of(curve.segments@)) {
        (Some(curve_type), Some(segments)) => Some(
            CurveEntry { id: curve.id@, curve_type, segments, cursor: 0 },
        ),
        _ => None,
    }
}

/// The identifiers of a run of entries.
pub open spec fn ids_of(entries: Seq<CurveEntry>) -> Seq<Seq<char>> {
    Seq::new(entries.len(), |i: int| entries[i].id)
}

/// The entries with one more: it takes the place of the entry with its
/// identifier, or comes last where there is none.
pub open spec fn upsert(entries: Seq<CurveEntry>, entry: CurveEntry) -> Seq<CurveEntry> {
    match first_index_of(ids_of(entries), entry.id) {
        Some(i) => entries.update(i, entry),
        None => entries.push(entry),
    }
}

/// The entries that the first `n` curve descriptions give; `None` where one
/// of them is malformed.
pub open spec fn entries_of(curves: Seq<Curve>, n: int) -> Option<Seq<CurveEntry>>
    decreases n,
{
    if n <= 0 {
        Some(Seq::empty())
    } else {
        match (entries_of(curves, n - 1), entry_of(curves[n - 1])) {
            (Some(entries), Some(entry)) => Some(upsert(entries, entry)),
            _ => None,
        }
    }
}

/// Whether no identifier occurs twice.
pub open spec fn distinct(ids: Seq<Seq<char>>) -> bool {
    forall|i: int, j: int| 0 <= i < j < ids.len() ==> ids[i] != ids[j]
}

/// Taking in one more entry keeps the identifiers distinct.
pub proof fn lemma_upsert_keeps_distinct(entries: Seq<CurveEntry>, entry: CurveEntry)
    requires
        distinct(ids_of(entries)),
    ensures
        distinct(ids_of(upsert(entries, entry))),
{
    crate::model_resource::lemma_first_index_of(ids_of(entries), entry.id);
    let after = upsert(entries, entry);
    assert forall|i: int, j: int| 0 <= i < j < ids_of(after).len() implies ids_of(after)[i]
        != ids_of(after)[j] by {
        match first_index_of(ids_of(entries), entry.id) {
            Some(k) => {
                assert(ids_of(entries)[k] == entry.id);
                assert(ids_of(after)[i] == ids_of(entries)[i]);
                assert(ids_of(after)[j] == ids_of(entries)[j]);
            },
            None => {
                if j < entries.len() {
                    assert(ids_of(after)[i] == ids_of(entries)[i]);
                    assert(ids_of(after)[j] == ids_of(entries)[j]);
                } else {
                    assert(ids_of(after)[i] == ids_of(entries)[i]);
                    assert(ids_of(entries)[i] != entry.id);
                }
            },
        }
    }
}

/// The entries of a motion description never hold an identifier twice.
pub proof fn lemma_entries_are_distinct(curves: Seq<Curve>, n: int)
    requires
        entries_of(curves, n) is Some,
    ensures
        distinct(ids_of(entries_of(curves, n)->0)),
    decreases n,
{
    if n > 0 {
        lemma_entries_are_distinct(curves, n - 1);
        lemma_upsert_keeps_distinct(entries_of(curves, n - 1)->0, entry_of(curves[n - 1])->0);
    }
}

/// Whether a malformed curve stands among the first `n` descriptions.
pub proof fn lemma_entries_fail_on_malformed(curves: Seq<Curve>, n: int)
    requires
        0 <= n <= curves.len(),
    ensures
        entries_of(curves, n) is None <==> exists|k: int|
            0 <= k < n && (#[trigger] entry_of(curves[k])) is None,
    decreases n,
{
    if n > 0 {
        lemma_entries_fail_on_malformed(curves, n - 1);
        if entries_of(curves, n - 1) is None {
            let k = choose|k: int| 0 <= k < n - 1 && (#[trigger] entry_of(curves[k])) is None;
            assert(0 <= k < n && entry_of(curves[k]) is None);
        } else if entry_of(curves[n - 1]) is None {
        } else {
            assert forall|k: int| 0 <= k < n implies (#[trigger] entry_of(curves[k])) is Some by {
                if k < n - 1 {
                }
            }
        }
    }
}

/// A motion as a plain value: its length, whether it loops, the number of
/// curves that its description announced, and its curves under their
/// identifiers.
pub struct AnimationView {
    pub duration: Scalar,
    pub is_loop: bool,
    pub curve_count: usize,
    pub curves: Seq<CurveEntry>,
}

impl View for Animation {
    type V = AnimationView;

    open spec fn view(&self) -> AnimationView {
        AnimationView {
            duration: self.duration,
            is_loop: self.is_loop,
            curve_count: self.curve_count,
            curves: self.entries(),
        }
    }
}

/// The motion that a description gives: the length, the loop flag and the
/// number of curves of its header, and the curves that its curve
/// descriptions give, each with its cursor at the start; `None` where a
/// curve description is malformed.
pub open spec fn animation_of(json: MotionJson) -> Option<AnimationView> {
    match entries_of(json.curves@, json.curves@.len() as int) {
        Some(curves) => Some(
            AnimationView {
                duration: json.meta.duration,
                is_loop: json.meta.is_loop,
                curve_count: json.meta.curve_count,
                curves,
            },
        ),
        None => None,
    }
}

impl Animation {
    /// The curves under their identifiers, as plain values.
    pub open spec fn entries(&self) -> Seq<CurveEntry> {
        Seq::new(
            self.curves@.len(),
            |k: int|
                CurveEntry {
                    id: self.curves@[k].0@,
                    curve_type: self.curves@[k].1.curve_type,
                    segments: self.curves@[k].1.segments@,
                    cursor: self.curves@[k].1.evaluated_index as int,
                },
        )
    }

    /// Whether no identifier occurs twice among the curves, and the
    /// segments of each make up a curve.
    pub open spec fn wf(&self) -> bool {
        &&& distinct(ids_of(self.entries()))
        &&& forall|k: int|
            0 <= k < self.curves@.len() ==> is_curve((#[trigger] self.curves@[k]).1.segments@)
    }

    fn read_curve(curve: &Curve) -> (r: Option<AnimationCurve>)
        ensures
            match entry_of(*curve) {
                Some(entry) => r matches Some(c) && c.curve_type == entry.curve_type && c.segments@
                    == entry.segments && c.evaluated_index == 0 && is_curve(c.segments@),
                None => r is None,
            },
    {
        proof {
            if parse_segments_of(curve.segments@) is Some {
                lemma_parsed_is_curve(curve.segments@);
            }
        }
        let parameter: String = "Parameter".to_owned();
        let part_opacity: String = "PartOpacity".to_owned();
        let curve_type = if curve.target == parameter {
            AnimationType::ParameterAnimationCurve
        } else if curve.target == part_opacity {
            AnimationType::PartOpacityAnimationCurve
        } else {
            return None;
        };
        match parse_segments(&curve.segments) {
            Ok(segments) => Some(AnimationCurve { curve_type, segments, evaluated_index: 0 }),
            Err(_) => None,
        }
    }

    fn position_of(curves: &Vec<(String, AnimationCurve)>, id: &String) -> (r: Option<usize>)
        ensures
            match r {
                Some(i) => i < curves@.len() && first_index_of(
                    Seq::new(curves@.len(), |k: int| curves@[k].0@),
                    id@,
                ) == Some(i as int),
                None => first_index_of(Seq::new(curves@.len(), |k: int| curves@[k].0@), id@)
                    is None,
            },
    {
        let ghost ids = Seq::new(curves@.len(), |k: int| curves@[k].0@);
        let n = curves.len();
        let mut i: usize = 0;
        proof {
            crate::model_resource::lemma_first_index_of(ids, id@);
        }
        while i < n
            invariant
                n == curves@.len(),
                i <= n,
                ids == Seq::new(curves@.len(), |k: int| curves@[k].0@),
                forall|j: int| 0 <= j < i ==> ids[j] != id@,
                match first_index_of(ids, id@) {
                    Some(m) => crate::model_resource::is_first_index_of(ids, id@, m),
                    None => forall|j: int| 0 <= j < ids.len() ==> ids[j] != id@,
                },
            decreases n - i,
        {
            if curves[i].0 == *id {
                proof {
                    let m = first_index_of(ids, id@)->0;
                    assert(ids[i as int] == id@);
                    if first_index_of(ids, id@) is Some {
                        assert(crate::model_resource::is_first_index_of(ids, id@, i as int));
                        crate::model_resource::lemma_first_index_is_unique(ids, id@, i as int, m);
                    }
                }
                return Some(i);
            }
            i += 1;
        }
        proof {
            if first_index_of(ids, id@) is Some {
                let m = first_index_of(ids, id@)->0;
                assert(ids[m] == id@);
            }
        }
        None
    }

    /// Builds a motion from its description. A curve takes the place of an
    /// earlier one with its identifier. The description is rejected where a
    /// curve drives neither a parameter nor the opacity of a part, or where
    /// its stream of segments is malformed.
    pub fn new(json: &MotionJson) -> (r: Result<Animation, Fault>)
        ensures
            match animation_of(*json) {
                Some(view) => {
                    &&& r matches Ok(animation)
                    &&& animation@ == view
                    &&& animation.wf()
                },
                None => r matches Err(fault) && fault == Fault::MalformedDescriptor,
            },
            r is Err <==> exists|k: int|
                0 <= k < json.curves@.len() && (#[trigger] entry_of(json.curves@[k])) is None,
    {
        let mut curves: Vec<(String, AnimationCurve)> = Vec::new();
        let n = json.curves.len();
        let mut k: usize = 0;
        proof {
            lemma_entries_fail_on_malformed(json.curves@, n as int);
        }
        while k < n
            invariant
                n == json.curves@.len(),
                k <= n,
                forall|i: int|
                    0 <= i < curves@.len() ==> is_curve((#[trigger] curves@[i]).1.segments@),
                entries_of(json.curves@, k as int) == Some(
                    Seq::new(
                        curves@.len(),
                        |i: int|
                            CurveEntry {
                                id: curves@[i].0@,
                                curve_type: curves@[i].1.curve_type,
                                segments: curves@[i].1.segments@,
                                cursor: curves@[i].1.evaluated_index as int,
                            },
                    ),
                ),
            decreases n - k,
        {
            let ghost before = Seq::new(
                curves@.len(),
                |i: int|
                    CurveEntry {
                        id: curves@[i].0@,
                        curve_type: curves@[i].1.curve_type,
                        segments: curves@[i].1.segments@,
                        cursor: curves@[i].1.evaluated_index as int,
                    },
            );
            let description = &json.curves[k];
            match Self::read_curve(description) {
                Some(curve) => {
                    let ghost entry = entry_of(*description)->0;
                    proof {
                        assert(ids_of(before) =~= Seq::new(curves@.len(), |i: int| curves@[i].0@));
                    }
                    match Self::position_of(&curves, &description.id) {
                        Some(i) => {
                            curves[i] = (description.id.clone(), curve);
                        },
                        None => {
                            curves.push((description.id.clone(), curve));
                        },
                    }
                    proof {
                        let after = Seq::new(
                            curves@.len(),
                            |i: int|
                                CurveEntry {
                                    id: curves@[i].0@,
                                    curve_type: curves@[i].1.curve_type,
                                    segments: curves@[i].1.segments@,
                                    cursor: curves@[i].1.evaluated_index as int,
                                },
                        );
                        assert(after =~= upsert(before, entry));
                    }
                },
                None => {
                    proof {
                        assert(entries_of(json.curves@, k as int + 1) is None);
                        lemma_entries_none_stays(json.curves@, k as int + 1, n as int);
                    }
                    return Err(Fault::MalformedDescriptor);
                },
            }
            k += 1;
        }
        let animation = Animation {
            duration: json.meta.duration,
            is_loop: json.meta.is_loop,
            curve_count: json.meta.curve_count,
            curves,
        };
        proof {
            lemma_entries_are_distinct(json.curves@, n as int);
        }
        Ok(animation)
    }

    /// Reads a motion description as `new` does and keeps nothing of it: the
    /// call only tells whether the description is well formed.
    pub fn add(json: &MotionJson) -> (r: Result<(), Fault>)
        ensures
            match animation_of(*json) {
                Some(_) => r is Ok,
                None => r == Err::<(), Fault>(Fault::MalformedDescriptor),
            },
    {
        match Self::new(json) {
            Ok(_) => Ok(()),
            Err(fault) => Err(fault),
        }
    }

    /// Why the curve at `k` cannot be played at `time` on `model`, if it
    /// cannot: no segment covers the time, or the model has nothing under
    /// the curve's identifier for the curve to drive.
    pub open spec fn curve_fault(
        &self,
        model: &Live2DModelResource,
        time: Scalar,
        k: int,
    ) -> Option<Fault> {
        let id = self.curves@[k].0@;
        let curve = self.curves@[k].1;
        if curve.cover_of(time) is None {
            Some(Fault::OutOfDomain)
        } else {
            match curve.curve_type {
                AnimationType::ParameterAnimationCurve => if first_index_of(
                    model.parameter_ids(),
                    id,
                ) is None {
                    Some(Fault::UnknownParameterId)
                } else {
                    None
                },
                AnimationType::PartOpacityAnimationCurve => if first_index_of(model.part_ids(), id)
                    is None {
                    Some(Fault::UnknownParameterId)
                } else {
                    None
                },
                AnimationType::ModelAnimationCurve => Some(Fault::UnknownParameterId),
            }
        }
    }

    /// The parameter values of `model` after the first `n` curves have
    /// written theirs at `time`.
    pub open spec fn parameter_values_after<A: Fn(Op, Scalar, Scalar) -> Scalar>(
        &self,
        unit: &A,
        model: &Live2DModelResource,
        time: Scalar,
        n: int,
    ) -> Seq<Scalar>
        decreases n,
    {
        if n <= 0 {
            model.parameter_values()
        } else {
            let before = self.parameter_values_after(unit, model, time, n - 1);
            let curve = self.curves@[n - 1].1;
            if curve.curve_type == AnimationType::ParameterAnimationCurve {
                before.update(
                    first_index_of(model.parameter_ids(), self.curves@[n - 1].0@)->0,
                    curve.value_of(unit, time),
                )
            } else {
                before
            }
        }
    }

    /// The part opacities of `model` after the first `n` curves have
    /// written theirs at `time`.
    pub open spec fn part_opacities_after<A: Fn(Op, Scalar, Scalar) -> Scalar>(
        &self,
        unit: &A,
        model: &Live2DModelResource,
        time: Scalar,
        n: int,
    ) -> Seq<Scalar>
        decreases n,
    {
        if n <= 0 {
            model.part_opacities()
        } else {
            let before = self.part_opacities_after(unit, model, time, n - 1);
            let curve = self.curves@[n - 1].1;
            if curve.curve_type == AnimationType::PartOpacityAnimationCurve {
                before.update(
                    first_index_of(model.part_ids(), self.curves@[n - 1].0@)->0,
                    curve.value_of(unit, time),
                )
            } else {
                before
            }
        }
    }

    /// Whether the curve at `k` writes the parameter at `j` of `model`.
    pub open spec fn writes_parameter(&self, model: &Live2DModelResource, k: int, j: int) -> bool {
        &&& self.curves@[k].1.curve_type == AnimationType::ParameterAnimationCurve
        &&& first_index_of(model.parameter_ids(), self.curves@[k].0@) == Some(j)
    }

    /// Whether the curve at `k` writes the opacity of the part at `j` of
    /// `model`.
    pub open spec fn writes_part(&self, model: &Live2DModelResource, k: int, j: int) -> bool {
        &&& self.curves@[k].1.curve_type == AnimationType::PartOpacityAnimationCurve
        &&& first_index_of(model.part_ids(), self.curves@[k].0@) == Some(j)
    }

    /// What a motion writes does not depend on the order of its curves: in
    /// a motion in which no identifier occurs twice, and of which every
    /// curve can be played, a parameter ends up with the value of the one
    /// curve that writes it, and is left as it was where no curve does.
    pub proof fn lemma_parameter_values_after_pointwise<A: Fn(Op, Scalar, Scalar) -> Scalar>(
        &self,
        unit: &A,
        model: &Live2DModelResource,
        time: Scalar,
        n: int,
        j: int,
    )
        requires
            self.wf(),
            0 <= n <= self.curves@.len(),
            0 <= j < model.parameters@.len(),
            forall|k: int| 0 <= k < n ==> (#[trigger] self.curve_fault(model, time, k)) is None,
        ensures
            self.parameter_values_after(unit, model, time, n).len() == model.parameters@.len(),
            forall|k: int|
                0 <= k < n && #[trigger] self.writes_parameter(model, k, j)
                    ==> self.parameter_values_after(unit, model, time, n)[j]
                    == self.curves@[k].1.value_of(unit, time),
            (forall|k: int| 0 <= k < n ==> !#[trigger] self.writes_parameter(model, k, j))
                ==> self.parameter_values_after(unit, model, time, n)[j]
                == model.parameters@[j].value,
        decreases n,
    {
        if n > 0 {
            self.lemma_parameter_values_after_pointwise(unit, model, time, n - 1, j);
            let last = n - 1;
            assert(self.curve_fault(model, time, last) is None);
            crate::model_resource::lemma_first_index_of(
                model.parameter_ids(),
                self.curves@[last].0@,
            );
            if forall|k: int| 0 <= k < n ==> !#[trigger] self.writes_parameter(model, k, j) {
                assert(!self.writes_parameter(model, last, j));
                assert forall|k: int| 0 <= k < n - 1 implies !#[trigger] self.writes_parameter(
                    model,
                    k,
                    j,
                ) by {}
            }
            assert forall|k: int|
                0 <= k < n && #[trigger] self.writes_parameter(model, k, j) implies self.parameter_values_after(
                unit,
                model,
                time,
                n,
            )[j] == self.curves@[k].1.value_of(unit, time) by {
                if k < last && self.writes_parameter(model, last, j) {
                    // two curves that write one parameter carry one identifier
                    crate::model_resource::lemma_first_index_of(
                        model.parameter_ids(),
                        self.curves@[k].0@,
                    );
                    assert(ids_of(self.entries())[k] == self.curves@[k].0@);
                    assert(ids_of(self.entries())[last] == self.curves@[last].0@);
                    assert(self.curves@[k].0@ == model.parameter_ids()[j]);
                    assert(self.curves@[last].0@ == model.parameter_ids()[j]);
                }
            }
        }
    }

    /// What a motion writes does not depend on the order of its curves: in
    /// a motion in which no identifier occurs twice, and of which every
    /// curve can be played, a part ends up with the opacity of the one curve
    /// that writes it, and is left as it was where no curve does.
    pub proof fn lemma_part_opacities_after_pointwise<A: Fn(Op, Scalar, Scalar) -> Scalar>(
        &self,
        unit: &A,
        model: &Live2DModelResource,
        time: Scalar,
        n: int,
        j: int,
    )
        requires
            self.wf(),
            0 <= n <= self.curves@.len(),
            0 <= j < model.parts@.len(),
            forall|k: int| 0 <= k < n ==> (#[trigger] self.curve_fault(model, time, k)) is None,
        ensures
            self.part_opacities_after(unit, model, time, n).len() == model.parts@.len(),
            forall|k: int|
                0 <= k < n && #[trigger] self.writes_part(model, k, j)
                    ==> self.part_opacities_after(unit, model, time, n)[j]
                    == self.curves@[k].1.value_of(unit, time),
            (forall|k: int| 0 <= k < n ==> !#[trigger] self.writes_part(model, k, j))
                ==> self.part_opacities_after(unit, model, time, n)[j]
                == model.parts@[j].opacitiy,
        decreases n,
    {
        if n > 0 {
            self.lemma_part_opacities_after_pointwise(unit, model, time, n - 1, j);
            let last = n - 1;
            assert(self.curve_fault(model, time, last) is None);
            crate::model_resource::lemma_first_index_of(model.part_ids(), self.curves@[last].0@);
            if forall|k: int| 0 <= k < n ==> !#[trigger] self.writes_part(model, k, j) {
                assert(!self.writes_part(model, last, j));
                assert forall|k: int| 0 <= k < n - 1 implies !#[trigger] self.writes_part(
                    model,
                    k,
                    j,
                ) by {}
            }
            assert forall|k: int|
                0 <= k < n && #[trigger] self.writes_part(model, k, j) implies self.part_opacities_after(
                unit,
                model,
                time,
                n,
            )[j] == self.curves@[k].1.value_of(unit, time) by {
                if k < last && self.writes_part(model, last, j) {
                    // two curves that write one part carry one identifier
                    crate::model_resource::lemma_first_index_of(
                        model.part_ids(),
                        self.curves@[k].0@,
                    );
                    assert(ids_of(self.entries())[k] == self.curves@[k].0@);
                    assert(ids_of(self.entries())[last] == self.curves@[last].0@);
                    assert(self.curves@[k].0@ == model.part_ids()[j]);
                    assert(self.curves@[last].0@ == model.part_ids()[j]);
                }
            }
        }
    }

    /// Whether `other` is this motion with other cursors.
    pub open spec fn same_curves(&self, other: &Animation) -> bool {
        &&& self.duration == other.duration
        &&& self.is_loop == other.is_loop
        &&& self.curve_count == other.curve_count
        &&& self.curves@.len() == other.curves@.len()
        &&& forall|k: int|
            0 <= k < self.curves@.len() ==> {
                &&& (#[trigger] self.curves@[k]).0 == other.curves@[k].0
                &&& self.curves@[k].1.curve_type == other.curves@[k].1.curve_type
                &&& self.curves@[k].1.segments == other.curves@[k].1.segments
            }
    }

    /// Whether `after`, `model_after` and `r` are what playing this motion
    /// at `time` on `model` leaves and answers.
    ///
    /// Where every curve can be played, each curve, in turn, has written its
    /// value to the parameter, or as the opacity of the part, that carries
    /// its identifier, and its cursor has moved to the segment that covers
    /// `time`. Where a curve cannot be played, nothing has changed, and the
    /// answer is the fault of the first such curve.
    pub open spec fn played<A: Fn(Op, Scalar, Scalar) -> Scalar>(
        &self,
        after: &Animation,
        unit: &A,
        model: &Live2DModelResource,
        model_after: &Live2DModelResource,
        time: Scalar,
        r: Result<(), Fault>,
    ) -> bool {
        &&& self.same_curves(after)
        &&& model.same_declarations(model_after)
        &&& model_after.parameters@.len() == model.parameters@.len()
        &&& model_after.parts@.len() == model.parts@.len()
        &&& match r {
            Ok(_) => {
                &&& forall|k: int|
                    0 <= k < self.curves@.len() ==> {
                        &&& (#[trigger] self.curve_fault(model, time, k)) is None
                        &&& self.curves@[k].1.cover_of(time) == Some(
                            after.curves@[k].1.evaluated_index as int,
                        )
                    }
                &&& model_after.parameter_values() == self.parameter_values_after(
                    unit,
                    model,
                    time,
                    self.curves@.len() as int,
                )
                &&& model_after.part_opacities() == self.part_opacities_after(
                    unit,
                    model,
                    time,
                    self.curves@.len() as int,
                )
            },
            Err(fault) => {
                &&& exists|k: int|
                    {
                        &&& 0 <= k < self.curves@.len()
                        &&& (#[trigger] self.curve_fault(model, time, k)) == Some(fault)
                        &&& forall|j: int|
                            0 <= j < k ==> (#[trigger] self.curve_fault(model, time, j)) is None
                    }
                &&& *after == *self
                &&& *model_after == *model
            },
        }
    }

    /// Plays the motion at `time`: each curve, in turn, writes its value to
    /// the parameter, or as the opacity of the part, that carries its
    /// identifier, and its cursor moves to the segment that covers `time`.
    ///
    /// The call fails, and changes nothing, where a curve cannot be played;
    /// the fault is that of the first such curve.
    pub fn evaluate_animation<A: Fn(Op, Scalar, Scalar) -> Scalar>(
        &mut self,
        unit: &A,
        model: &mut Live2DModelResource,
        time: Scalar,
    ) -> (r: Result<(), Fault>)
        requires
            well_behaved(*unit),
        ensures
            old(self).played(final(self), unit, old(model), final(model), time, r),
    {
        let n = self.curves.len();
        let mut plan: Vec<(usize, usize)> = Vec::new();
        let mut k: usize = 0;
        while k < n
            invariant
                n == self.curves@.len(),
                k <= n,
                *self == *old(self),
                *model == *old(model),
                plan@.len() == k,
                forall|j: int|
                    0 <= j < k ==> {
                        &&& (#[trigger] self.curve_fault(model, time, j)) is None
                        &&& self.curves@[j].1.cover_of(time) == Some(plan@[j].0 as int)
                        &&& plan@[j].0 < self.curves@[j].1.segments@.len()
                        &&& self.curves@[j].1.curve_type == AnimationType::ParameterAnimationCurve
                            ==> first_index_of(model.parameter_ids(), self.curves@[j].0@) == Some(
                            plan@[j].1 as int,
                        ) && plan@[j].1 < model.parameters@.len()
                        &&& self.curves@[j].1.curve_type
                            == AnimationType::PartOpacityAnimationCurve ==> first_index_of(
                            model.part_ids(),
                            self.curves@[j].0@,
                        ) == Some(plan@[j].1 as int) && plan@[j].1 < model.parts@.len()
                    },
            decreases n - k,
        {
            let segment = match self.curves[k].1.find_segment(time) {
                Some(i) => i,
                None => {
                    assert(self.curve_fault(model, time, k as int) == Some(Fault::OutOfDomain));
                    return Err(Fault::OutOfDomain);
                },
            };
            let target = match self.curves[k].1.curve_type {
                AnimationType::ParameterAnimationCurve => model.get_parameter_index(
                    &self.curves[k].0,
                ),
                AnimationType::PartOpacityAnimationCurve => model.get_part_index(
                    &self.curves[k].0,
                ),
                AnimationType::ModelAnimationCurve => None,
            };
            match target {
                Some(index) => {
                    plan.push((segment, index));
                },
                None => {
                    assert(self.curve_fault(model, time, k as int) == Some(
                        Fault::UnknownParameterId,
                    ));
                    return Err(Fault::UnknownParameterId);
                },
            }
            k += 1;
        }

        let mut k: usize = 0;
        while k < n
            invariant
                n == self.curves@.len(),
                n == old(self).curves@.len(),
                k <= n,
                well_behaved(*unit),
                plan@.len() == n,
                old(self).same_curves(self),
                old(model).same_declarations(model),
                model.parameters@.len() == old(model).parameters@.len(),
                model.parts@.len() == old(model).parts@.len(),
                forall|j: int| k <= j < n ==> self.curves@[j] == old(self).curves@[j],
                forall|j: int|
                    0 <= j < k ==> old(self).curves@[j].1.cover_of(time) == Some(
                        (#[trigger] self.curves@[j]).1.evaluated_index as int,
                    ),
                forall|j: int|
                    0 <= j < n ==> {
                        &&& (#[trigger] old(self).curve_fault(old(model), time, j)) is None
                        &&& old(self).curves@[j].1.cover_of(time) == Some(plan@[j].0 as int)
                        &&& plan@[j].0 < old(self).curves@[j].1.segments@.len()
                        &&& old(self).curves@[j].1.curve_type
                            == AnimationType::ParameterAnimationCurve ==> first_index_of(
                            old(model).parameter_ids(),
                            old(self).curves@[j].0@,
                        ) == Some(plan@[j].1 as int) && plan@[j].1 < old(model).parameters@.len()
                        &&& old(self).curves@[j].1.curve_type
                            == AnimationType::PartOpacityAnimationCurve ==> first_index_of(
                            old(model).part_ids(),
                            old(self).curves@[j].0@,
                        ) == Some(plan@[j].1 as int) && plan@[j].1 < old(model).parts@.len()
                    },
                model.parameter_values() == old(self).parameter_values_after(
                    unit,
                    old(model),
                    time,
                    k as int,
                ),
                model.part_opacities() == old(self).part_opacities_after(
                    unit,
                    old(model),
                    time,
                    k as int,
                ),
            decreases n - k,
        {
            let segment = plan[k].0;
            let index = plan[k].1;
            assert(old(self).curve_fault(old(model), time, k as int) is None);
            assert(self.curves@[k as int] == old(self).curves@[k as int]);
            let value = self.curves[k].1.segments[segment].evaluate(unit, time);
            assert(value == old(self).curves@[k as int].1.value_of(unit, time));
            self.curves[k].1.evaluated_index = segment;
            match self.curves[k].1.curve_type {
                AnimationType::ParameterAnimationCurve => {
                    model.set_parameter_value(index, value);
                },
                AnimationType::PartOpacityAnimationCurve => {
                    model.set_part_opacity(index, value);
                },
                AnimationType::ModelAnimationCurve => {},
            }
            k += 1;
        }
        Ok(())
    }

    /// Moves the cursor of every curve back to its first segment.
    pub fn reset_evaluate_indeies(&mut self)
        ensures
            final(self).duration == old(self).duration,
            final(self).is_loop == old(self).is_loop,
            final(self).curve_count == old(self).curve_count,
            final(self).curves@.len() == old(self).curves@.len(),
            forall|k: int|
                0 <= k < old(self).curves@.len() ==> {
                    &&& (#[trigger] final(self).curves@[k]).0 == old(self).curves@[k].0
                    &&& final(self).curves@[k].1.curve_type == old(self).curves@[k].1.curve_type
                    &&& final(self).curves@[k].1.segments == old(self).curves@[k].1.segments
                    &&& final(self).curves@[k].1.evaluated_index == 0
                },
    {
        let n = self.curves.len();
        let mut k: usize = 0;
        while k < n
            invariant
                k <= n,
                n == self.curves@.len(),
                self.duration == old(self).duration,
                self.is_loop == old(self).is_loop,
                self.curve_count == old(self).curve_count,
                self.curves@.len() == old(self).curves@.len(),
                forall|j: int|
                    0 <= j < n ==> {
                        &&& (#[trigger] self.curves@[j]).0 == old(self).curves@[j].0
                        &&& self.curves@[j].1.curve_type == old(self).curves@[j].1.curve_type
                        &&& self.curves@[j].1.segments == old(self).curves@[j].1.segments
                    },
                forall|j: int| 0 <= j < k ==> (#[trigger] self.curves@[j]).1.evaluated_index == 0,
            decreases n - k,
        {
            self.curves[k].1.evaluated_index = 0;
            k += 1;
        }
    }
}

/// Once a curve is malformed, taking in more curves does not mend it.
pub proof fn lemma_entries_none_stays(curves: Seq<Curve>, m: int, n: int)
    requires
        m <= n,
        entries_of(curves, m) is None,
    ensures
        entries_of(curves, n) is None,
    decreases n - m,
{
    if m < n {
        lemma_entries_none_stays(curves, m, n - 1);
    }
}

} // verus!
