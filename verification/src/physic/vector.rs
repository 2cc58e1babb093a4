//! Vectors in the plane.

use crate::arith::{atan2, minus, over, plus, powf, times, well_behaved, Op};
use crate::scalar::Scalar;
use crate::scalar::{HALF_BITS, PI_BITS, TWO_BITS, ZERO_BITS};
use vstd::prelude::*;

verus! {

/// A point or a direction in the plane.
#[derive(Clone, Copy, Debug, PartialEq, Eq, Structural)]
pub struct CubismVector2 {
    pub x: Scalar,
    pub y: Scalar,
}

/// The angle raised by whole turns until it is no longer below minus a half
/// turn, or until a turn no longer raises it.
pub open spec fn wrap_up_of<A: Fn(Op, Scalar, Scalar) -> Scalar>(unit: &A, angle: Scalar) -> Scalar
    decreases 0x8000_0000 - angle.order_key(),
{
    let pi = Scalar::from_bits(PI_BITS);
    if angle.lt(pi.neg()) {
        let next = plus(unit, angle, times(unit, pi, Scalar::from_bits(TWO_BITS)));
        if angle.lt(next) {
            wrap_up_of(unit, next)
        } else {
            next
        }
    } else {
        angle
    }
}

/// The angle lowered by whole turns until it is no longer above a half turn,
/// or until a turn no longer lowers it.
pub open spec fn wrap_down_of<A: Fn(Op, Scalar, Scalar) -> Scalar>(
    unit: &A,
    angle: Scalar,
) -> Scalar
    decreases 0x8000_0000 + angle.order_key(),
{
    let pi = Scalar::from_bits(PI_BITS);
    if pi.lt(angle) {
        let next = minus(unit, angle, times(unit, pi, Scalar::from_bits(TWO_BITS)));
        if next.lt(angle) {
            wrap_down_of(unit, next)
        } else {
            next
        }
    } else {
        angle
    }
}

impl CubismVector2 {
    /// The origin.
    pub open spec fn zero() -> CubismVector2 {
        CubismVector2 { x: Scalar::from_bits(ZERO_BITS), y: Scalar::from_bits(ZERO_BITS) }
    }

    /// The sum of two vectors, component by component.
    pub open spec fn add_of<A: Fn(Op, Scalar, Scalar) -> Scalar>(
        self,
        unit: &A,
        rhs: CubismVector2,
    ) -> CubismVector2 {
        CubismVector2 { x: plus(unit, self.x, rhs.x), y: plus(unit, self.y, rhs.y) }
    }

    /// The difference of two vectors, component by component.
    pub open spec fn sub_of<A: Fn(Op, Scalar, Scalar) -> Scalar>(
        self,
        unit: &A,
        rhs: CubismVector2,
    ) -> CubismVector2 {
        CubismVector2 { x: minus(unit, self.x, rhs.x), y: minus(unit, self.y, rhs.y) }
    }

    /// The vector with both components multiplied by `rhs`.
    pub open spec fn mul_of<A: Fn(Op, Scalar, Scalar) -> Scalar>(
        self,
        unit: &A,
        rhs: Scalar,
    ) -> CubismVector2 {
        CubismVector2 { x: times(unit, self.x, rhs), y: times(unit, self.y, rhs) }
    }

    /// The vector with both components divided by `rhs`.
    pub open spec fn div_of<A: Fn(Op, Scalar, Scalar) -> Scalar>(
        self,
        unit: &A,
        rhs: Scalar,
    ) -> CubismVector2 {
        CubismVector2 { x: over(unit, self.x, rhs), y: over(unit, self.y, rhs) }
    }

    /// The vector divided by its length, the square root of the sum of its
    /// squared components.
    pub open spec fn normalize_of<A: Fn(Op, Scalar, Scalar) -> Scalar>(
        &self,
        unit: &A,
    ) -> CubismVector2 {
        let squares = plus(unit, times(unit, self.x, self.x), times(unit, self.y, self.y));
        self.div_of(unit, powf(unit, squares, Scalar::from_bits(HALF_BITS)))
    }

    /// The angle, in radians, by which `self` has to turn to point as `to`
    /// does, brought into the range of half a turn either way.
    pub open spec fn to_radian_of<A: Fn(Op, Scalar, Scalar) -> Scalar>(
        &self,
        unit: &A,
        to: &CubismVector2,
    ) -> Scalar {
        let q1 = atan2(unit, to.y, to.x);
        let q2 = atan2(unit, self.y, self.x);
        wrap_down_of(unit, wrap_up_of(unit, minus(unit, q1, q2)))
    }

    /// The origin.
    #[verifier::when_used_as_spec(zero)]
    pub fn default() -> (r: CubismVector2)
        ensures
            r == CubismVector2::zero(),
    {
        CubismVector2 { x: Scalar::from_bits(ZERO_BITS), y: Scalar::from_bits(ZERO_BITS) }
    }

    /// The sum of two vectors, component by component.
    #[verifier::when_used_as_spec(add_of)]
    pub fn add<A: Fn(Op, Scalar, Scalar) -> Scalar>(self, unit: &A, rhs: CubismVector2) -> (r:
        CubismVector2)
        requires
            well_behaved(*unit),
        ensures
            r == self.add_of(unit, rhs),
    {
        CubismVector2 { x: plus(unit, self.x, rhs.x), y: plus(unit, self.y, rhs.y) }
    }

    /// The difference of two vectors, component by component.
    #[verifier::when_used_as_spec(sub_of)]
    pub fn sub<A: Fn(Op, Scalar, Scalar) -> Scalar>(self, unit: &A, rhs: CubismVector2) -> (r:
        CubismVector2)
        requires
            well_behaved(*unit),
        ensures
            r == self.sub_of(unit, rhs),
    {
        CubismVector2 { x: minus(unit, self.x, rhs.x), y: minus(unit, self.y, rhs.y) }
    }

    /// The vector with both components multiplied by `rhs`.
    #[verifier::when_used_as_spec(mul_of)]
    pub fn mul<A: Fn(Op, Scalar, Scalar) -> Scalar>(self, unit: &A, rhs: Scalar) -> (r:
        CubismVector2)
        requires
            well_behaved(*unit),
        ensures
            r == self.mul_of(unit, rhs),
    {
        CubismVector2 { x: times(unit, self.x, rhs), y: times(unit, self.y, rhs) }
    }

    /// The vector with both components divided by `rhs`.
    #[verifier::when_used_as_spec(div_of)]
    pub fn div<A: Fn(Op, Scalar, Scalar) -> Scalar>(self, unit: &A, rhs: Scalar) -> (r:
        CubismVector2)
        requires
            well_behaved(*unit),
        ensures
            r == self.div_of(unit, rhs),
    {
        CubismVector2 { x: over(unit, self.x, rhs), y: over(unit, self.y, rhs) }
    }

    /// The vector divided by its length.
    #[verifier::when_used_as_spec(normalize_of)]
    pub fn normalize<A: Fn(Op, Scalar, Scalar) -> Scalar>(&self, unit: &A) -> (r: CubismVector2)
        requires
            well_behaved(*unit),
        ensures
            r == self.normalize_of(unit),
    {
        let squares = plus(unit, times(unit, self.x, self.x), times(unit, self.y, self.y));
        let length = powf(unit, squares, Scalar::from_bits(HALF_BITS));
        self.div(unit, length)
    }

    /// The signed angle from `self` to `to`. It is brought into range a turn
    /// at a time, and a turn that fails to bring it nearer is the last.
    #[verifier::when_used_as_spec(to_radian_of)]
    pub fn to_radian<A: Fn(Op, Scalar, Scalar) -> Scalar>(
        &self,
        unit: &A,
        to: &CubismVector2,
    ) -> (r: Scalar)
        requires
            well_behaved(*unit),
        ensures
            r == self.to_radian_of(unit, to),
    {
        let pi = Scalar::from_bits(PI_BITS);
        let turn = times(unit, pi, Scalar::from_bits(TWO_BITS));
        let q1 = atan2(unit, to.y, to.x);
        let q2 = atan2(unit, self.y, self.x);

        let mut ret = minus(unit, q1, q2);
        let ghost start = ret;
        while ret.lt(pi.neg())
            invariant_except_break
                wrap_up_of(unit, ret) == wrap_up_of(unit, start),
            invariant
                well_behaved(*unit),
                pi == Scalar::from_bits(PI_BITS),
                turn == times(unit, pi, Scalar::from_bits(TWO_BITS)),
            ensures
                ret == wrap_up_of(unit, start),
            decreases 0x8000_0000 - ret.order_key(),
        {
            let next = plus(unit, ret, turn);
            let progressed = ret.lt(next);
            ret = next;
            if !progressed {
                break ;
            }
        }

        let ghost middle = ret;
        while pi.lt(ret)
            invariant_except_break
                wrap_down_of(unit, ret) == wrap_down_of(unit, middle),
            invariant
                well_behaved(*unit),
                pi == Scalar::from_bits(PI_BITS),
                turn == times(unit, pi, Scalar::from_bits(TWO_BITS)),
            ensures
                ret == wrap_down_of(unit, middle),
            decreases 0x8000_0000 + ret.order_key(),
        {
            let next = minus(unit, ret, turn);
            let progressed = next.lt(ret);
            ret = next;
            if !progressed {
                break ;
            }
        }

        ret
    }
}

} // verus!
