//! The mapping of a parameter's value onto the range of a chain.

use crate::arith::{minus, over, plus, times, well_behaved, Op};
use crate::physic::types::{CubismPhysicsInputType, CubismPhysicsNormalization};
use crate::physic::vector::CubismVector2;
use crate::scalar::Scalar;
use crate::scalar::{TWO_BITS, ZERO_BITS};
use vstd::prelude::*;

verus! {

/// The width of the range between `min` and `max`, whichever is the larger.
pub open spec fn get_range_value_of<A: Fn(Op, Scalar, Scalar) -> Scalar>(
    unit: &A,
    min: Scalar,
    max: Scalar,
) -> Scalar {
    minus(unit, min.max(max), min.min(max)).abs()
}

/// The width of the range between `min` and `max`.
#[verifier::when_used_as_spec(get_range_value_of)]
pub fn get_range_value<A: Fn(Op, Scalar, Scalar) -> Scalar>(
    unit: &A,
    min: Scalar,
    max: Scalar,
) -> (r: Scalar)
    requires
        well_behaved(*unit),
    ensures
        r == get_range_value_of(unit, min, max),
{
    let max_value = min.max(max);
    let min_value = min.min(max);
    minus(unit, max_value, min_value).abs()
}

/// The middle of the range between `min` and `max`.
pub open spec fn get_default_value_of<A: Fn(Op, Scalar, Scalar) -> Scalar>(
    unit: &A,
    min: Scalar,
    max: Scalar,
) -> Scalar {
    plus(
        unit,
        min.min(max),
        over(unit, get_range_value(unit, min, max), Scalar::from_bits(TWO_BITS)),
    )
}

/// The middle of the range between `min` and `max`.
#[verifier::when_used_as_spec(get_default_value_of)]
pub fn get_default_value<A: Fn(Op, Scalar, Scalar) -> Scalar>(
    unit: &A,
    min: Scalar,
    max: Scalar,
) -> (r: Scalar)
    requires
        well_behaved(*unit),
    ensures
        r == get_default_value_of(unit, min, max),
{
    let min_value = min.min(max);
    plus(unit, min_value, over(unit, get_range_value(unit, min, max), Scalar::from_bits(TWO_BITS)))
}

/// The value of a parameter, mapped from the parameter's range onto a
/// normalized range.
///
/// The value is first held to the parameter's range. Its distance from the
/// middle of that range is then scaled: above the middle by the ratio of the
/// upper halves of the two ranges, below it by the ratio of the lower
/// halves, and moved by the resting value of the normalized range. At the
/// middle, and where the distance is not a number, the result is the resting
/// value; where the half range of the parameter is zero, it is zero. The
/// result changes its sign unless the input is inverted.
pub open spec fn normalize_parameter_value_of<A: Fn(Op, Scalar, Scalar) -> Scalar>(
    unit: &A,
    value: Scalar,
    parameter_minimum: Scalar,
    parameter_maximum: Scalar,
    parameter_default: Scalar,
    normalized_minimum: Scalar,
    normalized_maximum: Scalar,
    normalized_default: Scalar,
    is_inverted: bool,
) -> Scalar {
    let zero = Scalar::from_bits(ZERO_BITS);
    let max_value = parameter_maximum.max(parameter_minimum);
    let value = if max_value.lt(value) {
        max_value
    } else {
        value
    };
    let min_value = parameter_maximum.min(parameter_minimum);
    let value = if value.lt(min_value) {
        min_value
    } else {
        value
    };
    let min_norm_value = normalized_minimum.min(normalized_maximum);
    let max_norm_value = normalized_minimum.max(normalized_maximum);
    let middle_norm_value = normalized_default;
    let middle_value = get_default_value(unit, min_value, max_value);
    let param_value = minus(unit, value, middle_value);
    let result = if zero.lt(param_value) {
        let n_length = minus(unit, max_norm_value, middle_norm_value);
        let p_length = minus(unit, max_value, middle_value);
        if p_length.eq_value(zero) {
            zero
        } else {
            plus(unit, times(unit, param_value, over(unit, n_length, p_length)), middle_norm_value)
        }
    } else if param_value.lt(zero) {
        let n_length = minus(unit, min_norm_value, middle_norm_value);
        let p_length = minus(unit, min_value, middle_value);
        if p_length.eq_value(zero) {
            zero
        } else {
            plus(unit, times(unit, param_value, over(unit, n_length, p_length)), middle_norm_value)
        }
    } else {
        middle_norm_value
    };
    if is_inverted {
        result
    } else {
        result.neg()
    }
}

/// Maps the value of a parameter onto a normalized range.
#[verifier::when_used_as_spec(normalize_parameter_value_of)]
pub fn normalize_parameter_value<A: Fn(Op, Scalar, Scalar) -> Scalar>(
    unit: &A,
    value: Scalar,
    parameter_minimum: Scalar,
    parameter_maximum: Scalar,
    parameter_default: Scalar,
    normalized_minimum: Scalar,
    normalized_maximum: Scalar,
    normalized_default: Scalar,
    is_inverted: bool,
) -> (r: Scalar)
    requires
        well_behaved(*unit),
    ensures
        r == normalize_parameter_value_of(
            unit,
            value,
            parameter_minimum,
            parameter_maximum,
            parameter_default,
            normalized_minimum,
            normalized_maximum,
            normalized_default,
            is_inverted,
        ),
{
    let zero = Scalar::from_bits(ZERO_BITS);
    let mut result = zero;

    let max_value = parameter_maximum.max(parameter_minimum);
    let value = if max_value.lt(value) {
        max_value
    } else {
        value
    };

    let min_value = parameter_maximum.min(parameter_minimum);
    let value = if min_value.gt(value) {
        min_value
    } else {
        value
    };

    let min_norm_value = normalized_minimum.min(normalized_maximum);
    let max_norm_value = normalized_minimum.max(normalized_maximum);
    let middle_norm_value = normalized_default;

    let middle_value = get_default_value(unit, min_value, max_value);
    let param_value = minus(unit, value, middle_value);

    if param_value.gt(zero) {
        let n_length = minus(unit, max_norm_value, middle_norm_value);
        let p_length = minus(unit, max_value, middle_value);
        if !p_length.eq_value(zero) {
            let ratio = over(unit, n_length, p_length);
            result = plus(unit, times(unit, param_value, ratio), middle_norm_value);
        }
    } else if param_value.lt(zero) {
        let n_length = minus(unit, min_norm_value, middle_norm_value);
        let p_length = minus(unit, min_value, middle_value);
        if !p_length.eq_value(zero) {
            let ratio = over(unit, n_length, p_length);
            result = plus(unit, times(unit, param_value, ratio), middle_norm_value);
        }
    } else {
        result = middle_norm_value;
    }

    if is_inverted {
        result
    } else {
        result.neg()
    }
}

/// A value beyond the range of its parameter is mapped as the bound of the
/// range that it lies beyond.
pub proof fn lemma_normalize_saturates<A: Fn(Op, Scalar, Scalar) -> Scalar>(
    unit: &A,
    value: Scalar,
    parameter_minimum: Scalar,
    parameter_maximum: Scalar,
    parameter_default: Scalar,
    normalized_minimum: Scalar,
    normalized_maximum: Scalar,
    normalized_default: Scalar,
    is_inverted: bool,
)
    ensures
        parameter_maximum.max(parameter_minimum).lt(value) ==> normalize_parameter_value(
            unit,
            value,
            parameter_minimum,
            parameter_maximum,
            parameter_default,
            normalized_minimum,
            normalized_maximum,
            normalized_default,
            is_inverted,
        ) == normalize_parameter_value(
            unit,
            parameter_maximum.max(parameter_minimum),
            parameter_minimum,
            parameter_maximum,
            parameter_default,
            normalized_minimum,
            normalized_maximum,
            normalized_default,
            is_inverted,
        ),
        value.lt(parameter_maximum.min(parameter_minimum)) ==> normalize_parameter_value(
            unit,
            value,
            parameter_minimum,
            parameter_maximum,
            parameter_default,
            normalized_minimum,
            normalized_maximum,
            normalized_default,
            is_inverted,
        ) == normalize_parameter_value(
            unit,
            parameter_maximum.min(parameter_minimum),
            parameter_minimum,
            parameter_maximum,
            parameter_default,
            normalized_minimum,
            normalized_maximum,
            normalized_default,
            is_inverted,
        ),
{
}

impl CubismPhysicsInputType {
    /// The totals of a chain after one more input has been added: the
    /// normalized value of the input, times its weight, goes to the
    /// horizontal or the vertical position or to the angle. A position is
    /// mapped onto the chain's range of positions, an angle onto its range
    /// of angles.
    pub open spec fn get_normalized_parameter_value_of<A: Fn(Op, Scalar, Scalar) -> Scalar>(
        &self,
        unit: &A,
        target_translation: CubismVector2,
        target_angle: Scalar,
        value: Scalar,
        parameter_minimum: Scalar,
        parameter_maximum: Scalar,
        parameter_default: Scalar,
        normalization_position: &CubismPhysicsNormalization,
        normalization_angle: &CubismPhysicsNormalization,
        is_inverted: bool,
        weight: Scalar,
    ) -> (CubismVector2, Scalar) {
        let by_position = times(
            unit,
            normalize_parameter_value(
                unit,
                value,
                parameter_minimum,
                parameter_maximum,
                parameter_default,
                normalization_position.minimum,
                normalization_position.maximum,
                normalization_position.default,
                is_inverted,
            ),
            weight,
        );
        let by_angle = times(
            unit,
            normalize_parameter_value(
                unit,
                value,
                parameter_minimum,
                parameter_maximum,
                parameter_default,
                normalization_angle.minimum,
                normalization_angle.maximum,
                normalization_angle.default,
                is_inverted,
            ),
            weight,
        );
        match *self {
            CubismPhysicsInputType::X => (
                CubismVector2 {
                    x: plus(unit, target_translation.x, by_position),
                    y: target_translation.y,
                },
                target_angle,
            ),
            CubismPhysicsInputType::Y => (
                CubismVector2 {
                    x: target_translation.x,
                    y: plus(unit, target_translation.y, by_position),
                },
                target_angle,
            ),
            CubismPhysicsInputType::Angle => (
                target_translation,
                plus(unit, target_angle, by_angle),
            ),
        }
    }

    /// Adds the normalized value of one input to the totals of its chain.
    pub fn get_normalized_parameter_value<A: Fn(Op, Scalar, Scalar) -> Scalar>(
        &self,
        unit: &A,
        target_translation: &mut CubismVector2,
        target_angle: &mut Scalar,
        value: Scalar,
        parameter_minimum: Scalar,
        parameter_maximum: Scalar,
        parameter_default: Scalar,
        normalization_position: &CubismPhysicsNormalization,
        normalization_angle: &CubismPhysicsNormalization,
        is_inverted: bool,
        weight: Scalar,
    )
        requires
            well_behaved(*unit),
        ensures
            (*final(target_translation), *final(target_angle))
                == self.get_normalized_parameter_value_of(
                unit,
                *old(target_translation),
                *old(target_angle),
                value,
                parameter_minimum,
                parameter_maximum,
                parameter_default,
                normalization_position,
                normalization_angle,
                is_inverted,
                weight,
            ),
    {
        match self {
            CubismPhysicsInputType::X => {
                let normalized = normalize_parameter_value(
                    unit,
                    value,
                    parameter_minimum,
                    parameter_maximum,
                    parameter_default,
                    normalization_position.minimum,
                    normalization_position.maximum,
                    normalization_position.default,
                    is_inverted,
                );
                target_translation.x = plus(
                    unit,
                    target_translation.x,
                    times(unit, normalized, weight),
                );
            },
            CubismPhysicsInputType::Y => {
                let normalized = normalize_parameter_value(
                    unit,
                    value,
                    parameter_minimum,
                    parameter_maximum,
                    parameter_default,
                    normalization_position.minimum,
                    normalization_position.maximum,
                    normalization_position.default,
                    is_inverted,
                );
                target_translation.y = plus(
                    unit,
                    target_translation.y,
                    times(unit, normalized, weight),
                );
            },
            CubismPhysicsInputType::Angle => {
                let normalized = normalize_parameter_value(
                    unit,
                    value,
                    parameter_minimum,
                    parameter_maximum,
                    parameter_default,
                    normalization_angle.minimum,
                    normalization_angle.maximum,
                    normalization_angle.default,
                    is_inverted,
                );
                *target_angle = plus(unit, *target_angle, times(unit, normalized, weight));
            },
        }
    }
}

} // verus!
