//! What an output takes from its chain and how it is blended into its
//! parameter.

use crate::arith::{minus, over, plus, times, well_behaved, Op};
use crate::physic::types::{
    CubismPhysicsOutput, CubismPhysicsParticle, GetOutputScaleTranslationType,
    GetOutputTranslation,
};
use crate::physic::vector::CubismVector2;
use crate::scalar::Scalar;
use crate::scalar::{HUNDRED_BITS, MINUS_ONE_BITS, ONE_BITS};
use vstd::prelude::*;

verus! {

impl GetOutputScaleTranslationType {
    /// The scale that an output applies: that of the horizontal or of the
    /// vertical position, or that of the angle.
    pub open spec fn get_output_scale_translation_of(
        &self,
        translation_scale: CubismVector2,
        angle_scale: Scalar,
    ) -> Scalar {
        match *self {
            GetOutputScaleTranslationType::X => translation_scale.x,
            GetOutputScaleTranslationType::Y => translation_scale.y,
            GetOutputScaleTranslationType::Angle => angle_scale,
        }
    }

    /// The scale that an output applies to its value.
    #[verifier::when_used_as_spec(get_output_scale_translation_of)]
    pub fn get_output_scale_translation(
        &self,
        translation_scale: CubismVector2,
        angle_scale: Scalar,
    ) -> (r: Scalar)
        ensures
            r == self.get_output_scale_translation_of(translation_scale, angle_scale),
    {
        match self {
            GetOutputScaleTranslationType::X => translation_scale.x,
            GetOutputScaleTranslationType::Y => translation_scale.y,
            GetOutputScaleTranslationType::Angle => angle_scale,
        }
    }
}

/// `value`, or `value` times minus one where `is_inverted` holds.
pub open spec fn reflected_of<A: Fn(Op, Scalar, Scalar) -> Scalar>(
    unit: &A,
    value: Scalar,
    is_inverted: bool,
) -> Scalar {
    if is_inverted {
        times(unit, value, Scalar::from_bits(MINUS_ONE_BITS))
    } else {
        value
    }
}

impl GetOutputTranslation {
    /// The value that an output takes from `translation`, the step from the
    /// particle before its own to its own.
    ///
    /// For a position it is the component of the step. For the angle it is
    /// the angle from the direction of the chain above to the step: the
    /// direction above is the step between the two particles before, and for
    /// the first step of a chain the reverse of `parent_gravity`. The value
    /// counts with its sign flipped where `is_inverted` holds.
    ///
    /// `particles` holds the particles of all chains, `base` is where those
    /// of this chain start, and `particle_index` counts within the chain.
    pub open spec fn get_value_of<A: Fn(Op, Scalar, Scalar) -> Scalar>(
        &self,
        unit: &A,
        translation: CubismVector2,
        particles: Seq<CubismPhysicsParticle>,
        base: int,
        particle_index: int,
        is_inverted: bool,
        parent_gravity: CubismVector2,
    ) -> Scalar {
        match *self {
            GetOutputTranslation::X => reflected_of(unit, translation.x, is_inverted),
            GetOutputTranslation::Y => reflected_of(unit, translation.y, is_inverted),
            GetOutputTranslation::Angle => {
                let gravity = if particle_index >= 2 {
                    particles[base + particle_index - 1].position.sub(
                        unit,
                        particles[base + particle_index - 2].position,
                    )
                } else {
                    parent_gravity.mul(unit, Scalar::from_bits(MINUS_ONE_BITS))
                };
                reflected_of(unit, gravity.to_radian(unit, &translation), is_inverted)
            },
        }
    }

    /// Takes the value of an output from the step between two particles.
    pub fn get_value<A: Fn(Op, Scalar, Scalar) -> Scalar>(
        &self,
        unit: &A,
        translation: CubismVector2,
        particles: &Vec<CubismPhysicsParticle>,
        base: usize,
        particle_index: usize,
        is_inverted: bool,
        parent_gravity: CubismVector2,
    ) -> (r: Scalar)
        requires
            well_behaved(*unit),
            particle_index >= 2 ==> base + particle_index - 1 < particles@.len(),
        ensures
            r == self.get_value_of(
                unit,
                translation,
                particles@,
                base as int,
                particle_index as int,
                is_inverted,
                parent_gravity,
            ),
    {
        let minus_one = Scalar::from_bits(MINUS_ONE_BITS);
        match self {
            GetOutputTranslation::X => {
                if is_inverted {
                    times(unit, translation.x, minus_one)
                } else {
                    translation.x
                }
            },
            GetOutputTranslation::Y => {
                if is_inverted {
                    times(unit, translation.y, minus_one)
                } else {
                    translation.y
                }
            },
            GetOutputTranslation::Angle => {
                let gravity = if particle_index >= 2 {
                    assert(base + particle_index <= particles.len());
                    let own = base + particle_index;
                    particles[own - 1].position.sub(unit, particles[own - 2].position)
                } else {
                    parent_gravity.mul(unit, minus_one)
                };

                let output_value = gravity.to_radian(unit, &translation);

                if is_inverted {
                    times(unit, output_value, minus_one)
                } else {
                    output_value
                }
            },
        }
    }
}

impl CubismPhysicsOutput {
    /// What the output makes of `translation` before the value is held to
    /// the range of the parameter: `translation` times the output's scale.
    pub open spec fn scaled_of<A: Fn(Op, Scalar, Scalar) -> Scalar>(
        &self,
        unit: &A,
        translation: Scalar,
    ) -> Scalar {
        times(
            unit,
            translation,
            self.get_scale.get_output_scale_translation(self.translation_scale, self.angle_scale),
        )
    }

    /// The output after it has produced a value from `translation` for a
    /// parameter with the given range: a value below the range is recorded
    /// where it lies further below than every one before it, and likewise a
    /// value above the range. Nothing else of the output changes.
    pub open spec fn recorded_of<A: Fn(Op, Scalar, Scalar) -> Scalar>(
        &self,
        unit: &A,
        parameter_value_minimum: Scalar,
        parameter_value_maximum: Scalar,
        translation: Scalar,
    ) -> CubismPhysicsOutput {
        let value = self.scaled_of(unit, translation);
        if value.lt(parameter_value_minimum) {
            if value.lt(self.value_below_minimum) {
                CubismPhysicsOutput { value_below_minimum: value, ..*self }
            } else {
                *self
            }
        } else if parameter_value_maximum.lt(value) {
            if self.value_exceeded_maximum.lt(value) {
                CubismPhysicsOutput { value_exceeded_maximum: value, ..*self }
            } else {
                *self
            }
        } else {
            *self
        }
    }

    /// The value of a parameter after the output has been blended into it.
    ///
    /// The output's value is `translation` times its scale, held to the
    /// range of the parameter. With a weight of a hundred or more it takes
    /// the place of the parameter's value. With a smaller weight `w`, in
    /// hundredths, the result is the parameter's value times one minus `w`,
    /// plus the sum of the output's value and `w`.
    pub open spec fn blended_of<A: Fn(Op, Scalar, Scalar) -> Scalar>(
        &self,
        unit: &A,
        parameter_value: Scalar,
        parameter_value_minimum: Scalar,
        parameter_value_maximum: Scalar,
        translation: Scalar,
    ) -> Scalar {
        let one = Scalar::from_bits(ONE_BITS);
        let scaled = self.scaled_of(unit, translation);
        let value = if scaled.lt(parameter_value_minimum) {
            parameter_value_minimum
        } else if parameter_value_maximum.lt(scaled) {
            parameter_value_maximum
        } else {
            scaled
        };
        let weight = over(unit, self.weight, Scalar::from_bits(HUNDRED_BITS));
        if one.le(weight) {
            value
        } else {
            plus(
                unit,
                times(unit, parameter_value, minus(unit, one, weight)),
                plus(unit, value, weight),
            )
        }
    }
}

/// An output with a weight of a hundred or more leaves its parameter within
/// the parameter's range, whatever the parameter held before: provided the
/// range is one, and the output's value is a number.
pub proof fn lemma_full_weight_stays_in_range<A: Fn(Op, Scalar, Scalar) -> Scalar>(
    unit: &A,
    output: &CubismPhysicsOutput,
    parameter_value: Scalar,
    parameter_value_minimum: Scalar,
    parameter_value_maximum: Scalar,
    translation: Scalar,
)
    requires
        parameter_value_minimum.le(parameter_value_maximum),
        !output.scaled_of(unit, translation).nan(),
        Scalar::from_bits(ONE_BITS).le(
            over(unit, output.weight, Scalar::from_bits(HUNDRED_BITS)),
        ),
    ensures
        parameter_value_minimum.le(
            output.blended_of(
                unit,
                parameter_value,
                parameter_value_minimum,
                parameter_value_maximum,
                translation,
            ),
        ),
        output.blended_of(
            unit,
            parameter_value,
            parameter_value_minimum,
            parameter_value_maximum,
            translation,
        ).le(parameter_value_maximum),
{
}

/// What an output records never moves back towards the range: each record
/// stays, or is replaced by a value further out, and nothing else of the
/// output changes.
pub proof fn lemma_records_move_outwards<A: Fn(Op, Scalar, Scalar) -> Scalar>(
    unit: &A,
    output: &CubismPhysicsOutput,
    parameter_value_minimum: Scalar,
    parameter_value_maximum: Scalar,
    translation: Scalar,
)
    ensures
        ({
            let after = output.recorded_of(
                unit,
                parameter_value_minimum,
                parameter_value_maximum,
                translation,
            );
            &&& after.value_below_minimum == output.value_below_minimum
                || after.value_below_minimum.lt(output.value_below_minimum)
            &&& after.value_exceeded_maximum == output.value_exceeded_maximum
                || output.value_exceeded_maximum.lt(after.value_exceeded_maximum)
            &&& after == (CubismPhysicsOutput {
                value_below_minimum: after.value_below_minimum,
                value_exceeded_maximum: after.value_exceeded_maximum,
                ..*output
            })
        }),
{
}

/// Blends the value of an output into the value of a parameter, and records
/// in the output how far the value lay outside the parameter's range.
///
/// A record never moves back towards the range: it stays, or it is replaced
/// by a value further out.
pub fn update_output_parameter_value<A: Fn(Op, Scalar, Scalar) -> Scalar>(
    unit: &A,
    parameter_value: &mut Scalar,
    parameter_value_minimum: Scalar,
    parameter_value_maximum: Scalar,
    translation: Scalar,
    output: &mut CubismPhysicsOutput,
)
    requires
        well_behaved(*unit),
    ensures
        *final(parameter_value) == old(output).blended_of(
            unit,
            *old(parameter_value),
            parameter_value_minimum,
            parameter_value_maximum,
            translation,
        ),
        *final(output) == old(output).recorded_of(
            unit,
            parameter_value_minimum,
            parameter_value_maximum,
            translation,
        ),
        final(output).value_below_minimum == old(output).value_below_minimum
            || final(output).value_below_minimum.lt(old(output).value_below_minimum),
        final(output).value_exceeded_maximum == old(output).value_exceeded_maximum
            || old(output).value_exceeded_maximum.lt(final(output).value_exceeded_maximum),
{
    let output_scale = output.get_scale.get_output_scale_translation(
        output.translation_scale,
        output.angle_scale,
    );
    let mut value = times(unit, translation, output_scale);

    if value.lt(parameter_value_minimum) {
        if value.lt(output.value_below_minimum) {
            output.value_below_minimum = value;
        }
        value = parameter_value_minimum;
    } else if value.gt(parameter_value_maximum) {
        if value.gt(output.value_exceeded_maximum) {
            output.value_exceeded_maximum = value;
        }
        value = parameter_value_maximum;
    }

    let one = Scalar::from_bits(ONE_BITS);
    let weight = over(unit, output.weight, Scalar::from_bits(HUNDRED_BITS));

    if weight.ge(one) {
        *parameter_value = value;
    } else {
        value = plus(
            unit,
            times(unit, *parameter_value, minus(unit, one, weight)),
            plus(unit, value, weight),
        );
        *parameter_value = value;
    }
}

} // verus!
