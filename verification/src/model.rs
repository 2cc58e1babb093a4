//! A model together with its motions and its physics.

use crate::animation::Animation;
use crate::arith::{well_behaved, Op};
use crate::fault::Fault;
use crate::model_resource::Live2DModelResource;
use crate::physic::types::Physics;
use crate::scalar::Scalar;
use crate::scalar::ZERO_BITS;
use vstd::prelude::*;

verus! {

/// A model with what moves it: its parameters and parts, its motions, its
/// physics where it has any, and the motion that is being played.
#[derive(Clone, Debug)]
pub struct Live2DModel {
    pub resource: Live2DModelResource,
    pub animations: Vec<Animation>,
    pub physics: Option<Physics>,
    /// The number of the motion that is being played, once one has been
    /// chosen.
    pub animation_index: Option<usize>,
}

impl Live2DModel {
    /// Whether the physics of the model, where it has any, is well formed.
    pub open spec fn wf(&self) -> bool {
        self.physics matches Some(physics) ==> physics@.wf()
    }

    /// Puts a model together. No motion is chosen yet.
    pub fn from_parts(
        resource: Live2DModelResource,
        animations: Vec<Animation>,
        physics: Option<Physics>,
    ) -> (model: Live2DModel)
        ensures
            model.resource == resource,
            model.animations == animations,
            model.physics == physics,
            model.animation_index is None,
    {
        Live2DModel { resource, animations, physics, animation_index: None }
    }

    /// Plays the chosen motion at `time`.
    pub fn animation<A: Fn(Op, Scalar, Scalar) -> Scalar>(&mut self, unit: &A, time: Scalar) -> (r:
        Result<(), Fault>)
        requires
            well_behaved(*unit),
            old(self).animation_index matches Some(index) && index < old(self).animations@.len(),
        ensures
            final(self).animation_index == old(self).animation_index,
            final(self).physics == old(self).physics,
            final(self).animations@.len() == old(self).animations@.len(),
            forall|k: int|
                0 <= k < old(self).animations@.len() && k != old(self).animation_index->0
                    ==> final(self).animations@[k] == old(self).animations@[k],
            old(self).animations@[old(self).animation_index->0 as int].played(
                &final(self).animations@[old(self).animation_index->0 as int],
                unit,
                &old(self).resource,
                &final(self).resource,
                time,
                r,
            ),
    {
        let index = self.animation_index.unwrap();
        self.animations[index].evaluate_animation(unit, &mut self.resource, time)
    }

    /// The chosen motion, if the model has a motion of that number.
    pub fn get_animation(&self) -> (r: Option<&Animation>)
        requires
            self.animation_index is Some,
        ensures
            match r {
                Some(animation) => self.animation_index->0 < self.animations@.len() && *animation
                    == self.animations@[self.animation_index->0 as int],
                None => self.animation_index->0 >= self.animations@.len(),
            },
    {
        let index = self.animation_index.unwrap();
        if index < self.animations.len() {
            Some(&self.animations[index])
        } else {
            None
        }
    }

    /// The chosen motion, to be changed, if the model has a motion of that
    /// number.
    pub fn get_mut_animation(&mut self) -> (r: Option<&mut Animation>)
        requires
            old(self).animation_index is Some,
        ensures
            match r {
                Some(animation) => {
                    &&& old(self).animation_index->0 < old(self).animations@.len()
                    &&& *animation == old(self).animations@[old(self).animation_index->0 as int]
                    &&& final(self).animations@ == old(self).animations@.update(
                        old(self).animation_index->0 as int,
                        *final(animation),
                    )
                    &&& final(self).resource == old(self).resource
                    &&& final(self).physics == old(self).physics
                    &&& final(self).animation_index == old(self).animation_index
                },
                None => {
                    &&& old(self).animation_index->0 >= old(self).animations@.len()
                    &&& *final(self) == *old(self)
                },
            },
    {
        let index = self.animation_index.unwrap();
        if index < self.animations.len() {
            Some(&mut self.animations[index])
        } else {
            None
        }
    }

    /// Advances the physics of the model, where it has any, by the time
    /// `delta_time`.
    pub fn evaluate_physic<A: Fn(Op, Scalar, Scalar) -> Scalar>(
        &mut self,
        unit: &A,
        delta_time: Scalar,
    ) -> (r: Result<(), Fault>)
        requires
            well_behaved(*unit),
            old(self).wf(),
        ensures
            final(self).wf(),
            final(self).animation_index == old(self).animation_index,
            final(self).animations == old(self).animations,
            match old(self).physics {
                Some(physics) => final(self).physics matches Some(after) && physics.evaluated(
                    &after,
                    unit,
                    &old(self).resource,
                    &final(self).resource,
                    delta_time,
                    r,
                ),
                None => r is Ok && final(self).physics is None && final(self).resource
                    == old(self).resource,
            },
    {
        match &mut self.physics {
            Some(physic) => physic.evaluate(unit, &mut self.resource, delta_time),
            None => Ok(()),
        }
    }

    /// Sets every parameter of the model to its default value.
    pub fn replace_default_values(&mut self)
        ensures
            final(self).resource.parameter_values()
                == old(self).resource.parameter_default_values(),
            old(self).resource.same_declarations(&final(self).resource),
            final(self).resource.parts@ == old(self).resource.parts@,
            final(self).resource.part_opacities() == old(self).resource.part_opacities(),
            final(self).animations == old(self).animations,
            final(self).physics == old(self).physics,
            final(self).animation_index == old(self).animation_index,
    {
        let n = self.resource.parameters.len();
        let mut i: usize = 0;
        while i < n
            invariant
                i <= n,
                n == self.resource.parameters@.len(),
                n == old(self).resource.parameters@.len(),
                old(self).resource.same_declarations(&self.resource),
                self.resource.parts@ == old(self).resource.parts@,
                self.animations == old(self).animations,
                self.physics == old(self).physics,
                self.animation_index == old(self).animation_index,
                forall|j: int|
                    0 <= j < i ==> self.resource.parameter_values()[j]
                        == old(self).resource.parameter_default_values()[j],
            decreases n - i,
        {
            let default_value = self.resource.parameters[i].default_value;
            proof {
                assert(old(self).resource.parameter_default_values()[i as int]
                    == self.resource.parameter_default_values()[i as int]);
            }
            self.resource.set_parameter_value(i, default_value);
            i += 1;
        }
        proof {
            assert(self.resource.parameter_values()
                =~= old(self).resource.parameter_default_values());
        }
    }

    /// Chooses the motion of the number `index`, plays it at its start, and
    /// sets every parameter of the model to its default value, so that of
    /// what the motion has written only the opacities stay. Where the motion
    /// cannot be played at its start, the motion is chosen and the call
    /// fails without another change.
    pub fn reset_animation<A: Fn(Op, Scalar, Scalar) -> Scalar>(
        &mut self,
        unit: &A,
        index: usize,
    ) -> (r: Result<(), Fault>)
        requires
            well_behaved(*unit),
            index < old(self).animations@.len(),
        ensures
            final(self).animation_index == Some(index),
            final(self).physics == old(self).physics,
            final(self).animations@.len() == old(self).animations@.len(),
            forall|k: int|
                0 <= k < old(self).animations@.len() && k != index ==> final(self).animations@[k]
                    == old(self).animations@[k],
            old(self).resource.same_declarations(&final(self).resource),
            match r {
                Ok(_) => {
                    &&& forall|k: int|
                        0 <= k < old(self).animations@[index as int].curves@.len() ==> {
                            &&& (#[trigger] old(self).animations@[index as int].curve_fault(
                                &old(self).resource,
                                Scalar::from_bits(ZERO_BITS),
                                k,
                            )) is None
                            &&& old(self).animations@[index as int].curves@[k].1.cover_of(
                                Scalar::from_bits(ZERO_BITS),
                            ) == Some(
                                final(self).animations@[index as int].curves@[k].1.evaluated_index
                                    as int,
                            )
                        }
                    &&& old(self).animations@[index as int].same_curves(
                        &final(self).animations@[index as int],
                    )
                    &&& final(self).resource.parameter_values()
                        == old(self).resource.parameter_default_values()
                    &&& final(self).resource.part_opacities()
                        == old(self).animations@[index as int].part_opacities_after(
                        unit,
                        &old(self).resource,
                        Scalar::from_bits(ZERO_BITS),
                        old(self).animations@[index as int].curves@.len() as int,
                    )
                },
                Err(_) => old(self).animations@[index as int].played(
                    &final(self).animations@[index as int],
                    unit,
                    &old(self).resource,
                    &final(self).resource,
                    Scalar::from_bits(ZERO_BITS),
                    r,
                ),
            },
    {
        self.animation_index = Some(index);
        let played = self.animation(unit, Scalar::from_bits(ZERO_BITS));
        let ghost model_after = self.resource;
        let ghost animation_after = self.animations@[index as int];
        assert(old(self).animations@[index as int].played(
            &animation_after,
            unit,
            &old(self).resource,
            &model_after,
            Scalar::from_bits(ZERO_BITS),
            played,
        ));
        match played {
            Ok(_) => {
                self.replace_default_values();
                proof {
                    assert(old(self).resource.parameter_default_values()
                        =~= model_after.parameter_default_values());
                    assert(self.animations@[index as int] == animation_after);
                }
                Ok(())
            },
            Err(fault) => Err(fault),
        }
    }
}

} // verus!
