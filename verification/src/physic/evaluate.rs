//! The simulation: steps of a fixed length through the time that is left,
//! and the blend of the last two steps into the model.

use crate::arith::{cos, minus, over, plus, sin, times, to_radians, well_behaved, Op};
use crate::fault::Fault;
use crate::model_resource::{first_index_of, Live2DModelResource};
use crate::physic::output::update_output_parameter_value;
use crate::physic::particles::{update_particles, update_particles_of};
use crate::physic::rig::{
    lemma_wf_by_shape, rows_of, same_output_definition, zeros, PhysicsView,
};
use crate::physic::types::{
    CubismPhysicsInput, CubismPhysicsOutput, CubismPhysicsParticle, CubismPhysicsSubRig, Physics,
};
use crate::physic::vector::CubismVector2;
use crate::scalar::Scalar;
use crate::scalar::{FIVE_BITS, HUNDRED_BITS, MINUS_ONE_BITS, ONE_BITS, THOUSANDTH_BITS, ZERO_BITS};
use vstd::prelude::*;

verus! {

/// The time that is left to step through, once `delta_time` has been added
/// to what was left before. More than five seconds are not stepped through
/// but dropped.
pub open spec fn remaining_after_of<A: Fn(Op, Scalar, Scalar) -> Scalar>(
    unit: &A,
    remaining: Scalar,
    delta_time: Scalar,
) -> Scalar {
    let sum = plus(unit, remaining, delta_time);
    if Scalar::from_bits(FIVE_BITS).lt(sum) {
        Scalar::from_bits(ZERO_BITS)
    } else {
        sum
    }
}

/// The length of one step: the inverse of the rate where a rate above zero
/// is fixed, and else the time that has just passed.
pub open spec fn physics_delta_time_of<A: Fn(Op, Scalar, Scalar) -> Scalar>(
    unit: &A,
    fps: Option<Scalar>,
    delta_time: Scalar,
) -> Scalar {
    match fps {
        Some(rate) => if Scalar::from_bits(ZERO_BITS).lt(rate) {
            over(unit, Scalar::from_bits(ONE_BITS), rate)
        } else {
            delta_time
        },
        None => delta_time,
    }
}

/// A cache of parameter values, made anew with `count` zeros where it is
/// too short for `count` parameters.
pub open spec fn cache_sized_of(cache: Seq<Scalar>, count: nat) -> Seq<Scalar> {
    if cache.len() < count {
        Seq::new(count, |j: int| Scalar::from_bits(ZERO_BITS))
    } else {
        cache
    }
}

/// The cache of input values, made anew from the values of the model where
/// it is too short for them.
pub open spec fn input_cache_sized_of(cache: Seq<Scalar>, values: Seq<Scalar>) -> Seq<Scalar> {
    if cache.len() < values.len() {
        values
    } else {
        cache
    }
}

/// Whether an index that was looked up earlier does not fit a model with
/// `count` parameters.
pub open spec fn stale(cached: Option<usize>, count: nat) -> bool {
    cached matches Some(index) && index >= count
}

/// Whether the parameter of an input or output cannot be had from the
/// model: the index that was looked up earlier does not fit the model, or,
/// where a step is due and the parameter has not been looked up yet, the
/// model has no parameter with its identifier.
pub open spec fn binding_fails(
    cached: Option<usize>,
    id: Seq<char>,
    ids: Seq<Seq<char>>,
    stepping: bool,
) -> bool {
    stale(cached, ids.len()) || (stepping && cached is None && first_index_of(ids, id) is None)
}

/// Whether the parameter of some input or output cannot be had from the
/// model.
pub open spec fn binding_fault(view: PhysicsView, ids: Seq<Seq<char>>, stepping: bool) -> bool {
    ||| exists|i: int|
        0 <= i < view.inputs.len() && binding_fails(
            (#[trigger] view.inputs[i]).source_parameter_index,
            view.inputs[i].source.id@,
            ids,
            stepping,
        )
    ||| exists|i: int|
        0 <= i < view.outputs.len() && binding_fails(
            (#[trigger] view.outputs[i]).destination_parameter_index,
            view.outputs[i].destination.id@,
            ids,
            stepping,
        )
}

/// The index of a parameter once it has been looked up: the one that was
/// found earlier, or else the first parameter with the identifier.
pub open spec fn bound_index_of(
    cached: Option<usize>,
    id: Seq<char>,
    ids: Seq<Seq<char>>,
) -> Option<usize> {
    match cached {
        Some(index) => Some(index),
        None => Some(first_index_of(ids, id)->0 as usize),
    }
}

/// The inputs with every parameter looked up.
pub open spec fn bound_inputs_of(inputs: Seq<CubismPhysicsInput>, ids: Seq<Seq<char>>) -> Seq<
    CubismPhysicsInput,
> {
    Seq::new(
        inputs.len(),
        |i: int|
            CubismPhysicsInput {
                source_parameter_index: bound_index_of(
                    inputs[i].source_parameter_index,
                    inputs[i].source.id@,
                    ids,
                ),
                ..inputs[i]
            },
    )
}

/// The outputs with every parameter looked up.
pub open spec fn bound_outputs_of(outputs: Seq<CubismPhysicsOutput>, ids: Seq<Seq<char>>) -> Seq<
    CubismPhysicsOutput,
> {
    Seq::new(
        outputs.len(),
        |i: int|
            CubismPhysicsOutput {
                destination_parameter_index: bound_index_of(
                    outputs[i].destination_parameter_index,
                    outputs[i].destination.id@,
                    ids,
                ),
                ..outputs[i]
            },
    )
}

/// Whether every input and output has its parameter looked up, with an
/// index that fits a model of `count` parameters.
pub open spec fn bound(view: PhysicsView, count: nat) -> bool {
    &&& forall|i: int|
        0 <= i < view.inputs.len() ==> (#[trigger] view.inputs[i]).source_parameter_index is Some
            && view.inputs[i].source_parameter_index->0 < count
    &&& forall|i: int|
        0 <= i < view.outputs.len() ==> (
        #[trigger] view.outputs[i]).destination_parameter_index is Some
            && view.outputs[i].destination_parameter_index->0 < count
}

/// Whether every index that has been looked up fits a model of `count`
/// parameters.
pub open spec fn fresh(view: PhysicsView, count: nat) -> bool {
    &&& forall|i: int|
        0 <= i < view.inputs.len() ==> !stale(
            (#[trigger] view.inputs[i]).source_parameter_index,
            count,
        )
    &&& forall|i: int|
        0 <= i < view.outputs.len() ==> !stale(
            (#[trigger] view.outputs[i]).destination_parameter_index,
            count,
        )
}

/// Tells whether the parameter of some input cannot be had from the model.
fn inputs_fail(inputs: &Vec<CubismPhysicsInput>, model: &Live2DModelResource, stepping: bool) -> (r:
    bool)
    ensures
        r == exists|i: int|
            0 <= i < inputs@.len() && binding_fails(
                (#[trigger] inputs@[i]).source_parameter_index,
                inputs@[i].source.id@,
                model.parameter_ids(),
                stepping,
            ),
{
    let count = model.csm_get_parameter_count();
    let n = inputs.len();
    let mut i: usize = 0;
    while i < n
        invariant
            i <= n,
            n == inputs@.len(),
            count == model.parameter_ids().len(),
            forall|j: int|
                0 <= j < i ==> !binding_fails(
                    (#[trigger] inputs@[j]).source_parameter_index,
                    inputs@[j].source.id@,
                    model.parameter_ids(),
                    stepping,
                ),
        decreases n - i,
    {
        match inputs[i].source_parameter_index {
            Some(index) => {
                if index >= count {
                    return true;
                }
            },
            None => {
                if stepping && model.get_parameter_index(&inputs[i].source.id).is_none() {
                    return true;
                }
            },
        }
        i += 1;
    }
    false
}

/// Tells whether the parameter of some output cannot be had from the model.
fn outputs_fail(
    outputs: &Vec<CubismPhysicsOutput>,
    model: &Live2DModelResource,
    stepping: bool,
) -> (r: bool)
    ensures
        r == exists|i: int|
            0 <= i < outputs@.len() && binding_fails(
                (#[trigger] outputs@[i]).destination_parameter_index,
                outputs@[i].destination.id@,
                model.parameter_ids(),
                stepping,
            ),
{
    let count = model.csm_get_parameter_count();
    let n = outputs.len();
    let mut i: usize = 0;
    while i < n
        invariant
            i <= n,
            n == outputs@.len(),
            count == model.parameter_ids().len(),
            forall|j: int|
                0 <= j < i ==> !binding_fails(
                    (#[trigger] outputs@[j]).destination_parameter_index,
                    outputs@[j].destination.id@,
                    model.parameter_ids(),
                    stepping,
                ),
        decreases n - i,
    {
        match outputs[i].destination_parameter_index {
            Some(index) => {
                if index >= count {
                    return true;
                }
            },
            None => {
                if stepping && model.get_parameter_index(&outputs[i].destination.id).is_none() {
                    return true;
                }
            },
        }
        i += 1;
    }
    false
}

/// Looks up the parameter of every input that has none yet.
fn bind_inputs(inputs: &mut Vec<CubismPhysicsInput>, model: &Live2DModelResource)
    requires
        forall|i: int|
            0 <= i < old(inputs)@.len() ==> !binding_fails(
                (#[trigger] old(inputs)@[i]).source_parameter_index,
                old(inputs)@[i].source.id@,
                model.parameter_ids(),
                true,
            ),
    ensures
        final(inputs)@ == bound_inputs_of(old(inputs)@, model.parameter_ids()),
        forall|i: int|
            0 <= i < final(inputs)@.len() ==> (
            #[trigger] final(inputs)@[i]).source_parameter_index is Some
                && final(inputs)@[i].source_parameter_index->0 < model.parameter_ids().len(),
{
    let n = inputs.len();
    let mut i: usize = 0;
    while i < n
        invariant
            i <= n,
            n == inputs@.len(),
            n == old(inputs)@.len(),
            forall|j: int|
                0 <= j < n ==> !binding_fails(
                    (#[trigger] old(inputs)@[j]).source_parameter_index,
                    old(inputs)@[j].source.id@,
                    model.parameter_ids(),
                    true,
                ),
            forall|j: int|
                0 <= j < i ==> (#[trigger] inputs@[j]) == bound_inputs_of(
                    old(inputs)@,
                    model.parameter_ids(),
                )[j],
            forall|j: int| i <= j < n ==> (#[trigger] inputs@[j]) == old(inputs)@[j],
        decreases n - i,
    {
        assert(!binding_fails(
            old(inputs)@[i as int].source_parameter_index,
            old(inputs)@[i as int].source.id@,
            model.parameter_ids(),
            true,
        ));
        if inputs[i].source_parameter_index.is_none() {
            let found = model.get_parameter_index(&inputs[i].source.id);
            inputs[i].source_parameter_index = found;
        }
        i += 1;
    }
    proof {
        assert(inputs@ =~= bound_inputs_of(old(inputs)@, model.parameter_ids()));
        assert forall|i: int| 0 <= i < inputs@.len() implies (
        #[trigger] inputs@[i]).source_parameter_index is Some
            && inputs@[i].source_parameter_index->0 < model.parameter_ids().len() by {
            assert(!binding_fails(
                old(inputs)@[i].source_parameter_index,
                old(inputs)@[i].source.id@,
                model.parameter_ids(),
                true,
            ));
            crate::model_resource::lemma_first_index_of(
                model.parameter_ids(),
                old(inputs)@[i].source.id@,
            );
        }
    }
}

/// Looks up the parameter of every output that has none yet.
fn bind_outputs(outputs: &mut Vec<CubismPhysicsOutput>, model: &Live2DModelResource)
    requires
        forall|i: int|
            0 <= i < old(outputs)@.len() ==> !binding_fails(
                (#[trigger] old(outputs)@[i]).destination_parameter_index,
                old(outputs)@[i].destination.id@,
                model.parameter_ids(),
                true,
            ),
    ensures
        final(outputs)@ == bound_outputs_of(old(outputs)@, model.parameter_ids()),
        forall|i: int|
            0 <= i < final(outputs)@.len() ==> (
            #[trigger] final(outputs)@[i]).destination_parameter_index is Some
                && final(outputs)@[i].destination_parameter_index->0
                < model.parameter_ids().len(),
{
    let n = outputs.len();
    let mut i: usize = 0;
    while i < n
        invariant
            i <= n,
            n == outputs@.len(),
            n == old(outputs)@.len(),
            forall|j: int|
                0 <= j < n ==> !binding_fails(
                    (#[trigger] old(outputs)@[j]).destination_parameter_index,
                    old(outputs)@[j].destination.id@,
                    model.parameter_ids(),
                    true,
                ),
            forall|j: int|
                0 <= j < i ==> (#[trigger] outputs@[j]) == bound_outputs_of(
                    old(outputs)@,
                    model.parameter_ids(),
                )[j],
            forall|j: int| i <= j < n ==> (#[trigger] outputs@[j]) == old(outputs)@[j],
        decreases n - i,
    {
        assert(!binding_fails(
            old(outputs)@[i as int].destination_parameter_index,
            old(outputs)@[i as int].destination.id@,
            model.parameter_ids(),
            true,
        ));
        if outputs[i].destination_parameter_index.is_none() {
            let found = model.get_parameter_index(&outputs[i].destination.id);
            outputs[i].destination_parameter_index = found;
        }
        i += 1;
    }
    proof {
        assert(outputs@ =~= bound_outputs_of(old(outputs)@, model.parameter_ids()));
        assert forall|i: int| 0 <= i < outputs@.len() implies (
        #[trigger] outputs@[i]).destination_parameter_index is Some
            && outputs@[i].destination_parameter_index->0 < model.parameter_ids().len() by {
            assert(!binding_fails(
                old(outputs)@[i].destination_parameter_index,
                old(outputs)@[i].destination.id@,
                model.parameter_ids(),
                true,
            ));
            crate::model_resource::lemma_first_index_of(
                model.parameter_ids(),
                old(outputs)@[i].destination.id@,
            );
        }
    }
}

/// `from` and `to` mixed: `from` times one minus `weight`, plus `to` times
/// `weight`.
pub open spec fn mixed_of<A: Fn(Op, Scalar, Scalar) -> Scalar>(
    unit: &A,
    from: Scalar,
    to: Scalar,
    weight: Scalar,
) -> Scalar {
    plus(
        unit,
        times(unit, from, minus(unit, Scalar::from_bits(ONE_BITS), weight)),
        times(unit, to, weight),
    )
}

/// Mixes `from` and `to` by `weight`.
#[verifier::when_used_as_spec(mixed_of)]
pub fn mixed<A: Fn(Op, Scalar, Scalar) -> Scalar>(
    unit: &A,
    from: Scalar,
    to: Scalar,
    weight: Scalar,
) -> (r: Scalar)
    requires
        well_behaved(*unit),
    ensures
        r == mixed_of(unit, from, to, weight),
{
    let rest = minus(unit, Scalar::from_bits(ONE_BITS), weight);
    plus(unit, times(unit, from, rest), times(unit, to, weight))
}

/// The input values of a step: for each parameter of the model the input
/// value of the step before, mixed with the present value of the parameter.
pub open spec fn eased_of<A: Fn(Op, Scalar, Scalar) -> Scalar>(
    unit: &A,
    input_cache: Seq<Scalar>,
    model: &Live2DModelResource,
    weight: Scalar,
) -> Seq<Scalar> {
    Seq::new(
        input_cache.len(),
        |j: int|
            if j < model.parameters@.len() {
                mixed(unit, input_cache[j], model.parameters@[j].value, weight)
            } else {
                input_cache[j]
            },
    )
}

/// The parameter values at the start of a step: the input values of the
/// step, for each parameter of the model.
pub open spec fn refreshed_of(cache: Seq<Scalar>, eased: Seq<Scalar>, count: nat) -> Seq<Scalar> {
    Seq::new(
        cache.len(),
        |j: int|
            if j < count {
                eased[j]
            } else {
                cache[j]
            },
    )
}

fn ease_inputs<A: Fn(Op, Scalar, Scalar) -> Scalar>(
    unit: &A,
    input_cache: &mut Vec<Scalar>,
    cache: &mut Vec<Scalar>,
    model: &Live2DModelResource,
    weight: Scalar,
)
    requires
        well_behaved(*unit),
        model.parameters@.len() <= old(input_cache)@.len(),
        model.parameters@.len() <= old(cache)@.len(),
    ensures
        final(input_cache)@ == eased_of(unit, old(input_cache)@, model, weight),
        final(cache)@ == refreshed_of(
            old(cache)@,
            eased_of(unit, old(input_cache)@, model, weight),
            model.parameters@.len(),
        ),
{
    let count = model.csm_get_parameter_count();
    let mut j: usize = 0;
    while j < count
        invariant
            well_behaved(*unit),
            j <= count,
            count == model.parameters@.len(),
            input_cache@.len() == old(input_cache)@.len(),
            cache@.len() == old(cache)@.len(),
            count <= input_cache@.len(),
            count <= cache@.len(),
            forall|i: int|
                0 <= i < j ==> (#[trigger] input_cache@[i]) == mixed(
                    unit,
                    old(input_cache)@[i],
                    model.parameters@[i].value,
                    weight,
                ),
            forall|i: int| j <= i < input_cache@.len() ==> input_cache@[i] == old(input_cache)@[i],
            forall|i: int| 0 <= i < j ==> (#[trigger] cache@[i]) == input_cache@[i],
            forall|i: int| j <= i < cache@.len() ==> cache@[i] == old(cache)@[i],
        decreases count - j,
    {
        let value = mixed(unit, input_cache[j], model.parameters[j].value, weight);
        cache[j] = value;
        input_cache[j] = value;
        j += 1;
    }
    proof {
        assert(input_cache@ =~= eased_of(unit, old(input_cache)@, model, weight));
        assert(cache@ =~= refreshed_of(
            old(cache)@,
            eased_of(unit, old(input_cache)@, model, weight),
            model.parameters@.len(),
        ));
    }
}

/// The position and the angle that the first `n` inputs of a chain add up
/// to: each input adds the normalized value of its parameter, weighted by
/// its share in hundredths, to the total of its axis.
pub open spec fn totals_of<A: Fn(Op, Scalar, Scalar) -> Scalar>(
    unit: &A,
    inputs: Seq<CubismPhysicsInput>,
    setting: CubismPhysicsSubRig,
    n: int,
    cache: Seq<Scalar>,
    model: &Live2DModelResource,
) -> (CubismVector2, Scalar)
    decreases n,
{
    if n <= 0 {
        (CubismVector2::zero(), Scalar::from_bits(ZERO_BITS))
    } else {
        let before = totals_of(unit, inputs, setting, n - 1, cache, model);
        let input = inputs[setting.base_input_index + n - 1];
        let index = input.source_parameter_index->0 as int;
        input.cubism_physics_input_type.get_normalized_parameter_value_of(
            unit,
            before.0,
            before.1,
            cache[index],
            model.parameters@[index].minimum_value,
            model.parameters@[index].maximum_value,
            model.parameters@[index].default_value,
            &setting.normalization_position,
            &setting.normalization_angle,
            input.reflect,
            over(unit, input.weight, Scalar::from_bits(HUNDRED_BITS)),
        )
    }
}

fn totals<A: Fn(Op, Scalar, Scalar) -> Scalar>(
    unit: &A,
    inputs: &Vec<CubismPhysicsInput>,
    setting: &CubismPhysicsSubRig,
    cache: &Vec<Scalar>,
    model: &Live2DModelResource,
) -> (r: (CubismVector2, Scalar))
    requires
        well_behaved(*unit),
        setting.base_input_index + setting.input_count <= inputs@.len(),
        model.parameters@.len() <= cache@.len(),
        forall|i: int|
            0 <= i < inputs@.len() ==> (#[trigger] inputs@[i]).source_parameter_index is Some
                && inputs@[i].source_parameter_index->0 < model.parameters@.len(),
    ensures
        r == totals_of(unit, inputs@, *setting, setting.input_count as int, cache@, model),
{
    let mut total_angle = Scalar::from_bits(ZERO_BITS);
    let mut total_translation = CubismVector2::default();
    let length = inputs.len();
    let mut n: usize = 0;
    while n < setting.input_count
        invariant
            well_behaved(*unit),
            n <= setting.input_count,
            length == inputs@.len(),
            setting.base_input_index + setting.input_count <= length,
            model.parameters@.len() <= cache@.len(),
            forall|i: int|
                0 <= i < inputs@.len() ==> (#[trigger] inputs@[i]).source_parameter_index is Some
                    && inputs@[i].source_parameter_index->0 < model.parameters@.len(),
            (total_translation, total_angle) == totals_of(
                unit,
                inputs@,
                *setting,
                n as int,
                cache@,
                model,
            ),
        decreases setting.input_count - n,
    {
        let input = &inputs[setting.base_input_index + n];
        let weight = over(unit, input.weight, Scalar::from_bits(HUNDRED_BITS));
        let index = input.source_parameter_index.unwrap();
        input.cubism_physics_input_type.get_normalized_parameter_value(
            unit,
            &mut total_translation,
            &mut total_angle,
            cache[index],
            model.parameters[index].minimum_value,
            model.parameters[index].maximum_value,
            model.parameters[index].default_value,
            &setting.normalization_position,
            &setting.normalization_angle,
            input.reflect,
            weight,
        );
        n += 1;
    }
    (total_translation, total_angle)
}

/// The position of a chain, turned about the origin by the reverse of the
/// angle of the chain, in degrees: with `r` for the reversed angle in
/// radians, the position `(x, y)` goes to
/// `(x cos r - y sin r, x sin r + y cos r)`. Both components are taken from
/// the position before the turn.
pub open spec fn rotated_of<A: Fn(Op, Scalar, Scalar) -> Scalar>(
    unit: &A,
    translation: CubismVector2,
    angle: Scalar,
) -> CubismVector2 {
    let radian = to_radians(unit, angle.neg());
    CubismVector2 {
        x: minus(
            unit,
            times(unit, translation.x, cos(unit, radian)),
            times(unit, translation.y, sin(unit, radian)),
        ),
        y: plus(
            unit,
            times(unit, translation.x, sin(unit, radian)),
            times(unit, translation.y, cos(unit, radian)),
        ),
    }
}

/// Turns the position of a chain about the origin by the reverse of the
/// angle of the chain.
#[verifier::when_used_as_spec(rotated_of)]
pub fn rotated<A: Fn(Op, Scalar, Scalar) -> Scalar>(
    unit: &A,
    translation: CubismVector2,
    angle: Scalar,
) -> (r: CubismVector2)
    requires
        well_behaved(*unit),
    ensures
        r == rotated_of(unit, translation, angle),
{
    let radian = to_radians(unit, angle.neg());
    let cosine = cos(unit, radian);
    let sine = sin(unit, radian);
    CubismVector2 {
        x: minus(unit, times(unit, translation.x, cosine), times(unit, translation.y, sine)),
        y: plus(unit, times(unit, translation.x, sine), times(unit, translation.y, cosine)),
    }
}

/// What the outputs of a chain write to: the outputs themselves, which
/// record how far their values lay outside the ranges, the parameter values
/// of the step, and the chain's row of output values.
pub struct ChainOutputs {
    pub outputs: Seq<CubismPhysicsOutput>,
    pub cache: Seq<Scalar>,
    pub row: Seq<Scalar>,
}

/// The direction that counts as above the first step of a chain.
pub open spec fn parent_gravity() -> CubismVector2 {
    CubismVector2 { x: Scalar::from_bits(ZERO_BITS), y: Scalar::from_bits(MINUS_ONE_BITS) }
}

/// What the first `n` outputs of a chain leave behind, each in turn.
///
/// An output whose particle is the root of the chain, or lies beyond the
/// chain, leaves everything as it is. Every other output takes its value
/// from the step between the particle before its own and its own, puts it
/// in the row, blends it into the value of its parameter, and records it.
pub open spec fn chain_written_of<A: Fn(Op, Scalar, Scalar) -> Scalar>(
    unit: &A,
    start: ChainOutputs,
    particles: Seq<CubismPhysicsParticle>,
    setting: CubismPhysicsSubRig,
    model: &Live2DModelResource,
    n: int,
) -> ChainOutputs
    decreases n,
{
    if n <= 0 {
        start
    } else {
        let before = chain_written_of(unit, start, particles, setting, model, n - 1);
        let place = setting.base_output_index + n - 1;
        let output = before.outputs[place];
        let particle_index = output.vertex_index as int;
        if particle_index < 1 || particle_index >= setting.particle_count {
            before
        } else {
            let own = setting.base_particle_index + particle_index;
            let translation = particles[own].position.sub(unit, particles[own - 1].position);
            let value = output.get_value.get_value_of(
                unit,
                translation,
                particles,
                setting.base_particle_index as int,
                particle_index,
                output.reflect,
                parent_gravity(),
            );
            let index = output.destination_parameter_index->0 as int;
            let minimum = model.parameters@[index].minimum_value;
            let maximum = model.parameters@[index].maximum_value;
            ChainOutputs {
                outputs: before.outputs.update(
                    place,
                    output.recorded_of(unit, minimum, maximum, value),
                ),
                cache: before.cache.update(
                    index,
                    output.blended_of(unit, before.cache[index], minimum, maximum, value),
                ),
                row: before.row.update(n - 1, value),
            }
        }
    }
}

/// The outputs of a chain keep the lengths of what they write to, and the
/// parameters that they have looked up.
pub proof fn lemma_chain_written_frame<A: Fn(Op, Scalar, Scalar) -> Scalar>(
    unit: &A,
    start: ChainOutputs,
    particles: Seq<CubismPhysicsParticle>,
    setting: CubismPhysicsSubRig,
    model: &Live2DModelResource,
    n: int,
)
    requires
        0 <= n <= setting.output_count,
        setting.base_output_index + setting.output_count <= start.outputs.len(),
        start.row.len() == setting.output_count,
        forall|i: int|
            0 <= i < start.outputs.len() ==> (
            #[trigger] start.outputs[i]).destination_parameter_index is Some
                && start.outputs[i].destination_parameter_index->0 < start.cache.len(),
    ensures
        ({
            let after = chain_written_of(unit, start, particles, setting, model, n);
            &&& after.outputs.len() == start.outputs.len()
            &&& after.cache.len() == start.cache.len()
            &&& after.row.len() == start.row.len()
            &&& forall|i: int|
                0 <= i < start.outputs.len() ==> {
                    &&& (#[trigger] after.outputs[i]).destination_parameter_index
                        == start.outputs[i].destination_parameter_index
                    &&& after.outputs[i].vertex_index == start.outputs[i].vertex_index
                    &&& after.outputs[i].destination == start.outputs[i].destination
                }
            &&& forall|i: int|
                0 <= i < start.outputs.len() && (i < setting.base_output_index || i
                    >= setting.base_output_index + n) ==> after.outputs[i] == start.outputs[i]
        }),
    decreases n,
{
    if n > 0 {
        lemma_chain_written_frame(unit, start, particles, setting, model, n - 1);
    }
}

fn write_outputs<A: Fn(Op, Scalar, Scalar) -> Scalar>(
    unit: &A,
    outputs: &mut Vec<CubismPhysicsOutput>,
    cache: &mut Vec<Scalar>,
    row: &mut Vec<Scalar>,
    particles: &Vec<CubismPhysicsParticle>,
    setting: &CubismPhysicsSubRig,
    model: &Live2DModelResource,
)
    requires
        well_behaved(*unit),
        setting.base_output_index + setting.output_count <= old(outputs)@.len(),
        setting.base_particle_index + setting.particle_count <= particles@.len(),
        old(row)@.len() == setting.output_count,
        model.parameters@.len() <= old(cache)@.len(),
        forall|i: int|
            0 <= i < old(outputs)@.len() ==> (
            #[trigger] old(outputs)@[i]).destination_parameter_index is Some
                && old(outputs)@[i].destination_parameter_index->0 < model.parameters@.len(),
    ensures
        (ChainOutputs { outputs: final(outputs)@, cache: final(cache)@, row: final(row)@ })
            == chain_written_of(
            unit,
            ChainOutputs { outputs: old(outputs)@, cache: old(cache)@, row: old(row)@ },
            particles@,
            *setting,
            model,
            setting.output_count as int,
        ),
{
    let ghost start = ChainOutputs { outputs: outputs@, cache: cache@, row: row@ };
    let length = particles.len();
    let places = outputs.len();
    let mut n: usize = 0;
    while n < setting.output_count
        invariant
            well_behaved(*unit),
            n <= setting.output_count,
            length == particles@.len(),
            places == start.outputs.len(),
            setting.base_output_index + setting.output_count <= start.outputs.len(),
            setting.base_particle_index + setting.particle_count <= length,
            start.row.len() == setting.output_count,
            model.parameters@.len() <= start.cache.len(),
            forall|i: int|
                0 <= i < start.outputs.len() ==> (
                #[trigger] start.outputs[i]).destination_parameter_index is Some
                    && start.outputs[i].destination_parameter_index->0 < model.parameters@.len(),
            (ChainOutputs { outputs: outputs@, cache: cache@, row: row@ }) == chain_written_of(
                unit,
                start,
                particles@,
                *setting,
                model,
                n as int,
            ),
        decreases setting.output_count - n,
    {
        proof {
            lemma_chain_written_frame(unit, start, particles@, *setting, model, n as int);
        }
        let place = setting.base_output_index + n;
        let particle_index = outputs[place].vertex_index;
        if !(particle_index < 1 || particle_index >= setting.particle_count) {
            let own = setting.base_particle_index + particle_index;
            let translation = particles[own].position.sub(unit, particles[own - 1].position);
            let output_value = outputs[place].get_value.get_value(
                unit,
                translation,
                particles,
                setting.base_particle_index,
                particle_index,
                outputs[place].reflect,
                CubismVector2 {
                    x: Scalar::from_bits(ZERO_BITS),
                    y: Scalar::from_bits(MINUS_ONE_BITS),
                },
            );
            row[n] = output_value;
            let index = outputs[place].destination_parameter_index.unwrap();
            update_output_parameter_value(
                unit,
                &mut cache[index],
                model.parameters[index].minimum_value,
                model.parameters[index].maximum_value,
                output_value,
                &mut outputs[place],
            );
        }
        n += 1;
    }
}

/// The simulation after the chain at `k` has taken its part in a step of
/// the length `delta`: its inputs are added up, the position is turned
/// about the origin by the reverse of the angle, its particles are stepped
/// without wind, and its outputs are written.
pub open spec fn chain_stepped_of<A: Fn(Op, Scalar, Scalar) -> Scalar>(
    unit: &A,
    view: PhysicsView,
    model: &Live2DModelResource,
    delta: Scalar,
    k: int,
) -> PhysicsView {
    let setting = view.settings[k];
    let total = totals_of(
        unit,
        view.inputs,
        setting,
        setting.input_count as int,
        view.parameter_cache,
        model,
    );
    let particles = update_particles_of(
        unit,
        view.particles,
        setting.base_particle_index as int,
        setting.particle_count as int,
        rotated(unit, total.0, total.1),
        total.1,
        CubismVector2::zero(),
        times(unit, Scalar::from_bits(THOUSANDTH_BITS), setting.normalization_position.maximum),
        delta,
        Scalar::from_bits(FIVE_BITS),
    );
    let written = chain_written_of(
        unit,
        ChainOutputs {
            outputs: view.outputs,
            cache: view.parameter_cache,
            row: view.current_rig_outputs[k],
        },
        particles,
        setting,
        model,
        setting.output_count as int,
    );
    PhysicsView {
        particles,
        outputs: written.outputs,
        parameter_cache: written.cache,
        current_rig_outputs: view.current_rig_outputs.update(k, written.row),
        ..view
    }
}

/// The simulation after the first `n` chains have taken their part in a
/// step, one after the other.
pub open spec fn chains_stepped_of<A: Fn(Op, Scalar, Scalar) -> Scalar>(
    unit: &A,
    view: PhysicsView,
    model: &Live2DModelResource,
    delta: Scalar,
    n: int,
) -> PhysicsView
    decreases n,
{
    if n <= 0 {
        view
    } else {
        chain_stepped_of(
            unit,
            chains_stepped_of(unit, view, model, delta, n - 1),
            model,
            delta,
            n - 1,
        )
    }
}

/// The simulation after one step of the length `delta`.
///
/// The output values of the last step become those of the step before. The
/// input values are eased towards the values of the model by the share of
/// `delta` in the time that is left, and become the parameter values of the
/// step. Then every chain takes its part, and `delta` is taken off the time
/// that is left.
pub open spec fn stepped_of<A: Fn(Op, Scalar, Scalar) -> Scalar>(
    unit: &A,
    view: PhysicsView,
    model: &Live2DModelResource,
    delta: Scalar,
) -> PhysicsView {
    let weight = over(unit, delta, view.current_remain_time);
    let eased = eased_of(unit, view.parameter_input_cache, model, weight);
    let begun = PhysicsView {
        previous_rig_outputs: view.current_rig_outputs,
        parameter_input_cache: eased,
        parameter_cache: refreshed_of(view.parameter_cache, eased, model.parameters@.len()),
        ..view
    };
    let done = chains_stepped_of(unit, begun, model, delta, view.settings.len() as int);
    PhysicsView { current_remain_time: minus(unit, view.current_remain_time, delta), ..done }
}

/// Whether the simulation can step on a model of `count` parameters: the
/// rig is well formed, every parameter is looked up, and both caches hold a
/// value for each parameter of the model.
pub open spec fn ready(view: PhysicsView, count: nat) -> bool {
    &&& view.wf()
    &&& bound(view, count)
    &&& count <= view.parameter_cache.len()
    &&& count <= view.parameter_input_cache.len()
}

/// A chain that takes its part in a step leaves the simulation able to
/// step, and changes neither the chains nor the inputs, nor the time, nor
/// the input values, nor the output values of the step before.
pub proof fn lemma_chain_stepped_frame<A: Fn(Op, Scalar, Scalar) -> Scalar>(
    unit: &A,
    view: PhysicsView,
    model: &Live2DModelResource,
    delta: Scalar,
    k: int,
)
    requires
        ready(view, model.parameters@.len()),
        0 <= k < view.settings.len(),
    ensures
        ({
            let after = chain_stepped_of(unit, view, model, delta, k);
            &&& ready(after, model.parameters@.len())
            &&& after.settings == view.settings
            &&& after.inputs == view.inputs
            &&& after.current_remain_time == view.current_remain_time
            &&& after.parameter_input_cache == view.parameter_input_cache
            &&& after.previous_rig_outputs == view.previous_rig_outputs
            &&& after.gravity == view.gravity
            &&& after.wind == view.wind
            &&& after.fps == view.fps
            &&& after.parameter_cache.len() == view.parameter_cache.len()
        }),
{
    let setting = view.settings[k];
    let total = totals_of(
        unit,
        view.inputs,
        setting,
        setting.input_count as int,
        view.parameter_cache,
        model,
    );
    let threshold = times(
        unit,
        Scalar::from_bits(THOUSANDTH_BITS),
        setting.normalization_position.maximum,
    );
    crate::physic::particles::lemma_chain_after_frame(
        unit,
        view.particles,
        setting.base_particle_index as int,
        setting.particle_count - 1,
        rotated(unit, total.0, total.1),
        crate::physic::particles::gravity_direction_of(unit, total.1),
        CubismVector2::zero(),
        threshold,
        delta,
        Scalar::from_bits(FIVE_BITS),
    );
    let particles = update_particles_of(
        unit,
        view.particles,
        setting.base_particle_index as int,
        setting.particle_count as int,
        rotated(unit, total.0, total.1),
        total.1,
        CubismVector2::zero(),
        threshold,
        delta,
        Scalar::from_bits(FIVE_BITS),
    );
    let start = ChainOutputs {
        outputs: view.outputs,
        cache: view.parameter_cache,
        row: view.current_rig_outputs[k],
    };
    lemma_chain_written_frame(unit, start, particles, setting, model, setting.output_count as int);
    let after = chain_stepped_of(unit, view, model, delta, k);
    lemma_wf_by_shape(view, after);
}

/// Chains that take their part in a step leave the simulation able to
/// step, and change neither the chains nor the inputs, nor the time, nor
/// the input values, nor the output values of the step before.
pub proof fn lemma_chains_stepped_frame<A: Fn(Op, Scalar, Scalar) -> Scalar>(
    unit: &A,
    view: PhysicsView,
    model: &Live2DModelResource,
    delta: Scalar,
    n: int,
)
    requires
        ready(view, model.parameters@.len()),
        0 <= n <= view.settings.len(),
    ensures
        ({
            let after = chains_stepped_of(unit, view, model, delta, n);
            &&& ready(after, model.parameters@.len())
            &&& after.settings == view.settings
            &&& after.inputs == view.inputs
            &&& after.current_remain_time == view.current_remain_time
            &&& after.parameter_input_cache == view.parameter_input_cache
            &&& after.previous_rig_outputs == view.previous_rig_outputs
            &&& after.gravity == view.gravity
            &&& after.wind == view.wind
            &&& after.fps == view.fps
            &&& after.parameter_cache.len() == view.parameter_cache.len()
        }),
    decreases n,
{
    if n > 0 {
        lemma_chains_stepped_frame(unit, view, model, delta, n - 1);
        lemma_chain_stepped_frame(
            unit,
            chains_stepped_of(unit, view, model, delta, n - 1),
            model,
            delta,
            n - 1,
        );
    }
}

/// A step leaves the simulation able to step.
pub proof fn lemma_stepped_ready<A: Fn(Op, Scalar, Scalar) -> Scalar>(
    unit: &A,
    view: PhysicsView,
    model: &Live2DModelResource,
    delta: Scalar,
)
    requires
        ready(view, model.parameters@.len()),
    ensures
        ready(stepped_of(unit, view, model, delta), model.parameters@.len()),
        stepped_of(unit, view, model, delta).current_remain_time == minus(
            unit,
            view.current_remain_time,
            delta,
        ),
        stepped_of(unit, view, model, delta).settings == view.settings,
        stepped_of(unit, view, model, delta).fps == view.fps,
{
    let weight = over(unit, delta, view.current_remain_time);
    let eased = eased_of(unit, view.parameter_input_cache, model, weight);
    let begun = PhysicsView {
        previous_rig_outputs: view.current_rig_outputs,
        parameter_input_cache: eased,
        parameter_cache: refreshed_of(view.parameter_cache, eased, model.parameters@.len()),
        ..view
    };
    assert(begun.wf()) by {
        lemma_wf_by_shape(view, begun);
    }
    lemma_chains_stepped_frame(unit, begun, model, delta, view.settings.len() as int);
    let done = chains_stepped_of(unit, begun, model, delta, view.settings.len() as int);
    let after = stepped_of(unit, view, model, delta);
    assert(after.wf()) by {
        lemma_wf_by_shape(done, after);
    }
}

/// The simulation after it has stepped through the time that is left, a
/// step of the length `delta` at a time, for as long as at least `delta` is
/// left. A step that fails to lessen the time that is left is the last.
pub open spec fn run_of<A: Fn(Op, Scalar, Scalar) -> Scalar>(
    unit: &A,
    view: PhysicsView,
    model: &Live2DModelResource,
    delta: Scalar,
) -> PhysicsView
    decreases 0x8000_0000 + view.current_remain_time.order_key(),
{
    if delta.le(view.current_remain_time) {
        let next = stepped_of(unit, view, model, delta);
        if next.current_remain_time.lt(view.current_remain_time) {
            run_of(unit, next, model, delta)
        } else {
            next
        }
    } else {
        view
    }
}

/// What the blend after the last step writes to: the outputs, which record
/// how far their values lay outside the ranges, and the values of the
/// model's parameters.
pub struct Blend {
    pub outputs: Seq<CubismPhysicsOutput>,
    pub values: Seq<Scalar>,
}

/// What the first `n` outputs of a chain leave behind in the blend after
/// the last step, each in turn. An output whose parameter has not been
/// looked up leaves everything as it is. Every other output mixes its value
/// of the step before the last with that of the last, blends the result
/// into the value of its parameter, and records it.
pub open spec fn chain_interpolated_of<A: Fn(Op, Scalar, Scalar) -> Scalar>(
    unit: &A,
    start: Blend,
    previous_row: Seq<Scalar>,
    current_row: Seq<Scalar>,
    setting: CubismPhysicsSubRig,
    model: &Live2DModelResource,
    weight: Scalar,
    n: int,
) -> Blend
    decreases n,
{
    if n <= 0 {
        start
    } else {
        let before = chain_interpolated_of(
            unit,
            start,
            previous_row,
            current_row,
            setting,
            model,
            weight,
            n - 1,
        );
        let place = setting.base_output_index + n - 1;
        let output = before.outputs[place];
        match output.destination_parameter_index {
            Some(index) => {
                let value = mixed(unit, previous_row[n - 1], current_row[n - 1], weight);
                let minimum = model.parameters@[index as int].minimum_value;
                let maximum = model.parameters@[index as int].maximum_value;
                Blend {
                    outputs: before.outputs.update(
                        place,
                        output.recorded_of(unit, minimum, maximum, value),
                    ),
                    values: before.values.update(
                        index as int,
                        output.blended_of(
                            unit,
                            before.values[index as int],
                            minimum,
                            maximum,
                            value,
                        ),
                    ),
                }
            },
            None => before,
        }
    }
}

/// What the outputs of the first `m` chains leave behind in the blend after
/// the last step, one chain after the other.
pub open spec fn interpolated_of<A: Fn(Op, Scalar, Scalar) -> Scalar>(
    unit: &A,
    view: PhysicsView,
    model: &Live2DModelResource,
    weight: Scalar,
    m: int,
) -> Blend
    decreases m,
{
    if m <= 0 {
        Blend { outputs: view.outputs, values: model.parameter_values() }
    } else {
        chain_interpolated_of(
            unit,
            interpolated_of(unit, view, model, weight, m - 1),
            view.previous_rig_outputs[m - 1],
            view.current_rig_outputs[m - 1],
            view.settings[m - 1],
            model,
            weight,
            view.settings[m - 1].output_count as int,
        )
    }
}

/// The blend keeps the lengths of what it writes to, and the parameters
/// that the outputs have looked up.
pub proof fn lemma_chain_interpolated_frame<A: Fn(Op, Scalar, Scalar) -> Scalar>(
    unit: &A,
    start: Blend,
    previous_row: Seq<Scalar>,
    current_row: Seq<Scalar>,
    setting: CubismPhysicsSubRig,
    model: &Live2DModelResource,
    weight: Scalar,
    n: int,
)
    requires
        0 <= n <= setting.output_count,
        setting.base_output_index + setting.output_count <= start.outputs.len(),
        forall|i: int|
            0 <= i < start.outputs.len() ==> !stale(
                (#[trigger] start.outputs[i]).destination_parameter_index,
                start.values.len(),
            ),
    ensures
        ({
            let after = chain_interpolated_of(
                unit,
                start,
                previous_row,
                current_row,
                setting,
                model,
                weight,
                n,
            );
            &&& after.outputs.len() == start.outputs.len()
            &&& after.values.len() == start.values.len()
            &&& forall|i: int|
                0 <= i < start.outputs.len() ==> {
                    &&& (#[trigger] after.outputs[i]).destination_parameter_index
                        == start.outputs[i].destination_parameter_index
                    &&& after.outputs[i].vertex_index == start.outputs[i].vertex_index
                    &&& after.outputs[i].destination == start.outputs[i].destination
                }
        }),
    decreases n,
{
    if n > 0 {
        lemma_chain_interpolated_frame(
            unit,
            start,
            previous_row,
            current_row,
            setting,
            model,
            weight,
            n - 1,
        );
    }
}

/// The blend keeps the lengths of what it writes to, and the parameters
/// that the outputs have looked up.
pub proof fn lemma_interpolated_frame<A: Fn(Op, Scalar, Scalar) -> Scalar>(
    unit: &A,
    view: PhysicsView,
    model: &Live2DModelResource,
    weight: Scalar,
    m: int,
)
    requires
        view.wf(),
        fresh(view, model.parameters@.len()),
        0 <= m <= view.settings.len(),
    ensures
        ({
            let after = interpolated_of(unit, view, model, weight, m);
            &&& after.outputs.len() == view.outputs.len()
            &&& after.values.len() == model.parameters@.len()
            &&& forall|i: int|
                0 <= i < view.outputs.len() ==> {
                    &&& (#[trigger] after.outputs[i]).destination_parameter_index
                        == view.outputs[i].destination_parameter_index
                    &&& after.outputs[i].vertex_index == view.outputs[i].vertex_index
                    &&& after.outputs[i].destination == view.outputs[i].destination
                }
        }),
    decreases m,
{
    if m > 0 {
        lemma_interpolated_frame(unit, view, model, weight, m - 1);
        let before = interpolated_of(unit, view, model, weight, m - 1);
        assert forall|i: int| 0 <= i < before.outputs.len() implies !stale(
            (#[trigger] before.outputs[i]).destination_parameter_index,
            before.values.len(),
        ) by {
            assert(!stale(view.outputs[i].destination_parameter_index, model.parameters@.len()));
        }
        lemma_chain_interpolated_frame(
            unit,
            before,
            view.previous_rig_outputs[m - 1],
            view.current_rig_outputs[m - 1],
            view.settings[m - 1],
            model,
            weight,
            view.settings[m - 1].output_count as int,
        );
    }
}

/// How a call of `evaluate` leaves the simulation and the values of the
/// model's parameters.
pub struct Outcome {
    pub physics: PhysicsView,
    pub values: Seq<Scalar>,
}

/// The simulation as it is made ready for the time `remaining`: both caches
/// hold a value for each parameter of the model, and, where a step is due,
/// every input and output has its parameter looked up.
pub open spec fn prepared_of(
    view: PhysicsView,
    model: &Live2DModelResource,
    remaining: Scalar,
    stepping: bool,
) -> PhysicsView {
    PhysicsView {
        current_remain_time: remaining,
        parameter_cache: cache_sized_of(view.parameter_cache, model.parameters@.len()),
        parameter_input_cache: input_cache_sized_of(
            view.parameter_input_cache,
            model.parameter_values(),
        ),
        inputs: if stepping {
            bound_inputs_of(view.inputs, model.parameter_ids())
        } else {
            view.inputs
        },
        outputs: if stepping {
            bound_outputs_of(view.outputs, model.parameter_ids())
        } else {
            view.outputs
        },
        ..view
    }
}

/// What a call of `evaluate` with the time `delta_time` does to the
/// simulation and to the values of the model's parameters.
///
/// A time that is not above zero changes nothing. Any other time is added
/// to the time that is left. The call fails where the parameter of an input
/// or output cannot be had from the model. Else the simulation steps
/// through the time that is left, and the output values of the last two
/// steps, mixed by the share of a step that is still left, are blended into
/// the values of the model's parameters.
pub open spec fn evaluate_of<A: Fn(Op, Scalar, Scalar) -> Scalar>(
    unit: &A,
    view: PhysicsView,
    model: &Live2DModelResource,
    delta_time: Scalar,
) -> Result<Outcome, Fault> {
    if delta_time.le(Scalar::from_bits(ZERO_BITS)) {
        Ok(Outcome { physics: view, values: model.parameter_values() })
    } else {
        let remaining = remaining_after_of(unit, view.current_remain_time, delta_time);
        let delta = physics_delta_time_of(unit, view.fps, delta_time);
        let stepping = delta.le(remaining);
        if binding_fault(view, model.parameter_ids(), stepping) {
            Err(Fault::UnknownParameterId)
        } else {
            let run = run_of(unit, prepared_of(view, model, remaining, stepping), model, delta);
            let blend = interpolated_of(
                unit,
                run,
                model,
                over(unit, run.current_remain_time, delta),
                run.settings.len() as int,
            );
            Ok(
                Outcome {
                    physics: PhysicsView { outputs: blend.outputs, ..run },
                    values: blend.values,
                },
            )
        }
    }
}

fn copy_rows(
    previous: &mut Vec<Vec<Scalar>>,
    current: &Vec<Vec<Scalar>>,
    settings: &Vec<CubismPhysicsSubRig>,
)
    requires
        old(previous)@.len() == settings@.len(),
        current@.len() == settings@.len(),
        forall|k: int|
            0 <= k < settings@.len() ==> (#[trigger] current@[k])@.len()
                == settings@[k].output_count,
        forall|k: int|
            0 <= k < settings@.len() ==> (#[trigger] old(previous)@[k])@.len()
                == settings@[k].output_count,
    ensures
        rows_of(final(previous)@) == rows_of(current@),
{
    let count = settings.len();
    let mut k: usize = 0;
    while k < count
        invariant
            k <= count,
            count == settings@.len(),
            previous@.len() == count,
            current@.len() == count,
            forall|j: int|
                0 <= j < count ==> (#[trigger] current@[j])@.len() == settings@[j].output_count,
            forall|j: int|
                0 <= j < count ==> (#[trigger] previous@[j])@.len() == settings@[j].output_count,
            forall|j: int| 0 <= j < k ==> (#[trigger] previous@[j])@ == current@[j]@,
        decreases count - k,
    {
        let n = settings[k].output_count;
        let mut i: usize = 0;
        while i < n
            invariant
                i <= n,
                k < count,
                count == settings@.len(),
                n == settings@[k as int].output_count,
                previous@.len() == count,
                current@.len() == count,
                forall|j: int|
                    0 <= j < count ==> (#[trigger] current@[j])@.len()
                        == settings@[j].output_count,
                forall|j: int|
                    0 <= j < count ==> (#[trigger] previous@[j])@.len()
                        == settings@[j].output_count,
                forall|j: int| 0 <= j < k ==> (#[trigger] previous@[j])@ == current@[j]@,
                forall|j: int| 0 <= j < i ==> previous@[k as int]@[j] == current@[k as int]@[j],
            decreases n - i,
        {
            assert(current@[k as int]@.len() == n);
            assert(previous@[k as int]@.len() == n);
            let value = current[k][i];
            previous[k][i] = value;
            i += 1;
        }
        assert(previous@[k as int]@ =~= current@[k as int]@);
        k += 1;
    }
    proof {
        assert(rows_of(previous@) =~= rows_of(current@));
    }
}

impl Physics {
    /// Takes one step of the length `delta`.
    fn step<A: Fn(Op, Scalar, Scalar) -> Scalar>(
        &mut self,
        unit: &A,
        model: &Live2DModelResource,
        delta: Scalar,
    )
        requires
            well_behaved(*unit),
            ready(old(self)@, model.parameters@.len()),
        ensures
            final(self)@ == stepped_of(unit, old(self)@, model, delta),
            ready(final(self)@, model.parameters@.len()),
    {
        let ghost start = self@;
        copy_rows(
            &mut self.previous_rig_outputs,
            &self.current_rig_outputs,
            &self.physics_rig.settings,
        );

        let input_weight = over(unit, delta, self.current_remain_time);
        ease_inputs(
            unit,
            &mut self.parameter_input_cache,
            &mut self.parameter_cache,
            model,
            input_weight,
        );
        let ghost eased = eased_of(unit, start.parameter_input_cache, model, input_weight);
        let ghost begun = PhysicsView {
            previous_rig_outputs: start.current_rig_outputs,
            parameter_input_cache: eased,
            parameter_cache: refreshed_of(start.parameter_cache, eased, model.parameters@.len()),
            ..start
        };
        proof {
            assert(self@.previous_rig_outputs =~= begun.previous_rig_outputs);
            assert(self@ == begun);
            assert(begun.wf()) by {
                lemma_wf_by_shape(start, begun);
            }
        }

        let count = self.physics_rig.settings.len();
        let mut k: usize = 0;
        while k < count
            invariant
                well_behaved(*unit),
                k <= count,
                count == begun.settings.len(),
                ready(begun, model.parameters@.len()),
                ready(self@, model.parameters@.len()),
                self@ == chains_stepped_of(unit, begun, model, delta, k as int),
            decreases count - k,
        {
            let ghost before = self@;
            proof {
                lemma_chains_stepped_frame(unit, begun, model, delta, k as int);
                lemma_chain_stepped_frame(unit, before, model, delta, k as int);
            }
            let setting = self.physics_rig.settings[k];
            let (total_translation, total_angle) = totals(
                unit,
                &self.physics_rig.inputs,
                &setting,
                &self.parameter_cache,
                model,
            );
            let turned = rotated(unit, total_translation, total_angle);
            let threshold = times(
                unit,
                Scalar::from_bits(THOUSANDTH_BITS),
                setting.normalization_position.maximum,
            );
            update_particles(
                unit,
                &mut self.physics_rig.particles,
                setting.base_particle_index,
                setting.particle_count,
                turned,
                total_angle,
                CubismVector2::default(),
                threshold,
                delta,
                Scalar::from_bits(FIVE_BITS),
            );
            write_outputs(
                unit,
                &mut self.physics_rig.outputs,
                &mut self.parameter_cache,
                &mut self.current_rig_outputs[k],
                &self.physics_rig.particles,
                &setting,
                model,
            );
            proof {
                let after = chain_stepped_of(unit, before, model, delta, k as int);
                assert(self@.current_rig_outputs =~= after.current_rig_outputs);
                assert(self@.previous_rig_outputs =~= after.previous_rig_outputs);
                assert(self@ == after);
            }
            k += 1;
        }
        self.current_remain_time = minus(unit, self.current_remain_time, delta);
        proof {
            lemma_stepped_ready(unit, start, model, delta);
            lemma_chains_stepped_frame(unit, begun, model, delta, count as int);
            assert(self@.current_rig_outputs =~= stepped_of(
                unit,
                start,
                model,
                delta,
            ).current_rig_outputs);
            assert(self@.previous_rig_outputs =~= stepped_of(
                unit,
                start,
                model,
                delta,
            ).previous_rig_outputs);
        }
    }
}

impl Physics {
    /// Blends the output values of the last two steps, mixed by `weight`,
    /// into the values of the model's parameters.
    fn interpolate<A: Fn(Op, Scalar, Scalar) -> Scalar>(
        &mut self,
        unit: &A,
        model: &mut Live2DModelResource,
        weight: Scalar,
    )
        requires
            well_behaved(*unit),
            old(self)@.wf(),
            fresh(old(self)@, old(model).parameters@.len()),
        ensures
            (Blend { outputs: final(self)@.outputs, values: final(model).parameter_values() })
                == interpolated_of(
                unit,
                old(self)@,
                old(model),
                weight,
                old(self)@.settings.len() as int,
            ),
            final(self)@ == (PhysicsView { outputs: final(self)@.outputs, ..old(self)@ }),
            old(model).same_declarations(final(model)),
            final(model).part_opacities() == old(model).part_opacities(),
            final(model).parts@ == old(model).parts@,
            final(model).parameters@.len() == old(model).parameters@.len(),
    {
        let ghost start = self@;
        let ghost declared = *model;
        let count = self.physics_rig.settings.len();
        let places = self.physics_rig.outputs.len();
        let mut k: usize = 0;
        while k < count
            invariant
                well_behaved(*unit),
                k <= count,
                count == start.settings.len(),
                start.wf(),
                fresh(start, declared.parameters@.len()),
                places == start.outputs.len(),
                self@ == (PhysicsView { outputs: self@.outputs, ..start }),
                (Blend { outputs: self@.outputs, values: model.parameter_values() })
                    == interpolated_of(unit, start, &declared, weight, k as int),
                declared.same_declarations(model),
                model.part_opacities() == declared.part_opacities(),
                model.parts@ == declared.parts@,
                model.parameters@.len() == declared.parameters@.len(),
            decreases count - k,
        {
            let setting = self.physics_rig.settings[k];
            let ghost chain_start = Blend {
                outputs: self@.outputs,
                values: model.parameter_values(),
            };
            proof {
                lemma_interpolated_frame(unit, start, &declared, weight, k as int);
                assert forall|i: int| 0 <= i < chain_start.outputs.len() implies !stale(
                    (#[trigger] chain_start.outputs[i]).destination_parameter_index,
                    chain_start.values.len(),
                ) by {
                    assert(!stale(
                        start.outputs[i].destination_parameter_index,
                        declared.parameters@.len(),
                    ));
                }
            }
            let mut n: usize = 0;
            while n < setting.output_count
                invariant
                    well_behaved(*unit),
                    k < count,
                    count == start.settings.len(),
                    start.wf(),
                    setting == start.settings[k as int],
                    n <= setting.output_count,
                    places == start.outputs.len(),
                    chain_start.outputs.len() == places,
                    chain_start.values.len() == declared.parameters@.len(),
                    forall|i: int|
                        0 <= i < chain_start.outputs.len() ==> !stale(
                            (#[trigger] chain_start.outputs[i]).destination_parameter_index,
                            chain_start.values.len(),
                        ),
                    self@ == (PhysicsView { outputs: self@.outputs, ..start }),
                    (Blend { outputs: self@.outputs, values: model.parameter_values() })
                        == chain_interpolated_of(
                        unit,
                        chain_start,
                        start.previous_rig_outputs[k as int],
                        start.current_rig_outputs[k as int],
                        setting,
                        &declared,
                        weight,
                        n as int,
                    ),
                    declared.same_declarations(model),
                    model.part_opacities() == declared.part_opacities(),
                    model.parts@ == declared.parts@,
                    model.parameters@.len() == declared.parameters@.len(),
                decreases setting.output_count - n,
            {
                proof {
                    lemma_chain_interpolated_frame(
                        unit,
                        chain_start,
                        start.previous_rig_outputs[k as int],
                        start.current_rig_outputs[k as int],
                        setting,
                        &declared,
                        weight,
                        n as int,
                    );
                    assert(start.previous_rig_outputs[k as int]
                        == self.previous_rig_outputs@[k as int]@);
                    assert(start.current_rig_outputs[k as int]
                        == self.current_rig_outputs@[k as int]@);
                }
                let place = setting.base_output_index + n;
                match self.physics_rig.outputs[place].destination_parameter_index {
                    Some(index) => {
                        assert(!stale(
                            chain_start.outputs[place as int].destination_parameter_index,
                            chain_start.values.len(),
                        ));
                        let value = mixed(
                            unit,
                            self.previous_rig_outputs[k][n],
                            self.current_rig_outputs[k][n],
                            weight,
                        );
                        let mut parameter_value = model.parameters[index].value;
                        let minimum = model.parameters[index].minimum_value;
                        let maximum = model.parameters[index].maximum_value;
                        proof {
                            assert(declared.parameter_minimum_values()[index as int] == minimum);
                            assert(declared.parameter_maximum_values()[index as int] == maximum);
                        }
                        update_output_parameter_value(
                            unit,
                            &mut parameter_value,
                            minimum,
                            maximum,
                            value,
                            &mut self.physics_rig.outputs[place],
                        );
                        model.set_parameter_value(index, parameter_value);
                    },
                    None => {},
                }
                n += 1;
            }
            k += 1;
        }
    }

    /// Whether `after`, `model_after` and `r` are what a call of `evaluate`
    /// with the time `delta_time` on `model` leaves and answers: what
    /// `evaluate_of` says. A call that fails leaves everything as it was; a
    /// call that succeeds changes nothing of the model but the values of its
    /// parameters, and leaves the rig well formed.
    pub open spec fn evaluated<A: Fn(Op, Scalar, Scalar) -> Scalar>(
        &self,
        after: &Physics,
        unit: &A,
        model: &Live2DModelResource,
        model_after: &Live2DModelResource,
        delta_time: Scalar,
        r: Result<(), Fault>,
    ) -> bool {
        &&& match evaluate_of(unit, self@, model, delta_time) {
            Ok(outcome) => {
                &&& r is Ok
                &&& after@ == outcome.physics
                &&& model_after.parameter_values() == outcome.values
            },
            Err(fault) => {
                &&& r == Err::<(), Fault>(fault)
                &&& *after == *self
                &&& *model_after == *model
            },
        }
        &&& after@.wf()
        &&& after@.settings == self@.settings
        &&& model.same_declarations(model_after)
        &&& model_after.part_opacities() == model.part_opacities()
        &&& model_after.parts@ == model.parts@
        &&& model_after.parameters@.len() == model.parameters@.len()
    }

    /// Advances the simulation by the time `delta_time` and blends its
    /// outputs into the values of the model's parameters.
    ///
    /// A time that is not above zero changes nothing. The call fails, and
    /// changes nothing, where the parameter of an input or output cannot be
    /// had from the model.
    pub fn evaluate<A: Fn(Op, Scalar, Scalar) -> Scalar>(
        &mut self,
        unit: &A,
        model: &mut Live2DModelResource,
        delta_time: Scalar,
    ) -> (r: Result<(), Fault>)
        requires
            well_behaved(*unit),
            old(self)@.wf(),
        ensures
            old(self).evaluated(final(self), unit, old(model), final(model), delta_time, r),
            delta_time.le(Scalar::from_bits(ZERO_BITS)) ==> r is Ok && *final(self) == *old(self)
                && *final(model) == *old(model),
    {
        if delta_time.le(Scalar::from_bits(ZERO_BITS)) {
            return Ok(());
        }
        let ghost start = self@;
        let ghost declared = *model;
        let count = model.csm_get_parameter_count();

        let sum = plus(unit, self.current_remain_time, delta_time);
        let remaining = if sum.gt(Scalar::from_bits(FIVE_BITS)) {
            Scalar::from_bits(ZERO_BITS)
        } else {
            sum
        };
        let physics_delta_time = match self.physics_rig.fps {
            Some(fps) => {
                if fps.gt(Scalar::from_bits(ZERO_BITS)) {
                    over(unit, Scalar::from_bits(ONE_BITS), fps)
                } else {
                    delta_time
                }
            },
            None => delta_time,
        };
        let stepping = remaining.ge(physics_delta_time);

        if inputs_fail(&self.physics_rig.inputs, model, stepping) || outputs_fail(
            &self.physics_rig.outputs,
            model,
            stepping,
        ) {
            return Err(Fault::UnknownParameterId);
        }
        self.current_remain_time = remaining;
        if self.parameter_cache.len() < count {
            self.parameter_cache = zeros(count);
        }
        if self.parameter_input_cache.len() < count {
            self.parameter_input_cache = model.csm_get_parameter_values();
        }
        if stepping {
            bind_inputs(&mut self.physics_rig.inputs, model);
            bind_outputs(&mut self.physics_rig.outputs, model);
        }
        let ghost prepared = prepared_of(start, &declared, remaining, stepping);
        proof {
            assert(self@.current_rig_outputs =~= prepared.current_rig_outputs);
            assert(self@.previous_rig_outputs =~= prepared.previous_rig_outputs);
            assert(self@ == prepared);
            assert(prepared.wf()) by {
                lemma_wf_by_shape(start, prepared);
            }
            assert(fresh(prepared, count as nat)) by {
                assert forall|i: int| 0 <= i < prepared.inputs.len() implies !stale(
                    (#[trigger] prepared.inputs[i]).source_parameter_index,
                    count as nat,
                ) by {
                    assert(!binding_fails(
                        start.inputs[i].source_parameter_index,
                        start.inputs[i].source.id@,
                        declared.parameter_ids(),
                        stepping,
                    ));
                }
                assert forall|i: int| 0 <= i < prepared.outputs.len() implies !stale(
                    (#[trigger] prepared.outputs[i]).destination_parameter_index,
                    count as nat,
                ) by {
                    assert(!binding_fails(
                        start.outputs[i].destination_parameter_index,
                        start.outputs[i].destination.id@,
                        declared.parameter_ids(),
                        stepping,
                    ));
                }
            }
        }

        if stepping {
            while physics_delta_time.le(self.current_remain_time)
                invariant_except_break
                    run_of(unit, self@, model, physics_delta_time) == run_of(
                        unit,
                        prepared,
                        model,
                        physics_delta_time,
                    ),
                invariant
                    well_behaved(*unit),
                    ready(self@, model.parameters@.len()),
                    self@.settings == prepared.settings,
                ensures
                    self@ == run_of(unit, prepared, model, physics_delta_time),
                decreases 0x8000_0000 + self.current_remain_time.order_key(),
            {
                let before = self.current_remain_time;
                proof {
                    lemma_stepped_ready(unit, self@, model, physics_delta_time);
                }
                self.step(unit, model, physics_delta_time);
                if !self.current_remain_time.lt(before) {
                    break ;
                }
            }
        }
        proof {
            assert(fresh(self@, count as nat)) by {
                if stepping {
                    assert(ready(self@, count as nat));
                }
            }
        }
        let alpha = over(unit, self.current_remain_time, physics_delta_time);
        self.interpolate(unit, model, alpha);
        proof {
            let run = run_of(unit, prepared, &declared, physics_delta_time);
            lemma_interpolated_frame(unit, run, &declared, alpha, run.settings.len() as int);
            assert(self@.wf()) by {
                lemma_wf_by_shape(run, self@);
            }
        }
        Ok(())
    }
}

/// The outputs of a chain change nothing of the description of an output.
pub proof fn lemma_chain_written_keeps_definitions<A: Fn(Op, Scalar, Scalar) -> Scalar>(
    unit: &A,
    start: ChainOutputs,
    particles: Seq<CubismPhysicsParticle>,
    setting: CubismPhysicsSubRig,
    model: &Live2DModelResource,
    n: int,
)
    requires
        0 <= n <= setting.output_count,
        setting.base_output_index + setting.output_count <= start.outputs.len(),
    ensures
        ({
            let after = chain_written_of(unit, start, particles, setting, model, n);
            &&& after.outputs.len() == start.outputs.len()
            &&& forall|i: int|
                0 <= i < start.outputs.len() ==> same_output_definition(
                    #[trigger] after.outputs[i],
                    start.outputs[i],
                )
        }),
    decreases n,
{
    if n > 0 {
        lemma_chain_written_keeps_definitions(unit, start, particles, setting, model, n - 1);
    }
}

/// The blend after the last step changes nothing of the description of an
/// output.
pub proof fn lemma_chain_interpolated_keeps_definitions<A: Fn(Op, Scalar, Scalar) -> Scalar>(
    unit: &A,
    start: Blend,
    previous_row: Seq<Scalar>,
    current_row: Seq<Scalar>,
    setting: CubismPhysicsSubRig,
    model: &Live2DModelResource,
    weight: Scalar,
    n: int,
)
    requires
        0 <= n <= setting.output_count,
        setting.base_output_index + setting.output_count <= start.outputs.len(),
    ensures
        ({
            let after = chain_interpolated_of(
                unit,
                start,
                previous_row,
                current_row,
                setting,
                model,
                weight,
                n,
            );
            &&& after.outputs.len() == start.outputs.len()
            &&& forall|i: int|
                0 <= i < start.outputs.len() ==> same_output_definition(
                    #[trigger] after.outputs[i],
                    start.outputs[i],
                )
        }),
    decreases n,
{
    if n > 0 {
        lemma_chain_interpolated_keeps_definitions(
            unit,
            start,
            previous_row,
            current_row,
            setting,
            model,
            weight,
            n - 1,
        );
    }
}

/// The blend after the last step changes nothing of the description of an
/// output.
pub proof fn lemma_interpolated_keeps_definitions<A: Fn(Op, Scalar, Scalar) -> Scalar>(
    unit: &A,
    view: PhysicsView,
    model: &Live2DModelResource,
    weight: Scalar,
    m: int,
)
    requires
        view.wf(),
        0 <= m <= view.settings.len(),
    ensures
        ({
            let after = interpolated_of(unit, view, model, weight, m);
            &&& after.outputs.len() == view.outputs.len()
            &&& forall|i: int|
                0 <= i < view.outputs.len() ==> same_output_definition(
                    #[trigger] after.outputs[i],
                    view.outputs[i],
                )
        }),
    decreases m,
{
    if m > 0 {
        lemma_interpolated_keeps_definitions(unit, view, model, weight, m - 1);
        lemma_chain_interpolated_keeps_definitions(
            unit,
            interpolated_of(unit, view, model, weight, m - 1),
            view.previous_rig_outputs[m - 1],
            view.current_rig_outputs[m - 1],
            view.settings[m - 1],
            model,
            weight,
            view.settings[m - 1].output_count as int,
        );
    }
}

/// A chain that takes its part in a step changes nothing of the rig.
pub proof fn lemma_chain_stepped_keeps_rig<A: Fn(Op, Scalar, Scalar) -> Scalar>(
    unit: &A,
    view: PhysicsView,
    model: &Live2DModelResource,
    delta: Scalar,
    k: int,
)
    requires
        ready(view, model.parameters@.len()),
        0 <= k < view.settings.len(),
    ensures
        chain_stepped_of(unit, view, model, delta, k).same_rig(view),
{
    let setting = view.settings[k];
    let total = totals_of(
        unit,
        view.inputs,
        setting,
        setting.input_count as int,
        view.parameter_cache,
        model,
    );
    let threshold = times(
        unit,
        Scalar::from_bits(THOUSANDTH_BITS),
        setting.normalization_position.maximum,
    );
    crate::physic::particles::lemma_chain_after_frame(
        unit,
        view.particles,
        setting.base_particle_index as int,
        setting.particle_count - 1,
        rotated(unit, total.0, total.1),
        crate::physic::particles::gravity_direction_of(unit, total.1),
        CubismVector2::zero(),
        threshold,
        delta,
        Scalar::from_bits(FIVE_BITS),
    );
    let particles = update_particles_of(
        unit,
        view.particles,
        setting.base_particle_index as int,
        setting.particle_count as int,
        rotated(unit, total.0, total.1),
        total.1,
        CubismVector2::zero(),
        threshold,
        delta,
        Scalar::from_bits(FIVE_BITS),
    );
    let start = ChainOutputs {
        outputs: view.outputs,
        cache: view.parameter_cache,
        row: view.current_rig_outputs[k],
    };
    lemma_chain_written_keeps_definitions(
        unit,
        start,
        particles,
        setting,
        model,
        setting.output_count as int,
    );
}

/// Chains that take their part in a step change nothing of the rig.
pub proof fn lemma_chains_stepped_keep_rig<A: Fn(Op, Scalar, Scalar) -> Scalar>(
    unit: &A,
    view: PhysicsView,
    model: &Live2DModelResource,
    delta: Scalar,
    n: int,
)
    requires
        ready(view, model.parameters@.len()),
        0 <= n <= view.settings.len(),
    ensures
        chains_stepped_of(unit, view, model, delta, n).same_rig(view),
    decreases n,
{
    if n > 0 {
        lemma_chains_stepped_keep_rig(unit, view, model, delta, n - 1);
        lemma_chains_stepped_frame(unit, view, model, delta, n - 1);
        lemma_chain_stepped_keeps_rig(
            unit,
            chains_stepped_of(unit, view, model, delta, n - 1),
            model,
            delta,
            n - 1,
        );
    }
}

/// A step changes nothing of the rig.
pub proof fn lemma_stepped_keeps_rig<A: Fn(Op, Scalar, Scalar) -> Scalar>(
    unit: &A,
    view: PhysicsView,
    model: &Live2DModelResource,
    delta: Scalar,
)
    requires
        ready(view, model.parameters@.len()),
    ensures
        stepped_of(unit, view, model, delta).same_rig(view),
{
    let weight = over(unit, delta, view.current_remain_time);
    let eased = eased_of(unit, view.parameter_input_cache, model, weight);
    let begun = PhysicsView {
        previous_rig_outputs: view.current_rig_outputs,
        parameter_input_cache: eased,
        parameter_cache: refreshed_of(view.parameter_cache, eased, model.parameters@.len()),
        ..view
    };
    assert(begun.wf()) by {
        lemma_wf_by_shape(view, begun);
    }
    lemma_chains_stepped_keep_rig(unit, begun, model, delta, view.settings.len() as int);
}

/// Stepping through the time that is left changes nothing of the rig, and
/// leaves the simulation able to step.
pub proof fn lemma_run_keeps_rig<A: Fn(Op, Scalar, Scalar) -> Scalar>(
    unit: &A,
    view: PhysicsView,
    model: &Live2DModelResource,
    delta: Scalar,
)
    requires
        ready(view, model.parameters@.len()),
    ensures
        run_of(unit, view, model, delta).same_rig(view),
        ready(run_of(unit, view, model, delta), model.parameters@.len()),
    decreases 0x8000_0000 + view.current_remain_time.order_key(),
{
    if delta.le(view.current_remain_time) {
        let next = stepped_of(unit, view, model, delta);
        lemma_stepped_keeps_rig(unit, view, model, delta);
        lemma_stepped_ready(unit, view, model, delta);
        if next.current_remain_time.lt(view.current_remain_time) {
            lemma_run_keeps_rig(unit, next, model, delta);
        }
    }
}

/// A call of `evaluate` changes nothing of the rig: whatever the time, the
/// simulation that it leaves has the chains, forces and rate that it had,
/// and the inputs, outputs and particles that it had as far as their
/// description goes.
pub proof fn lemma_evaluate_keeps_the_rig<A: Fn(Op, Scalar, Scalar) -> Scalar>(
    unit: &A,
    view: PhysicsView,
    model: &Live2DModelResource,
    delta_time: Scalar,
)
    requires
        view.wf(),
    ensures
        evaluate_of(unit, view, model, delta_time) matches Ok(outcome) ==> outcome.physics.same_rig(
            view,
        ) && outcome.physics.wf(),
{
    if !delta_time.le(Scalar::from_bits(ZERO_BITS)) {
        let remaining = remaining_after_of(unit, view.current_remain_time, delta_time);
        let delta = physics_delta_time_of(unit, view.fps, delta_time);
        let stepping = delta.le(remaining);
        let ids = model.parameter_ids();
        if !binding_fault(view, ids, stepping) {
            let prepared = prepared_of(view, model, remaining, stepping);
            assert forall|i: int| 0 <= i < view.inputs.len() implies !binding_fails(
                (#[trigger] view.inputs[i]).source_parameter_index,
                view.inputs[i].source.id@,
                ids,
                stepping,
            ) by {}
            assert forall|i: int| 0 <= i < view.outputs.len() implies !binding_fails(
                (#[trigger] view.outputs[i]).destination_parameter_index,
                view.outputs[i].destination.id@,
                ids,
                stepping,
            ) by {}
            assert(prepared.wf()) by {
                lemma_wf_by_shape(view, prepared);
            }
            assert(prepared.same_rig(view));
            let run = run_of(unit, prepared, model, delta);
            if stepping {
                assert(ready(prepared, model.parameters@.len())) by {
                    assert forall|i: int| 0 <= i < prepared.inputs.len() implies (
                    #[trigger] prepared.inputs[i]).source_parameter_index is Some
                        && prepared.inputs[i].source_parameter_index->0
                        < model.parameters@.len() by {
                        assert(!binding_fails(
                            view.inputs[i].source_parameter_index,
                            view.inputs[i].source.id@,
                            ids,
                            stepping,
                        ));
                        crate::model_resource::lemma_first_index_of(ids, view.inputs[i].source.id@);
                    }
                    assert forall|i: int| 0 <= i < prepared.outputs.len() implies (
                    #[trigger] prepared.outputs[i]).destination_parameter_index is Some
                        && prepared.outputs[i].destination_parameter_index->0
                        < model.parameters@.len() by {
                        assert(!binding_fails(
                            view.outputs[i].destination_parameter_index,
                            view.outputs[i].destination.id@,
                            ids,
                            stepping,
                        ));
                        crate::model_resource::lemma_first_index_of(
                            ids,
                            view.outputs[i].destination.id@,
                        );
                    }
                }
                lemma_run_keeps_rig(unit, prepared, model, delta);
            }
            assert(run.same_rig(view) && run.wf());
            let weight = over(unit, run.current_remain_time, delta);
            lemma_interpolated_keeps_definitions(
                unit,
                run,
                model,
                weight,
                run.settings.len() as int,
            );
            let blend = interpolated_of(unit, run, model, weight, run.settings.len() as int);
            let after = PhysicsView { outputs: blend.outputs, ..run };
            assert(after.wf()) by {
                lemma_wf_by_shape(run, after);
            }
        }
    }
}

} // verus!
