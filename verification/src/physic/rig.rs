//! The building of a rig from its description, its well-formedness, and the
//! resting positions of its particles.

use crate::arith::{well_behaved, Op};
use crate::fault::Fault;
use crate::physic::types::{
    CubismPhysicsInput, CubismPhysicsInputType, CubismPhysicsNormalization,
    CubismPhysicsOutput, CubismPhysicsParameter, CubismPhysicsParticle, CubismPhysicsRig,
    CubismPhysicsSource, CubismPhysicsSubRig, CubismPhysicsTargetType,
    GetOutputScaleTranslationType, GetOutputTranslation, Physics,
};
use crate::physic::vector::CubismVector2;
use crate::physic_json::{InputParam, OutputParam, PhysicJson, PhysicsSetting, Vertice};
use crate::scalar::Scalar;
use crate::scalar::{ONE_BITS, ZERO_BITS};
use vstd::prelude::*;

verus! {

/// A simulation as a plain value: the rig and the state of its run.
pub struct PhysicsView {
    pub current_rig_outputs: Seq<Seq<Scalar>>,
    pub previous_rig_outputs: Seq<Seq<Scalar>>,
    pub current_remain_time: Scalar,
    pub parameter_cache: Seq<Scalar>,
    pub parameter_input_cache: Seq<Scalar>,
    pub sub_rig_count: usize,
    pub settings: Seq<CubismPhysicsSubRig>,
    pub inputs: Seq<CubismPhysicsInput>,
    pub outputs: Seq<CubismPhysicsOutput>,
    pub particles: Seq<CubismPhysicsParticle>,
    pub gravity: CubismVector2,
    pub wind: CubismVector2,
    pub fps: Option<Scalar>,
}

/// The lists of a list of lists.
pub open spec fn rows_of(rows: Seq<Vec<Scalar>>) -> Seq<Seq<Scalar>> {
    Seq::new(rows.len(), |k: int| rows[k]@)
}

impl View for Physics {
    type V = PhysicsView;

    open spec fn view(&self) -> PhysicsView {
        PhysicsView {
            current_rig_outputs: rows_of(self.current_rig_outputs@),
            previous_rig_outputs: rows_of(self.previous_rig_outputs@),
            current_remain_time: self.current_remain_time,
            parameter_cache: self.parameter_cache@,
            parameter_input_cache: self.parameter_input_cache@,
            sub_rig_count: self.physics_rig.sub_rig_count,
            settings: self.physics_rig.settings@,
            inputs: self.physics_rig.inputs@,
            outputs: self.physics_rig.outputs@,
            particles: self.physics_rig.particles@,
            gravity: self.physics_rig.gravity,
            wind: self.physics_rig.wind,
            fps: self.physics_rig.fps,
        }
    }
}

impl PhysicsView {
    /// Whether the lists of the rig fit its chains: the number of chains is
    /// the number of their settings, each chain has at least one particle,
    /// its inputs, outputs and particles lie within the lists, every input
    /// and output belongs to a chain, and the two buffers hold one value for
    /// each output of each chain.
    pub open spec fn wf(self) -> bool {
        &&& self.sub_rig_count == self.settings.len()
        &&& self.current_rig_outputs.len() == self.settings.len()
        &&& self.previous_rig_outputs.len() == self.settings.len()
        &&& forall|k: int|
            0 <= k < self.settings.len() ==> {
                &&& (#[trigger] self.settings[k]).particle_count >= 1
                &&& self.settings[k].base_input_index + self.settings[k].input_count
                    <= self.inputs.len()
                &&& self.settings[k].base_output_index + self.settings[k].output_count
                    <= self.outputs.len()
                &&& self.settings[k].base_particle_index + self.settings[k].particle_count
                    <= self.particles.len()
                &&& self.current_rig_outputs[k].len() == self.settings[k].output_count
                &&& self.previous_rig_outputs[k].len() == self.settings[k].output_count
            }
        &&& forall|i: int|
            0 <= i < self.inputs.len() ==> #[trigger] input_in_chain(self.settings, i)
        &&& forall|i: int|
            0 <= i < self.outputs.len() ==> #[trigger] output_in_chain(self.settings, i)
    }
}

/// Whether `a` is the input `b` but for the parameter that it has looked
/// up.
pub open spec fn same_input_definition(a: CubismPhysicsInput, b: CubismPhysicsInput) -> bool {
    a == (CubismPhysicsInput { source_parameter_index: a.source_parameter_index, ..b })
}

/// Whether `a` is the output `b` but for the parameter that it has looked
/// up and for what it has recorded.
pub open spec fn same_output_definition(a: CubismPhysicsOutput, b: CubismPhysicsOutput) -> bool {
    a == (CubismPhysicsOutput {
        destination_parameter_index: a.destination_parameter_index,
        value_below_minimum: a.value_below_minimum,
        value_exceeded_maximum: a.value_exceeded_maximum,
        ..b
    })
}

/// Whether `a` is the particle `b` but for where it is, how it moves and
/// what it has last felt.
pub open spec fn same_particle_definition(
    a: CubismPhysicsParticle,
    b: CubismPhysicsParticle,
) -> bool {
    &&& a.initial_position == b.initial_position
    &&& a.mobility == b.mobility
    &&& a.delay == b.delay
    &&& a.acceleration == b.acceleration
    &&& a.radius == b.radius
}

impl PhysicsView {
    /// Whether `other` is a simulation of the rig of this one: the same
    /// chains, forces and rate, and the same inputs, outputs and particles
    /// as far as their description goes.
    pub open spec fn same_rig(self, other: PhysicsView) -> bool {
        &&& self.sub_rig_count == other.sub_rig_count
        &&& self.settings == other.settings
        &&& self.gravity == other.gravity
        &&& self.wind == other.wind
        &&& self.fps == other.fps
        &&& self.inputs.len() == other.inputs.len()
        &&& self.outputs.len() == other.outputs.len()
        &&& self.particles.len() == other.particles.len()
        &&& forall|i: int|
            0 <= i < self.inputs.len() ==> same_input_definition(
                #[trigger] self.inputs[i],
                other.inputs[i],
            )
        &&& forall|i: int|
            0 <= i < self.outputs.len() ==> same_output_definition(
                #[trigger] self.outputs[i],
                other.outputs[i],
            )
        &&& forall|i: int|
            0 <= i < self.particles.len() ==> same_particle_definition(
                #[trigger] self.particles[i],
                other.particles[i],
            )
    }
}

/// Whether a simulation is well formed depends on its chains and on the
/// lengths of its lists alone.
pub proof fn lemma_wf_by_shape(a: PhysicsView, b: PhysicsView)
    requires
        a.wf(),
        b.sub_rig_count == a.sub_rig_count,
        b.settings == a.settings,
        b.inputs.len() == a.inputs.len(),
        b.outputs.len() == a.outputs.len(),
        b.particles.len() == a.particles.len(),
        b.current_rig_outputs.len() == a.current_rig_outputs.len(),
        b.previous_rig_outputs.len() == a.previous_rig_outputs.len(),
        forall|k: int|
            0 <= k < a.settings.len() ==> (#[trigger] b.current_rig_outputs[k]).len()
                == a.settings[k].output_count,
        forall|k: int|
            0 <= k < a.settings.len() ==> (#[trigger] b.previous_rig_outputs[k]).len()
                == a.settings[k].output_count,
    ensures
        b.wf(),
{
    assert forall|i: int| 0 <= i < b.outputs.len() implies #[trigger] output_in_chain(
        b.settings,
        i,
    ) by {
        assert(output_in_chain(a.settings, i));
    }
    assert forall|i: int| 0 <= i < b.inputs.len() implies #[trigger] input_in_chain(
        b.settings,
        i,
    ) by {
        assert(input_in_chain(a.settings, i));
    }
    assert forall|k: int| 0 <= k < b.settings.len() implies {
        &&& (#[trigger] b.settings[k]).particle_count >= 1
        &&& b.settings[k].base_input_index + b.settings[k].input_count <= b.inputs.len()
        &&& b.settings[k].base_output_index + b.settings[k].output_count <= b.outputs.len()
        &&& b.settings[k].base_particle_index + b.settings[k].particle_count <= b.particles.len()
        &&& b.current_rig_outputs[k].len() == b.settings[k].output_count
        &&& b.previous_rig_outputs[k].len() == b.settings[k].output_count
    } by {
        assert(a.settings[k].particle_count >= 1);
        assert(b.current_rig_outputs[k].len() == a.settings[k].output_count);
        assert(b.previous_rig_outputs[k].len() == a.settings[k].output_count);
    }
}

/// Whether the input at `i` belongs to one of the chains.
pub open spec fn input_in_chain(settings: Seq<CubismPhysicsSubRig>, i: int) -> bool {
    exists|k: int|
        0 <= k < settings.len() && (#[trigger] settings[k]).base_input_index <= i
            < settings[k].base_input_index + settings[k].input_count
}

/// Whether the output at `i` belongs to one of the chains.
pub open spec fn output_in_chain(settings: Seq<CubismPhysicsSubRig>, i: int) -> bool {
    exists|k: int|
        0 <= k < settings.len() && (#[trigger] settings[k]).base_output_index <= i
            < settings[k].base_output_index + settings[k].output_count
}

/// Whether the input at `i` is one of those that the first `n` settings
/// describe.
pub open spec fn input_described(settings: Seq<PhysicsSetting>, n: int, i: int) -> bool {
    exists|k: int|
        0 <= k < n && (#[trigger] inputs_of(settings, k)).len() <= i < inputs_of(settings, k).len()
            + settings[k].input@.len()
}

/// Whether the output at `i` is one of those that the first `n` settings
/// describe.
pub open spec fn output_described(settings: Seq<PhysicsSetting>, n: int, i: int) -> bool {
    exists|k: int|
        0 <= k < n && (#[trigger] outputs_of(settings, k)).len() <= i < outputs_of(
            settings,
            k,
        ).len() + settings[k].output@.len()
}

/// What one of the words `X`, `Y` and `Angle` stands for.
pub open spec fn axis_of(word: Seq<char>) -> Option<CubismPhysicsSource> {
    if word == "X"@ {
        Some(CubismPhysicsSource::CubismPhysicsSourceX)
    } else if word == "Y"@ {
        Some(CubismPhysicsSource::CubismPhysicsSourceY)
    } else if word == "Angle"@ {
        Some(CubismPhysicsSource::CubismPhysicsSourceAngle)
    } else {
        None
    }
}

/// The total that an input of the given axis adds to.
pub open spec fn input_type_of(axis: CubismPhysicsSource) -> CubismPhysicsInputType {
    match axis {
        CubismPhysicsSource::CubismPhysicsSourceX => CubismPhysicsInputType::X,
        CubismPhysicsSource::CubismPhysicsSourceY => CubismPhysicsInputType::Y,
        CubismPhysicsSource::CubismPhysicsSourceAngle => CubismPhysicsInputType::Angle,
    }
}

/// How an output of the given axis takes its value.
pub open spec fn value_getter_of(axis: CubismPhysicsSource) -> GetOutputTranslation {
    match axis {
        CubismPhysicsSource::CubismPhysicsSourceX => GetOutputTranslation::X,
        CubismPhysicsSource::CubismPhysicsSourceY => GetOutputTranslation::Y,
        CubismPhysicsSource::CubismPhysicsSourceAngle => GetOutputTranslation::Angle,
    }
}

/// Which scale an output of the given axis applies.
pub open spec fn scale_getter_of(axis: CubismPhysicsSource) -> GetOutputScaleTranslationType {
    match axis {
        CubismPhysicsSource::CubismPhysicsSourceX => GetOutputScaleTranslationType::X,
        CubismPhysicsSource::CubismPhysicsSourceY => GetOutputScaleTranslationType::Y,
        CubismPhysicsSource::CubismPhysicsSourceAngle => GetOutputScaleTranslationType::Angle,
    }
}

/// The input that a description gives, with its parameter not yet looked
/// up; `None` where the axis is not one of the three words.
pub open spec fn input_of(description: InputParam) -> Option<CubismPhysicsInput> {
    match axis_of(description.input_type@) {
        Some(axis) => Some(
            CubismPhysicsInput {
                source: CubismPhysicsParameter {
                    id: description.source.id,
                    target_type: CubismPhysicsTargetType::CubismPhysicsTargetTypeParameter,
                },
                source_parameter_index: None,
                weight: description.weight,
                input_type: axis,
                reflect: description.reflect,
                cubism_physics_input_type: input_type_of(axis),
            },
        ),
        None => None,
    }
}

/// The output that a description gives, with its parameter not yet looked
/// up and nothing recorded; `None` where the axis is not one of the three
/// words.
pub open spec fn output_of(description: OutputParam) -> Option<CubismPhysicsOutput> {
    match axis_of(description.output_type@) {
        Some(axis) => Some(
            CubismPhysicsOutput {
                destination: CubismPhysicsParameter {
                    id: description.destination.id,
                    target_type: CubismPhysicsTargetType::CubismPhysicsTargetTypeParameter,
                },
                destination_parameter_index: None,
                vertex_index: description.vertex_index,
                translation_scale: CubismVector2::zero(),
                angle_scale: description.scale,
                weight: description.weight,
                output_type: axis,
                reflect: description.reflect,
                value_below_minimum: Scalar::from_bits(ZERO_BITS),
                value_exceeded_maximum: Scalar::from_bits(ZERO_BITS),
                get_value: value_getter_of(axis),
                get_scale: scale_getter_of(axis),
            },
        ),
        None => None,
    }
}

/// The particle that a description gives: at its position, at rest, and
/// with nothing derived yet.
pub open spec fn particle_of(description: Vertice) -> CubismPhysicsParticle {
    CubismPhysicsParticle {
        initial_position: CubismVector2::zero(),
        mobility: description.mobility,
        delay: description.delay,
        acceleration: description.acceleration,
        radius: description.radius,
        position: CubismVector2 { x: description.position.x, y: description.position.y },
        last_position: CubismVector2::zero(),
        last_gravity: CubismVector2::zero(),
        force: CubismVector2::zero(),
        velocity: CubismVector2::zero(),
    }
}

/// Whether a setting describes a chain: the axis of every input and output
/// is one of the three words, and there is at least one particle.
pub open spec fn setting_ok(setting: PhysicsSetting) -> bool {
    &&& forall|i: int|
        0 <= i < setting.input@.len() ==> (#[trigger] input_of(setting.input@[i])) is Some
    &&& forall|i: int|
        0 <= i < setting.output@.len() ==> (#[trigger] output_of(setting.output@[i])) is Some
    &&& setting.vertices@.len() >= 1
}

/// The inputs of one chain.
pub open spec fn chain_inputs_of(descriptions: Seq<InputParam>) -> Seq<CubismPhysicsInput> {
    Seq::new(descriptions.len(), |i: int| input_of(descriptions[i])->0)
}

/// The outputs of one chain.
pub open spec fn chain_outputs_of(descriptions: Seq<OutputParam>) -> Seq<CubismPhysicsOutput> {
    Seq::new(descriptions.len(), |i: int| output_of(descriptions[i])->0)
}

/// The particles of one chain.
pub open spec fn chain_particles_of(descriptions: Seq<Vertice>) -> Seq<CubismPhysicsParticle> {
    Seq::new(descriptions.len(), |i: int| particle_of(descriptions[i]))
}

/// The inputs of the first `n` chains, one chain after the other.
pub open spec fn inputs_of(settings: Seq<PhysicsSetting>, n: int) -> Seq<CubismPhysicsInput>
    decreases n,
{
    if n <= 0 {
        Seq::empty()
    } else {
        inputs_of(settings, n - 1) + chain_inputs_of(settings[n - 1].input@)
    }
}

/// The outputs of the first `n` chains, one chain after the other.
pub open spec fn outputs_of(settings: Seq<PhysicsSetting>, n: int) -> Seq<CubismPhysicsOutput>
    decreases n,
{
    if n <= 0 {
        Seq::empty()
    } else {
        outputs_of(settings, n - 1) + chain_outputs_of(settings[n - 1].output@)
    }
}

/// The particles of the first `n` chains, one chain after the other.
pub open spec fn particles_of(settings: Seq<PhysicsSetting>, n: int) -> Seq<CubismPhysicsParticle>
    decreases n,
{
    if n <= 0 {
        Seq::empty()
    } else {
        particles_of(settings, n - 1) + chain_particles_of(settings[n - 1].vertices@)
    }
}

/// The chain at `k`: its counts are those of its setting, and it starts in
/// each list where the chains before it end.
pub open spec fn sub_rig_of(settings: Seq<PhysicsSetting>, k: int) -> CubismPhysicsSubRig {
    CubismPhysicsSubRig {
        input_count: settings[k].input@.len() as usize,
        output_count: settings[k].output@.len() as usize,
        particle_count: settings[k].vertices@.len() as usize,
        base_input_index: inputs_of(settings, k).len() as usize,
        base_output_index: outputs_of(settings, k).len() as usize,
        base_particle_index: particles_of(settings, k).len() as usize,
        normalization_position: CubismPhysicsNormalization {
            minimum: settings[k].normalization.position.minimum,
            maximum: settings[k].normalization.position.maximum,
            default: settings[k].normalization.position.default,
        },
        normalization_angle: CubismPhysicsNormalization {
            minimum: settings[k].normalization.angle.minimum,
            maximum: settings[k].normalization.angle.maximum,
            default: settings[k].normalization.angle.default,
        },
    }
}

/// Whether a description describes a rig: every setting describes a chain,
/// and the header announces the numbers of settings, inputs, outputs and
/// particles that the description holds.
pub open spec fn description_ok(json: PhysicJson) -> bool {
    let settings = json.physics_settings@;
    &&& forall|k: int| 0 <= k < settings.len() ==> setting_ok(#[trigger] settings[k])
    &&& json.meta.physics_setting_count == settings.len()
    &&& json.meta.total_input_count == inputs_of(settings, settings.len() as int).len()
    &&& json.meta.total_output_count == outputs_of(settings, settings.len() as int).len()
    &&& json.meta.vertex_count == particles_of(settings, settings.len() as int).len()
}

/// The simulation that a description gives, before its first step: the
/// chains with their inputs, outputs and particles, both buffers at zero,
/// no time to step through, and no parameter values cached.
pub open spec fn physics_of(json: PhysicJson) -> PhysicsView {
    let settings = json.physics_settings@;
    let count = settings.len() as int;
    let zeros = Seq::new(
        settings.len(),
        |k: int| Seq::new(settings[k].output@.len(), |i: int| Scalar::from_bits(ZERO_BITS)),
    );
    PhysicsView {
        current_rig_outputs: zeros,
        previous_rig_outputs: zeros,
        current_remain_time: Scalar::from_bits(ZERO_BITS),
        parameter_cache: Seq::empty(),
        parameter_input_cache: Seq::empty(),
        sub_rig_count: settings.len() as usize,
        settings: Seq::new(settings.len(), |k: int| sub_rig_of(settings, k)),
        inputs: inputs_of(settings, count),
        outputs: outputs_of(settings, count),
        particles: particles_of(settings, count),
        gravity: CubismVector2 {
            x: json.meta.effective_forces.gravity.x,
            y: json.meta.effective_forces.gravity.y,
        },
        wind: CubismVector2 {
            x: json.meta.effective_forces.wind.x,
            y: json.meta.effective_forces.wind.y,
        },
        fps: json.meta.fps,
    }
}

/// The lists of the first chains are the start of the lists of more.
pub proof fn lemma_lists_grow(settings: Seq<PhysicsSetting>, k: int, n: int)
    requires
        0 <= k <= n,
    ensures
        inputs_of(settings, k).len() <= inputs_of(settings, n).len(),
        outputs_of(settings, k).len() <= outputs_of(settings, n).len(),
        particles_of(settings, k).len() <= particles_of(settings, n).len(),
        inputs_of(settings, n).subrange(0, inputs_of(settings, k).len() as int) == inputs_of(
            settings,
            k,
        ),
        outputs_of(settings, n).subrange(0, outputs_of(settings, k).len() as int) == outputs_of(
            settings,
            k,
        ),
        particles_of(settings, n).subrange(0, particles_of(settings, k).len() as int)
            == particles_of(settings, k),
    decreases n - k,
{
    if k < n {
        lemma_lists_grow(settings, k, n - 1);
        assert(inputs_of(settings, n).subrange(0, inputs_of(settings, k).len() as int)
            =~= inputs_of(settings, n - 1).subrange(0, inputs_of(settings, k).len() as int));
        assert(outputs_of(settings, n).subrange(0, outputs_of(settings, k).len() as int)
            =~= outputs_of(settings, n - 1).subrange(0, outputs_of(settings, k).len() as int));
        assert(particles_of(settings, n).subrange(0, particles_of(settings, k).len() as int)
            =~= particles_of(settings, n - 1).subrange(
            0,
            particles_of(settings, k).len() as int,
        ));
    } else {
        assert(inputs_of(settings, n).subrange(0, inputs_of(settings, k).len() as int)
            =~= inputs_of(settings, k));
        assert(outputs_of(settings, n).subrange(0, outputs_of(settings, k).len() as int)
            =~= outputs_of(settings, k));
        assert(particles_of(settings, n).subrange(0, particles_of(settings, k).len() as int)
            =~= particles_of(settings, k));
    }
}

/// Every input of the first `n` chains lies in the range of one of them,
/// and so does every output.
pub proof fn lemma_lists_are_covered(settings: Seq<PhysicsSetting>, n: int)
    requires
        0 <= n <= settings.len(),
    ensures
        forall|i: int|
            0 <= i < inputs_of(settings, n).len() ==> #[trigger] input_described(settings, n, i),
        forall|i: int|
            0 <= i < outputs_of(settings, n).len() ==> #[trigger] output_described(settings, n, i),
    decreases n,
{
    if n > 0 {
        lemma_lists_are_covered(settings, n - 1);
        assert forall|i: int|
            0 <= i < inputs_of(settings, n).len() implies #[trigger] input_described(
            settings,
            n,
            i,
        ) by {
            if i < inputs_of(settings, n - 1).len() {
                assert(input_described(settings, n - 1, i));
                let k = choose|k: int|
                    0 <= k < n - 1 && (#[trigger] inputs_of(settings, k)).len() <= i < inputs_of(
                        settings,
                        k,
                    ).len() + settings[k].input@.len();
                assert(0 <= k < n && inputs_of(settings, k).len() <= i);
            } else {
                assert(inputs_of(settings, n - 1).len() <= i);
            }
        }
        assert forall|i: int|
            0 <= i < outputs_of(settings, n).len() implies #[trigger] output_described(
            settings,
            n,
            i,
        ) by {
            if i < outputs_of(settings, n - 1).len() {
                assert(output_described(settings, n - 1, i));
                let k = choose|k: int|
                    0 <= k < n - 1 && (#[trigger] outputs_of(settings, k)).len() <= i
                        < outputs_of(settings, k).len() + settings[k].output@.len();
                assert(0 <= k < n && outputs_of(settings, k).len() <= i);
            } else {
                assert(outputs_of(settings, n - 1).len() <= i);
            }
        }
    }
}

/// A list of `n` zeros.
pub fn zeros(n: usize) -> (v: Vec<Scalar>)
    ensures
        v@ == Seq::new(n as nat, |i: int| Scalar::from_bits(ZERO_BITS)),
{
    let mut v: Vec<Scalar> = Vec::new();
    let mut i: usize = 0;
    while i < n
        invariant
            i <= n,
            v@ == Seq::new(i as nat, |j: int| Scalar::from_bits(ZERO_BITS)),
        decreases n - i,
    {
        v.push(Scalar::from_bits(ZERO_BITS));
        proof {
            assert(v@ =~= Seq::new((i + 1) as nat, |j: int| Scalar::from_bits(ZERO_BITS)));
        }
        i += 1;
    }
    v
}

fn read_axis(word: &String, x: &String, y: &String, angle: &String) -> (r: Option<
    CubismPhysicsSource,
>)
    requires
        x@ == "X"@,
        y@ == "Y"@,
        angle@ == "Angle"@,
    ensures
        r == axis_of(word@),
{
    if *word == *x {
        Some(CubismPhysicsSource::CubismPhysicsSourceX)
    } else if *word == *y {
        Some(CubismPhysicsSource::CubismPhysicsSourceY)
    } else if *word == *angle {
        Some(CubismPhysicsSource::CubismPhysicsSourceAngle)
    } else {
        None
    }
}

fn read_input(description: &InputParam, x: &String, y: &String, angle: &String) -> (r: Option<
    CubismPhysicsInput,
>)
    requires
        x@ == "X"@,
        y@ == "Y"@,
        angle@ == "Angle"@,
    ensures
        r == input_of(*description),
{
    match read_axis(&description.input_type, x, y, angle) {
        Some(axis) => {
            let cubism_physics_input_type = match axis {
                CubismPhysicsSource::CubismPhysicsSourceX => CubismPhysicsInputType::X,
                CubismPhysicsSource::CubismPhysicsSourceY => CubismPhysicsInputType::Y,
                CubismPhysicsSource::CubismPhysicsSourceAngle => CubismPhysicsInputType::Angle,
            };
            Some(
                CubismPhysicsInput {
                    source: CubismPhysicsParameter {
                        id: description.source.id.clone(),
                        target_type: CubismPhysicsTargetType::CubismPhysicsTargetTypeParameter,
                    },
                    source_parameter_index: None,
                    weight: description.weight,
                    input_type: axis,
                    reflect: description.reflect,
                    cubism_physics_input_type,
                },
            )
        },
        None => None,
    }
}

fn read_output(description: &OutputParam, x: &String, y: &String, angle: &String) -> (r: Option<
    CubismPhysicsOutput,
>)
    requires
        x@ == "X"@,
        y@ == "Y"@,
        angle@ == "Angle"@,
    ensures
        r == output_of(*description),
{
    match read_axis(&description.output_type, x, y, angle) {
        Some(axis) => {
            let get_value = match axis {
                CubismPhysicsSource::CubismPhysicsSourceX => GetOutputTranslation::X,
                CubismPhysicsSource::CubismPhysicsSourceY => GetOutputTranslation::Y,
                CubismPhysicsSource::CubismPhysicsSourceAngle => GetOutputTranslation::Angle,
            };
            let get_scale = match axis {
                CubismPhysicsSource::CubismPhysicsSourceX => GetOutputScaleTranslationType::X,
                CubismPhysicsSource::CubismPhysicsSourceY => GetOutputScaleTranslationType::Y,
                CubismPhysicsSource::CubismPhysicsSourceAngle => {
                    GetOutputScaleTranslationType::Angle
                },
            };
            Some(
                CubismPhysicsOutput {
                    destination: CubismPhysicsParameter {
                        id: description.destination.id.clone(),
                        target_type: CubismPhysicsTargetType::CubismPhysicsTargetTypeParameter,
                    },
                    destination_parameter_index: None,
                    vertex_index: description.vertex_index,
                    translation_scale: CubismVector2::default(),
                    angle_scale: description.scale,
                    weight: description.weight,
                    output_type: axis,
                    reflect: description.reflect,
                    value_below_minimum: Scalar::from_bits(ZERO_BITS),
                    value_exceeded_maximum: Scalar::from_bits(ZERO_BITS),
                    get_value,
                    get_scale,
                },
            )
        },
        None => None,
    }
}

fn read_particle(description: &Vertice) -> (r: CubismPhysicsParticle)
    ensures
        r == particle_of(*description),
{
    CubismPhysicsParticle {
        initial_position: CubismVector2::default(),
        mobility: description.mobility,
        delay: description.delay,
        acceleration: description.acceleration,
        radius: description.radius,
        position: CubismVector2 { x: description.position.x, y: description.position.y },
        last_position: CubismVector2::default(),
        last_gravity: CubismVector2::default(),
        force: CubismVector2::default(),
        velocity: CubismVector2::default(),
    }
}

fn announced(count: i32, found: usize) -> (r: bool)
    ensures
        r == (count == found),
{
    count >= 0 && count as usize == found
}

impl Physics {
    /// Builds a simulation from the description of a rig. The description
    /// is rejected where the axis of an input or output is none of the
    /// words `X`, `Y` and `Angle`, where a chain has no particle, or where
    /// the header announces other totals than the description holds.
    #[verifier::loop_isolation(false)]
    pub fn new(json: &PhysicJson) -> (r: Result<Physics, Fault>)
        ensures
            description_ok(*json) ==> (r matches Ok(physics) && physics@ == physics_of(*json)
                && physics@.wf()),
            !description_ok(*json) ==> (r matches Err(fault) && fault
                == Fault::MalformedDescriptor),
    {
        let x_word: String = "X".to_owned();
        let y_word: String = "Y".to_owned();
        let angle_word: String = "Angle".to_owned();

        let mut settings: Vec<CubismPhysicsSubRig> = Vec::new();
        let mut inputs: Vec<CubismPhysicsInput> = Vec::new();
        let mut outputs: Vec<CubismPhysicsOutput> = Vec::new();
        let mut particles: Vec<CubismPhysicsParticle> = Vec::new();

        let mut current_rig_outputs: Vec<Vec<Scalar>> = Vec::new();
        let mut previous_rig_outputs: Vec<Vec<Scalar>> = Vec::new();

        let ghost descriptions = json.physics_settings@;
        let count = json.physics_settings.len();
        let mut k: usize = 0;
        while k < count
            invariant
                k <= count,
                count == descriptions.len(),
                descriptions == json.physics_settings@,
                x_word@ == "X"@,
                y_word@ == "Y"@,
                angle_word@ == "Angle"@,
                forall|j: int| 0 <= j < k ==> setting_ok(#[trigger] descriptions[j]),
                settings@ == Seq::new(k as nat, |j: int| sub_rig_of(descriptions, j)),
                inputs@ == inputs_of(descriptions, k as int),
                outputs@ == outputs_of(descriptions, k as int),
                particles@ == particles_of(descriptions, k as int),
                rows_of(current_rig_outputs@) == Seq::new(
                    k as nat,
                    |j: int|
                        Seq::new(
                            descriptions[j].output@.len(),
                            |i: int| Scalar::from_bits(ZERO_BITS),
                        ),
                ),
                rows_of(previous_rig_outputs@) == rows_of(current_rig_outputs@),
            decreases count - k,
        {
            let setting = &json.physics_settings[k];
            if setting.vertices.len() == 0 {
                assert(!setting_ok(descriptions[k as int]));
                return Err(Fault::MalformedDescriptor);
            }
            let sub_rig = CubismPhysicsSubRig {
                input_count: setting.input.len(),
                output_count: setting.output.len(),
                particle_count: setting.vertices.len(),
                base_input_index: inputs.len(),
                base_output_index: outputs.len(),
                base_particle_index: particles.len(),
                normalization_position: CubismPhysicsNormalization {
                    minimum: setting.normalization.position.minimum,
                    maximum: setting.normalization.position.maximum,
                    default: setting.normalization.position.default,
                },
                normalization_angle: CubismPhysicsNormalization {
                    minimum: setting.normalization.angle.minimum,
                    maximum: setting.normalization.angle.maximum,
                    default: setting.normalization.angle.default,
                },
            };
            assert(sub_rig == sub_rig_of(descriptions, k as int));
            settings.push(sub_rig);
            assert(settings@ =~= Seq::new((k + 1) as nat, |j: int| sub_rig_of(descriptions, j)));

            let input_count = setting.input.len();
            let mut i: usize = 0;
            while i < input_count
                invariant
                    i <= input_count,
                    input_count == setting.input@.len(),
                    x_word@ == "X"@,
                    y_word@ == "Y"@,
                    angle_word@ == "Angle"@,
                    forall|j: int| 0 <= j < i ==> (#[trigger] input_of(setting.input@[j])) is Some,
                    inputs@ == inputs_of(descriptions, k as int) + chain_inputs_of(
                        setting.input@,
                    ).subrange(0, i as int),
                decreases input_count - i,
            {
                match read_input(&setting.input[i], &x_word, &y_word, &angle_word) {
                    Some(input) => {
                        inputs.push(input);
                        assert(inputs@ =~= inputs_of(descriptions, k as int) + chain_inputs_of(
                            setting.input@,
                        ).subrange(0, i + 1));
                    },
                    None => {
                        assert(input_of(setting.input@[i as int]) is None);
                        assert(!setting_ok(descriptions[k as int]));
                        return Err(Fault::MalformedDescriptor);
                    },
                }
                i += 1;
            }
            assert(chain_inputs_of(setting.input@).subrange(0, input_count as int)
                =~= chain_inputs_of(setting.input@));

            let output_count = setting.output.len();
            let mut i: usize = 0;
            while i < output_count
                invariant
                    i <= output_count,
                    output_count == setting.output@.len(),
                    x_word@ == "X"@,
                    y_word@ == "Y"@,
                    angle_word@ == "Angle"@,
                    forall|j: int|
                        0 <= j < i ==> (#[trigger] output_of(setting.output@[j])) is Some,
                    outputs@ == outputs_of(descriptions, k as int) + chain_outputs_of(
                        setting.output@,
                    ).subrange(0, i as int),
                decreases output_count - i,
            {
                match read_output(&setting.output[i], &x_word, &y_word, &angle_word) {
                    Some(output) => {
                        outputs.push(output);
                        assert(outputs@ =~= outputs_of(descriptions, k as int) + chain_outputs_of(
                            setting.output@,
                        ).subrange(0, i + 1));
                    },
                    None => {
                        assert(output_of(setting.output@[i as int]) is None);
                        assert(!setting_ok(descriptions[k as int]));
                        return Err(Fault::MalformedDescriptor);
                    },
                }
                i += 1;
            }
            assert(chain_outputs_of(setting.output@).subrange(0, output_count as int)
                =~= chain_outputs_of(setting.output@));

            let particle_count = setting.vertices.len();
            let mut i: usize = 0;
            while i < particle_count
                invariant
                    i <= particle_count,
                    particle_count == setting.vertices@.len(),
                    particles@ == particles_of(descriptions, k as int) + chain_particles_of(
                        setting.vertices@,
                    ).subrange(0, i as int),
                decreases particle_count - i,
            {
                particles.push(read_particle(&setting.vertices[i]));
                assert(particles@ =~= particles_of(descriptions, k as int) + chain_particles_of(
                    setting.vertices@,
                ).subrange(0, i + 1));
                i += 1;
            }
            assert(chain_particles_of(setting.vertices@).subrange(0, particle_count as int)
                =~= chain_particles_of(setting.vertices@));

            let ghost rows_before = rows_of(current_rig_outputs@);
            current_rig_outputs.push(zeros(output_count));
            previous_rig_outputs.push(zeros(output_count));
            proof {
                let rows = rows_of(current_rig_outputs@);
                let expected = Seq::new(
                    (k + 1) as nat,
                    |j: int|
                        Seq::new(
                            descriptions[j].output@.len(),
                            |i: int| Scalar::from_bits(ZERO_BITS),
                        ),
                );
                assert forall|j: int| 0 <= j < k + 1 implies rows[j] == expected[j] by {
                    if j < k {
                        assert(rows[j] == rows_before[j]);
                    }
                }
                assert(rows =~= expected);
                let others = rows_of(previous_rig_outputs@);
                assert forall|j: int| 0 <= j < k + 1 implies others[j] == rows[j] by {
                    if j < k {
                        assert(others[j] == rows_before[j]);
                    }
                }
                assert(others =~= rows);
                assert(setting_ok(descriptions[k as int]));
            }
            k += 1;
        }

        if !announced(json.meta.physics_setting_count, count) || !announced(
            json.meta.total_input_count,
            inputs.len(),
        ) || !announced(json.meta.total_output_count, outputs.len()) || !announced(
            json.meta.vertex_count,
            particles.len(),
        ) {
            return Err(Fault::MalformedDescriptor);
        }
        let physics = Physics {
            current_rig_outputs,
            previous_rig_outputs,
            current_remain_time: Scalar::from_bits(ZERO_BITS),
            parameter_cache: Vec::new(),
            parameter_input_cache: Vec::new(),
            physics_rig: CubismPhysicsRig {
                sub_rig_count: count,
                settings,
                inputs,
                outputs,
                particles,
                gravity: CubismVector2 {
                    x: json.meta.effective_forces.gravity.x,
                    y: json.meta.effective_forces.gravity.y,
                },
                wind: CubismVector2 {
                    x: json.meta.effective_forces.wind.x,
                    y: json.meta.effective_forces.wind.y,
                },
                fps: json.meta.fps,
            },
        };
        proof {
            let view = physics@;
            assert(view.settings =~= physics_of(*json).settings);
            assert(view.parameter_cache =~= physics_of(*json).parameter_cache);
            assert(view.parameter_input_cache =~= physics_of(*json).parameter_input_cache);
            assert(view.current_rig_outputs =~= physics_of(*json).current_rig_outputs);
            assert(view.previous_rig_outputs =~= physics_of(*json).previous_rig_outputs);
            lemma_lists_are_covered(descriptions, count as int);
            assert forall|j: int| 0 <= j < view.settings.len() implies {
                &&& (#[trigger] view.settings[j]).particle_count >= 1
                &&& view.settings[j].base_input_index + view.settings[j].input_count
                    <= view.inputs.len()
                &&& view.settings[j].base_output_index + view.settings[j].output_count
                    <= view.outputs.len()
                &&& view.settings[j].base_particle_index + view.settings[j].particle_count
                    <= view.particles.len()
                &&& view.current_rig_outputs[j].len() == view.settings[j].output_count
                &&& view.previous_rig_outputs[j].len() == view.settings[j].output_count
            } by {
                assert(setting_ok(descriptions[j]));
                lemma_lists_grow(descriptions, j, count as int);
                lemma_lists_grow(descriptions, j + 1, count as int);
                assert(view.settings[j] == sub_rig_of(descriptions, j));
            }
            assert forall|i: int| 0 <= i < view.inputs.len() implies #[trigger] input_in_chain(
                view.settings,
                i,
            ) by {
                assert(input_described(descriptions, count as int, i));
                let j = choose|j: int|
                    0 <= j < count && (#[trigger] inputs_of(descriptions, j)).len() <= i
                        < inputs_of(descriptions, j).len() + descriptions[j].input@.len();
                lemma_lists_grow(descriptions, j, count as int);
                lemma_lists_grow(descriptions, j + 1, count as int);
                assert(view.settings[j] == sub_rig_of(descriptions, j));
                assert(view.settings[j].base_input_index <= i < view.settings[j].base_input_index
                    + view.settings[j].input_count);
            }
            assert forall|i: int| 0 <= i < view.outputs.len() implies #[trigger] output_in_chain(
                view.settings,
                i,
            ) by {
                assert(output_described(descriptions, count as int, i));
                let j = choose|j: int|
                    0 <= j < count && (#[trigger] outputs_of(descriptions, j)).len() <= i
                        < outputs_of(descriptions, j).len() + descriptions[j].output@.len();
                lemma_lists_grow(descriptions, j, count as int);
                lemma_lists_grow(descriptions, j + 1, count as int);
                assert(view.settings[j] == sub_rig_of(descriptions, j));
                assert(view.settings[j].base_output_index <= i
                    < view.settings[j].base_output_index + view.settings[j].output_count);
            }
        }
        Ok(physics)
    }
}

/// A particle at rest below the particle before it: its resting position is
/// that of the particle before, moved down by its own radius, it has last
/// been there, it has last felt gravity straight down, and it neither moves
/// nor is pushed.
pub open spec fn rested_of<A: Fn(Op, Scalar, Scalar) -> Scalar>(
    unit: &A,
    particle: CubismPhysicsParticle,
    previous_rest: CubismVector2,
) -> CubismPhysicsParticle {
    let rest = previous_rest.add(
        unit,
        CubismVector2 { x: Scalar::from_bits(ZERO_BITS), y: particle.radius },
    );
    CubismPhysicsParticle {
        initial_position: rest,
        last_position: rest,
        last_gravity: CubismVector2 {
            x: Scalar::from_bits(ZERO_BITS),
            y: Scalar::from_bits(ONE_BITS),
        },
        velocity: CubismVector2::zero(),
        force: CubismVector2::zero(),
        ..particle
    }
}

/// The particles after the `n` particles that follow the root of the chain
/// at `base` have been put to rest, each below the one before it. The root
/// counts as resting at the origin and is left as it is.
pub open spec fn chain_initialized_of<A: Fn(Op, Scalar, Scalar) -> Scalar>(
    unit: &A,
    particles: Seq<CubismPhysicsParticle>,
    base: int,
    n: int,
) -> Seq<CubismPhysicsParticle>
    decreases n,
{
    if n <= 0 {
        particles
    } else {
        let before = chain_initialized_of(unit, particles, base, n - 1);
        let previous_rest = if n == 1 {
            CubismVector2::zero()
        } else {
            before[base + n - 1].initial_position
        };
        before.update(base + n, rested_of(unit, before[base + n], previous_rest))
    }
}

/// The particles after the first `m` chains have been put to rest.
pub open spec fn initialized_of<A: Fn(Op, Scalar, Scalar) -> Scalar>(
    unit: &A,
    particles: Seq<CubismPhysicsParticle>,
    settings: Seq<CubismPhysicsSubRig>,
    m: int,
) -> Seq<CubismPhysicsParticle>
    decreases m,
{
    if m <= 0 {
        particles
    } else {
        chain_initialized_of(
            unit,
            initialized_of(unit, particles, settings, m - 1),
            settings[m - 1].base_particle_index as int,
            settings[m - 1].particle_count - 1,
        )
    }
}

impl Physics {
    /// Puts the particles of every chain to rest: each particle after the
    /// root of its chain rests below the particle before it, at the
    /// distance of its own radius. This has to be done once before the
    /// first step.
    #[verifier::loop_isolation(false)]
    pub fn initialize<A: Fn(Op, Scalar, Scalar) -> Scalar>(&mut self, unit: &A)
        requires
            well_behaved(*unit),
            old(self)@.wf(),
        ensures
            final(self)@ == (PhysicsView {
                particles: initialized_of(
                    unit,
                    old(self)@.particles,
                    old(self)@.settings,
                    old(self)@.settings.len() as int,
                ),
                ..old(self)@
            }),
            final(self)@.wf(),
    {
        let ghost start = self@;
        let count = self.physics_rig.settings.len();
        let length = self.physics_rig.particles.len();
        let mut k: usize = 0;
        while k < count
            invariant
                k <= count,
                self@ == (PhysicsView {
                    particles: initialized_of(unit, start.particles, start.settings, k as int),
                    ..start
                }),
                self.physics_rig.particles@.len() == length,
            decreases count - k,
        {
            let base = self.physics_rig.settings[k].base_particle_index;
            let particle_count = self.physics_rig.settings[k].particle_count;
            assert(start.settings[k as int].particle_count >= 1);
            let ghost before = self.physics_rig.particles@;
            let mut previous_rest = CubismVector2::default();
            let mut j: usize = 1;
            while j < particle_count
                invariant
                    1 <= j <= particle_count,
                    base + particle_count <= length,
                    self.physics_rig.particles@.len() == length,
                    self.physics_rig.particles@ == chain_initialized_of(
                        unit,
                        before,
                        base as int,
                        j - 1,
                    ),
                    previous_rest == if j == 1 {
                        CubismVector2::zero()
                    } else {
                        self.physics_rig.particles@[base + j - 1].initial_position
                    },
                    self@ == (PhysicsView { particles: self.physics_rig.particles@, ..start }),
                decreases particle_count - j,
            {
                let own = base + j;
                let mut particle = self.physics_rig.particles[own];
                let radius = CubismVector2 {
                    x: Scalar::from_bits(ZERO_BITS),
                    y: particle.radius,
                };
                particle.initial_position = previous_rest.add(unit, radius);
                particle.last_position = particle.initial_position;
                particle.last_gravity = CubismVector2 {
                    x: Scalar::from_bits(ZERO_BITS),
                    y: Scalar::from_bits(ONE_BITS),
                };
                particle.velocity = CubismVector2::default();
                particle.force = CubismVector2::default();
                self.physics_rig.particles[own] = particle;
                previous_rest = particle.initial_position;
                j += 1;
            }
            k += 1;
        }
    }
}

} // verus!
