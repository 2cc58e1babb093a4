//! The rig of a simulation and the state of its run.

use crate::physic::vector::CubismVector2;
use crate::scalar::Scalar;
use vstd::prelude::*;

verus! {

/// What a physics input reads from, or an output writes to.
#[derive(Clone, Copy, Debug, PartialEq, Eq, Structural)]
pub enum CubismPhysicsTargetType {
    /// A parameter of the model.
    CubismPhysicsTargetTypeParameter,
}

/// The component of the motion that an input feeds or an output takes.
#[derive(Clone, Copy, Debug, PartialEq, Eq, Structural)]
pub enum CubismPhysicsSource {
    /// The position along the horizontal axis.
    CubismPhysicsSourceX,
    /// The position along the vertical axis.
    CubismPhysicsSourceY,
    /// The angle.
    CubismPhysicsSourceAngle,
}

/// Which scale an output applies to its value.
#[derive(Clone, Copy, Debug, PartialEq, Eq, Structural)]
pub enum GetOutputScaleTranslationType {
    X,
    Y,
    Angle,
}

/// Which total an input adds its normalized value to.
#[derive(Clone, Copy, Debug, PartialEq, Eq, Structural)]
pub enum CubismPhysicsInputType {
    X,
    Y,
    Angle,
}

/// How an output takes its value from the step between two particles.
#[derive(Clone, Copy, Debug, PartialEq, Eq, Structural)]
pub enum GetOutputTranslation {
    X,
    Y,
    Angle,
}

/// A parameter as an input or output names it.
#[derive(Clone, Debug)]
pub struct CubismPhysicsParameter {
    pub id: String,
    pub target_type: CubismPhysicsTargetType,
}

/// A range with its resting value, onto which the range of a parameter is
/// mapped.
#[derive(Clone, Copy, Debug, PartialEq, Eq, Structural)]
pub struct CubismPhysicsNormalization {
    pub minimum: Scalar,
    pub maximum: Scalar,
    pub default: Scalar,
}

/// One point mass of a chain.
#[derive(Clone, Copy, Debug, PartialEq, Eq, Structural)]
pub struct CubismPhysicsParticle {
    /// Where the particle rests.
    pub initial_position: CubismVector2,
    /// How readily the particle keeps its speed.
    pub mobility: Scalar,
    /// How far the particle lags.
    pub delay: Scalar,
    pub acceleration: Scalar,
    /// The distance to the particle before it in the chain.
    pub radius: Scalar,
    pub position: CubismVector2,
    /// The position before the last step.
    pub last_position: CubismVector2,
    /// The direction of gravity at the last step.
    pub last_gravity: CubismVector2,
    pub force: CubismVector2,
    pub velocity: CubismVector2,
}

/// One chain of a rig: how many inputs, outputs and particles it has, where
/// they start in the rig's lists, and the ranges onto which its inputs are
/// mapped.
#[derive(Clone, Copy, Debug, PartialEq, Eq, Structural)]
pub struct CubismPhysicsSubRig {
    pub input_count: usize,
    pub output_count: usize,
    pub particle_count: usize,
    pub base_input_index: usize,
    pub base_output_index: usize,
    pub base_particle_index: usize,
    pub normalization_position: CubismPhysicsNormalization,
    pub normalization_angle: CubismPhysicsNormalization,
}

/// One input of a chain: the parameter it reads, the index of that
/// parameter once it has been looked up, and how the value counts.
#[derive(Clone, Debug)]
pub struct CubismPhysicsInput {
    pub source: CubismPhysicsParameter,
    /// The index of the parameter in the model; `None` until the first step
    /// looks it up, and kept from then on.
    pub source_parameter_index: Option<usize>,
    /// The share of the value that counts, in hundredths.
    pub weight: Scalar,
    pub input_type: CubismPhysicsSource,
    /// Whether the value counts with its sign flipped.
    pub reflect: bool,
    pub cubism_physics_input_type: CubismPhysicsInputType,
}

/// One output of a chain: the parameter it writes, the index of that
/// parameter once it has been looked up, the particle it follows, and how
/// its value is scaled and blended.
#[derive(Clone, Debug)]
pub struct CubismPhysicsOutput {
    pub destination: CubismPhysicsParameter,
    /// The index of the parameter in the model; `None` until the first step
    /// looks it up, and kept from then on.
    pub destination_parameter_index: Option<usize>,
    /// The particle, counted within the chain, whose step from the particle
    /// before it gives the value.
    pub vertex_index: usize,
    pub translation_scale: CubismVector2,
    pub angle_scale: Scalar,
    /// The share of the value in the blend, in hundredths.
    pub weight: Scalar,
    pub output_type: CubismPhysicsSource,
    /// Whether the value counts with its sign flipped.
    pub reflect: bool,
    /// The value furthest below the parameter's range that the output has
    /// produced.
    pub value_below_minimum: Scalar,
    /// The value furthest above the parameter's range that the output has
    /// produced.
    pub value_exceeded_maximum: Scalar,
    pub get_value: GetOutputTranslation,
    pub get_scale: GetOutputScaleTranslationType,
}

/// A rig: its chains, and the inputs, outputs and particles of all chains
/// in one list each.
#[derive(Clone, Debug)]
pub struct CubismPhysicsRig {
    /// The number of chains.
    pub sub_rig_count: usize,
    pub settings: Vec<CubismPhysicsSubRig>,
    pub inputs: Vec<CubismPhysicsInput>,
    pub outputs: Vec<CubismPhysicsOutput>,
    pub particles: Vec<CubismPhysicsParticle>,
    pub gravity: CubismVector2,
    pub wind: CubismVector2,
    /// The rate of the simulation in steps per second, where it is fixed.
    pub fps: Option<Scalar>,
}

/// A physics simulation: a rig and the state of its run.
#[derive(Clone, Debug)]
pub struct Physics {
    /// The output values of the last step, by chain and output.
    pub current_rig_outputs: Vec<Vec<Scalar>>,
    /// The output values of the step before the last.
    pub previous_rig_outputs: Vec<Vec<Scalar>>,
    /// The time that the simulation has been given and has not yet stepped
    /// through.
    pub current_remain_time: Scalar,
    /// The parameter values that the chains read and write during a step.
    pub parameter_cache: Vec<Scalar>,
    /// The parameter values that the last step took as its input.
    pub parameter_input_cache: Vec<Scalar>,
    pub physics_rig: CubismPhysicsRig,
}

} // verus!
