//! The description of a physics rig, as it is read from a file.

use crate::scalar::Scalar;
use vstd::prelude::*;

verus! {

/// A physics rig as its description gives it.
#[derive(Clone, Debug)]
pub struct PhysicJson {
    pub version: i32,
    pub meta: Meta,
    /// The chains of the rig, one setting each.
    pub physics_settings: Vec<PhysicsSetting>,
}

/// Two coordinates.
#[derive(Clone, Copy, Debug)]
pub struct Vec2 {
    pub x: Scalar,
    pub y: Scalar,
}

/// The header of a physics description: the totals that it announces, the
/// forces, the names of the settings and the simulation rate.
#[derive(Clone, Debug)]
pub struct Meta {
    pub physics_setting_count: i32,
    pub total_input_count: i32,
    pub total_output_count: i32,
    pub vertex_count: i32,
    pub effective_forces: EffectiveForces,
    pub physics_dictionary: Vec<PhysicsDiction>,
    pub fps: Option<Scalar>,
}

/// The forces that act on every chain.
#[derive(Clone, Copy, Debug)]
pub struct EffectiveForces {
    pub gravity: Vec2,
    pub wind: Vec2,
}

/// The name of a setting.
#[derive(Clone, Debug)]
pub struct PhysicsDiction {
    pub id: String,
    pub name: String,
}

/// One chain: its inputs, its outputs, its particles and the ranges onto
/// which its inputs are mapped.
#[derive(Clone, Debug)]
pub struct PhysicsSetting {
    pub id: String,
    pub input: Vec<InputParam>,
    pub output: Vec<OutputParam>,
    pub vertices: Vec<Vertice>,
    pub normalization: Normalize,
}

/// One input of a chain: the parameter it reads, its weight in hundredths, its axis,
/// and whether its value counts with its sign flipped.
#[derive(Clone, Debug)]
pub struct InputParam {
    pub source: InputSource,
    pub weight: Scalar,
    /// One of the words `X`, `Y` and `Angle`.
    pub input_type: String,
    pub reflect: bool,
}

/// Where an input reads from.
#[derive(Clone, Debug)]
pub struct InputSource {
    pub target: String,
    pub id: String,
}

/// One output of a chain: the parameter it writes, the particle it follows, its
/// scale, its weight in hundredths, its axis, and whether its value counts with its
/// sign flipped.
#[derive(Clone, Debug)]
pub struct OutputParam {
    pub destination: OutputDestination,
    pub vertex_index: usize,
    pub scale: Scalar,
    pub weight: Scalar,
    /// One of the words `X`, `Y` and `Angle`.
    pub output_type: String,
    pub reflect: bool,
}

/// Where an output writes to.
#[derive(Clone, Debug)]
pub struct OutputDestination {
    pub target: String,
    pub id: String,
}

/// One particle of a chain.
#[derive(Clone, Copy, Debug)]
pub struct Vertice {
    pub position: Vec2,
    pub mobility: Scalar,
    pub delay: Scalar,
    pub acceleration: Scalar,
    pub radius: Scalar,
}

/// The ranges onto which the inputs of a chain are mapped.
#[derive(Clone, Copy, Debug)]
pub struct Normalize {
    pub position: NormalizePosition,
    pub angle: NormalizeAngle,
}

/// The range onto which positions are mapped.
#[derive(Clone, Copy, Debug)]
pub struct NormalizePosition {
    pub minimum: Scalar,
    pub default: Scalar,
    pub maximum: Scalar,
}

/// The range onto which angles are mapped.
#[derive(Clone, Copy, Debug)]
pub struct NormalizeAngle {
    pub minimum: Scalar,
    pub default: Scalar,
    pub maximum: Scalar,
}

} // verus!
