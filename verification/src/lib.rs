//! Motion playback and jiggle physics for a rig of named parameters.
//!
//! A motion is a set of curves, each a chain of segments in time; playing it
//! writes the value of every curve to the model. The physics moves chains of
//! particles by what the model's parameters say and writes the outcome back
//! to the model.
//!
//! The library holds every number as the bit pattern of a single-precision
//! number (`scalar`). It orders such numbers and takes their signs itself,
//! and it takes all arithmetic on them from an arithmetic unit that its
//! caller hands in (`arith`). Every contract is stated for whatever that
//! unit computes.

pub mod animation;
pub mod arith;
pub mod constant_flag;
pub mod drawable;
pub mod dynamic_flag;
pub mod fault;
pub mod model;
pub mod model_resource;
pub mod motion_json;
pub mod physic;
pub mod physic_json;
pub mod scalar;
pub mod vector2;
