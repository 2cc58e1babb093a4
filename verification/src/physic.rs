//! Jiggle physics: chains of particles that follow the parameters of a
//! model and write what they do back to it.

pub mod evaluate;
pub mod normalize;
pub mod output;
pub mod particles;
pub mod rig;
pub mod types;
pub mod vector;

pub use crate::physic::types::Physics;
