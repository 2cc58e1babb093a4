//! The description of a motion, as it is read from a file.

use crate::scalar::Scalar;
use vstd::prelude::*;

verus! {

/// A motion as its description gives it: the header and the curves.
#[derive(Clone, Debug)]
pub struct MotionJson {
    pub version: i32,
    pub meta: Meta,
    pub curves: Vec<Curve>,
}

/// The header of a motion description.
#[derive(Clone, Copy, Debug)]
pub struct Meta {
    /// The length of the motion in seconds.
    pub duration: Scalar,
    pub fps: Scalar,
    /// Whether the motion starts over when it has ended.
    pub is_loop: bool,
    pub are_beziers_restricted: bool,
    pub curve_count: usize,
    pub total_segment_count: i32,
    pub total_point_count: i32,
    pub user_data_count: i32,
    pub total_user_data_size: i32,
}

/// One curve of a motion description: what it drives, the identifier of the
/// parameter or part, and the stream of its segments.
#[derive(Clone, Debug)]
pub struct Curve {
    pub target: String,
    pub id: String,
    pub segments: Vec<Scalar>,
}

} // verus!
