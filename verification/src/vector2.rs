//! Points of a drawable.

use crate::scalar::Scalar;
use vstd::prelude::*;

verus! {

/// A point of a drawable: a position in the model, or a position in a
/// texture.
#[derive(Clone, Copy, Debug, PartialEq, Eq, Structural)]
pub struct Live2DVector2 {
    pub x: Scalar,
    pub y: Scalar,
}

impl Live2DVector2 {
    #[inline]
    pub fn x(&self) -> (r: Scalar)
        ensures
            r == self.x,
    {
        self.x
    }

    #[inline]
    pub fn y(&self) -> (r: Scalar)
        ensures
            r == self.y,
    {
        self.y
    }
}

} // verus!
