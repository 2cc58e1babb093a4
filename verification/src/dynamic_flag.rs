//! The flags of a drawable that change as the model is updated.

use crate::constant_flag::digit_is_set;
use vstd::prelude::*;

verus! {

/// The flag of a drawable that is visible.
pub const IS_VISIBLE: u8 = 1;

/// The flag of a drawable whose visibility has changed.
pub const VISIBILITY_DID_CHANGE: u8 = 2;

/// The flag of a drawable whose opacity has changed.
pub const OPACITY_DID_CHANGE: u8 = 4;

/// The flag of a drawable whose draw order has changed.
pub const DRAW_ORDER_DID_CHANGE: u8 = 8;

/// The flag of a drawable whose vertex positions have changed.
pub const VERTEX_POSITIONS_DID_CHANGE: u8 = 32;

/// The flags of a drawable that change as the model is updated.
#[derive(Clone, Copy, Debug, PartialEq, Eq, Structural)]
pub struct Live2DDynamicFlag(pub u8);

impl Live2DDynamicFlag {
    /// Whether the drawable is visible.
    #[inline]
    pub fn is_csm_is_visible(&self) -> (r: bool)
        ensures
            r == digit_is_set(self.0, IS_VISIBLE),
    {
        let flags = self.0;
        assert((flags & 1 == 1) == ((flags / 1) % 2 == 1)) by (bit_vector);
        flags & IS_VISIBLE == IS_VISIBLE
    }

    /// Whether the visibility of the drawable has changed.
    #[inline]
    pub fn is_csm_visibility_did_change(&self) -> (r: bool)
        ensures
            r == digit_is_set(self.0, VISIBILITY_DID_CHANGE),
    {
        let flags = self.0;
        assert((flags & 2 == 2) == ((flags / 2) % 2 == 1)) by (bit_vector);
        flags & VISIBILITY_DID_CHANGE == VISIBILITY_DID_CHANGE
    }

    /// Whether the opacity of the drawable has changed.
    #[inline]
    pub fn is_csm_opacity_did_change(&self) -> (r: bool)
        ensures
            r == digit_is_set(self.0, OPACITY_DID_CHANGE),
    {
        let flags = self.0;
        assert((flags & 4 == 4) == ((flags / 4) % 2 == 1)) by (bit_vector);
        flags & OPACITY_DID_CHANGE == OPACITY_DID_CHANGE
    }

    /// Whether the draw order of the drawable has changed.
    #[inline]
    pub fn is_csm_draw_order_did_change(&self) -> (r: bool)
        ensures
            r == digit_is_set(self.0, DRAW_ORDER_DID_CHANGE),
    {
        let flags = self.0;
        assert((flags & 8 == 8) == ((flags / 8) % 2 == 1)) by (bit_vector);
        flags & DRAW_ORDER_DID_CHANGE == DRAW_ORDER_DID_CHANGE
    }

    /// Whether the vertex positions of the drawable have changed.
    #[inline]
    pub fn is_csm_vertex_positions_did_change(&self) -> (r: bool)
        ensures
            r == digit_is_set(self.0, VERTEX_POSITIONS_DID_CHANGE),
    {
        let flags = self.0;
        assert((flags & 32 == 32) == ((flags / 32) % 2 == 1)) by (bit_vector);
        flags & VERTEX_POSITIONS_DID_CHANGE == VERTEX_POSITIONS_DID_CHANGE
    }
}

} // verus!
