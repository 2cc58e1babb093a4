//! The flags of a drawable that never change.

use vstd::prelude::*;

verus! {

/// The flag of a drawable that is drawn by adding its colours.
pub const BLEND_ADDITIVE: u8 = 1;

/// The flag of a drawable that is drawn by multiplying its colours.
pub const BLEND_MULTIPLICATIVE: u8 = 2;

/// The flag of a drawable that is drawn from both sides.
pub const IS_DOUBLE_SIDED: u8 = 4;

/// The flag of a drawable whose mask is inverted.
pub const IS_INVERTED_MASK: u8 = 8;

/// Whether the binary digit of the given weight, a power of two, is set in
/// `flags`.
pub open spec fn digit_is_set(flags: u8, weight: u8) -> bool {
    (flags / weight) % 2 == 1
}

/// The flags of a drawable that never change.
#[derive(Clone, Copy, Debug, PartialEq, Eq, Structural)]
pub struct Live2DConstantFlag(pub u8);

impl Live2DConstantFlag {
    /// Whether the drawable is drawn by adding its colours.
    #[inline]
    pub fn is_csm_blend_additive(&self) -> (r: bool)
        ensures
            r == digit_is_set(self.0, BLEND_ADDITIVE),
    {
        let flags = self.0;
        assert((flags & 1 == 1) == ((flags / 1) % 2 == 1)) by (bit_vector);
        flags & BLEND_ADDITIVE == BLEND_ADDITIVE
    }

    /// Whether the drawable is drawn by multiplying its colours.
    #[inline]
    pub fn is_csm_blend_multiplicative(&self) -> (r: bool)
        ensures
            r == digit_is_set(self.0, BLEND_MULTIPLICATIVE),
    {
        let flags = self.0;
        assert((flags & 2 == 2) == ((flags / 2) % 2 == 1)) by (bit_vector);
        flags & BLEND_MULTIPLICATIVE == BLEND_MULTIPLICATIVE
    }

    /// Whether the drawable is drawn from both sides, without culling.
    #[inline]
    pub fn is_csm_is_double_sided(&self) -> (r: bool)
        ensures
            r == digit_is_set(self.0, IS_DOUBLE_SIDED),
    {
        let flags = self.0;
        assert((flags & 4 == 4) == ((flags / 4) % 2 == 1)) by (bit_vector);
        flags & IS_DOUBLE_SIDED == IS_DOUBLE_SIDED
    }

    /// Whether the mask of the drawable is inverted.
    #[inline]
    pub fn is_csm_is_inverted_mask(&self) -> (r: bool)
        ensures
            r == digit_is_set(self.0, IS_INVERTED_MASK),
    {
        let flags = self.0;
        assert((flags & 8 == 8) == ((flags / 8) % 2 == 1)) by (bit_vector);
        flags & IS_INVERTED_MASK == IS_INVERTED_MASK
    }
}

} // verus!
