//! A texture of one constant color.

use vstd::prelude::*;
use crate::vector::Color;

verus! {

/// A solid color texture: it ignores the texture coordinates.
#[derive(Debug, Clone, Copy, PartialEq, Eq, Structural)]
pub struct SolidTexture {
    /// The color of the texture.
    pub color: Color,
}

impl SolidTexture {
    /// Create a new solid color texture.
    pub fn new(color: Color) -> (t: SolidTexture)
        ensures
            t.color == color,
    {
        SolidTexture { color }
    }

    /// The color of the texture, the same at every coordinate.
    pub fn color(&self) -> (c: Color)
        ensures
            c == self.color,
    {
        self.color
    }
}

} // verus!
