//! The emissive material.

use vstd::prelude::*;
use crate::ray::Intersection;
use crate::resources::{Resources, TextureId};
use crate::texture::{spec_texture_color, spec_texture_wf};
use crate::vector::Color;

verus! {

/// A material that emits light and never scatters.
#[derive(Debug, Clone, Copy, PartialEq, Eq, Structural)]
pub struct DiffuseLightMaterial {
    /// The texture of the material.
    pub texture: TextureId,
}

/// The texture id points into the texture collection at a well-formed
/// texture.
pub open spec fn spec_diffuse_light_wf(m: DiffuseLightMaterial, res: Resources) -> bool {
    0 <= m.texture@ < res.textures@.len() && spec_texture_wf(res.textures@[m.texture@])
}

impl DiffuseLightMaterial {
    /// Create a new diffuse light material with the given texture.
    pub fn new(texture: TextureId) -> (m: DiffuseLightMaterial)
        ensures
            m.texture == texture,
    {
        DiffuseLightMaterial { texture }
    }

    /// Emit light: the texture sampled at the hit's coordinates.
    pub fn emit(&self, resources: &Resources, hit: &Intersection) -> (c: Color)
        requires
            spec_diffuse_light_wf(*self, *resources),
        ensures
            c == spec_texture_color(
                resources.textures@[self.texture@],
                *resources,
                hit.u,
                hit.v,
            ),
    {
        resources.texture(self.texture).color(resources, hit.u, hit.v)
    }
}

} // verus!
