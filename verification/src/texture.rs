//! The texture capability: a closed set of variants that turn a texture
//! coordinate into a color.

use vstd::prelude::*;
use crate::resources::Resources;
use crate::textures::image::{spec_image_color, ImageTexture};
use crate::textures::solid::SolidTexture;
use crate::imgbuf::spec_imgbuf_wf;
use crate::vector::Color;

verus! {

/// A texture that can be used by materials in a scene.
#[derive(Debug, Clone, PartialEq, Eq)]
pub enum Texture {
    /// A solid color.
    Solid(SolidTexture),
    /// An image sampled by truncation.
    Image(ImageTexture),
}

/// Whether a texture's stored data is well formed: an image texture must
/// hold three bytes per pixel.
pub open spec fn spec_texture_wf(t: Texture) -> bool {
    match t {
        Texture::Solid(_) => true,
        Texture::Image(i) => spec_imgbuf_wf(i.image),
    }
}

/// The color of a texture at a coordinate, by variant. The resource
/// collection is passed through for variants that refer to other resources;
/// none of the present variants does.
pub open spec fn spec_texture_color(t: Texture, res: Resources, u: i64, v: i64) -> Color {
    match t {
        Texture::Solid(s) => s.color,
        Texture::Image(i) => spec_image_color(i, u, v),
    }
}

/// Whether a texture can only ever produce non-negative colors: image
/// samples always can; a solid texture must store one.
pub open spec fn spec_texture_nonneg(t: Texture) -> bool {
    match t {
        Texture::Solid(s) => crate::vector::spec_color_nonneg(s.color),
        Texture::Image(_) => true,
    }
}

/// A non-negative texture samples a non-negative color at any coordinate.
pub proof fn lemma_texture_color_nonneg(t: Texture, res: Resources, u: i64, v: i64)
    requires
        spec_texture_nonneg(t),
    ensures
        crate::vector::spec_color_nonneg(spec_texture_color(t, res, u, v)),
{
    match t {
        Texture::Solid(_) => {},
        Texture::Image(i) => {
            let c = spec_image_color(i, u, v);
            if !(i.image.width == 0 || i.image.height == 0) {
                let xi = crate::textures::image::spec_texel(i.image.width, u);
                let yi = crate::textures::image::spec_texel(i.image.height, v);
                let idx = (yi * i.image.width as int + xi) * 3;
                crate::fixed::lemma_q_from_nonneg(i.image.data@[idx] as i64);
                crate::fixed::lemma_q_from_nonneg(i.image.data@[idx + 1] as i64);
                crate::fixed::lemma_q_from_nonneg(i.image.data@[idx + 2] as i64);
                crate::fixed::lemma_q_div_nonneg(
                    crate::fixed::spec_q_from(i.image.data@[idx] as i64),
                    crate::fixed::spec_q_from(255),
                );
                crate::fixed::lemma_q_div_nonneg(
                    crate::fixed::spec_q_from(i.image.data@[idx + 1] as i64),
                    crate::fixed::spec_q_from(255),
                );
                crate::fixed::lemma_q_div_nonneg(
                    crate::fixed::spec_q_from(i.image.data@[idx + 2] as i64),
                    crate::fixed::spec_q_from(255),
                );
            }
        },
    }
}

impl Texture {
    /// Get the color of the texture at a given UV coordinate.
    pub fn color(&self, resources: &Resources, u: i64, v: i64) -> (c: Color)
        requires
            spec_texture_wf(*self),
        ensures
            c == spec_texture_color(*self, *resources, u, v),
    {
        match self {
            Texture::Solid(s) => s.color(),
            Texture::Image(i) => i.color(u, v),
        }
    }
}

} // verus!
