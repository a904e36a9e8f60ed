//! A texture that samples an image.

use vstd::prelude::*;
use crate::fixed::{spec_q_div, spec_q_from, spec_q_mul, spec_q_floor, q_div, q_from, q_mul, q_floor};
use crate::imgbuf::{spec_imgbuf_wf, spec_pixel_index, ImageBuffer};
use crate::vector::{Color, Vec3};

verus! {

/// A texture that uses an image as its source.
#[derive(Debug, Clone, PartialEq, Eq)]
pub struct ImageTexture {
    /// The image buffer of the texture.
    pub image: ImageBuffer,
}

/// The pixel column sampled for a unit coordinate: the coordinate scaled by
/// the image extent, truncated, and clamped into the valid range.
pub open spec fn spec_texel(extent: u32, c: i64) -> int {
    let i = spec_q_floor(spec_q_mul(spec_q_from(extent as i64), c)) as int;
    if i < 0 {
        0
    } else if i > extent as int - 1 {
        extent as int - 1
    } else {
        i
    }
}

/// The sampled color: the pixel at `(width * u, height * v)`, each channel
/// normalized from bytes to the unit range. An image without pixels samples
/// black.
pub open spec fn spec_image_color(t: ImageTexture, u: i64, v: i64) -> Color {
    if t.image.width == 0 || t.image.height == 0 {
        Vec3 { x: 0, y: 0, z: 0 }
    } else {
        let xi = spec_texel(t.image.width, u);
        let yi = spec_texel(t.image.height, v);
        let idx = (yi * t.image.width as int + xi) * 3;
        Vec3 {
            x: spec_q_div(spec_q_from(t.image.data@[idx] as i64), spec_q_from(255)),
            y: spec_q_div(spec_q_from(t.image.data@[idx + 1] as i64), spec_q_from(255)),
            z: spec_q_div(spec_q_from(t.image.data@[idx + 2] as i64), spec_q_from(255)),
        }
    }
}

impl ImageTexture {
    /// Create a new image texture with the given image buffer.
    pub fn new(image: ImageBuffer) -> (t: ImageTexture)
        ensures
            t.image == image,
    {
        ImageTexture { image }
    }

    /// Get the color of the texture at a given UV coordinate, by truncation
    /// to a pixel — no filtering.
    pub fn color(&self, u: i64, v: i64) -> (c: Color)
        requires
            spec_imgbuf_wf(self.image),
        ensures
            c == spec_image_color(*self, u, v),
    {
        let w = self.image.width;
        let h = self.image.height;
        if w == 0 || h == 0 {
            return Vec3::zero();
        }
        let x = Self::texel(w, u);
        let y = Self::texel(h, v);
        proof {
            assert(spec_pixel_index(self.image, x, y)
                == ((y as int) * (w as int) + (x as int)) * 3);
        }
        let p = self.image.pixel(x, y);
        Vec3 {
            x: q_div(q_from(p.0 as i64), q_from(255)),
            y: q_div(q_from(p.1 as i64), q_from(255)),
            z: q_div(q_from(p.2 as i64), q_from(255)),
        }
    }

    /// Scale a unit coordinate to a valid pixel coordinate.
    fn texel(extent: u32, c: i64) -> (i: u32)
        requires
            extent > 0,
        ensures
            i as int == spec_texel(extent, c),
            i < extent,
    {
        let raw = q_floor(q_mul(q_from(extent as i64), c));
        if raw < 0 {
            0
        } else if raw > extent as i64 - 1 {
            extent - 1
        } else {
            raw as u32
        }
    }
}

} // verus!
