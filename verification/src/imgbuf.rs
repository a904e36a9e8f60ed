//! An image buffer of 8-bit RGB pixels, row-major.

use vstd::prelude::*;

verus! {

/// An image buffer that stores the result of rendering, or the pixels of an
/// image texture: three bytes per pixel, rows from the top.
#[derive(Debug, Clone, PartialEq, Eq)]
pub struct ImageBuffer {
    /// The width of the image in pixels.
    pub width: u32,
    /// The height of the image in pixels.
    pub height: u32,
    /// The pixel bytes, `3 * width * height` of them.
    pub data: Vec<u8>,
}

/// The buffer holds exactly three bytes for each of its pixels.
pub open spec fn spec_imgbuf_wf(b: ImageBuffer) -> bool {
    b.data@.len() == b.width as int * b.height as int * 3
}

/// The position of a pixel's first byte.
pub open spec fn spec_pixel_index(b: ImageBuffer, x: u32, y: u32) -> int {
    (y as int * b.width as int + x as int) * 3
}

impl ImageBuffer {
    /// Creates a black image buffer with the given dimensions.
    pub fn new(width: u32, height: u32) -> (r: ImageBuffer)
        requires
            width as int * height as int * 3 <= usize::MAX,
        ensures
            r.width == width,
            r.height == height,
            spec_imgbuf_wf(r),
            forall|i: int| 0 <= i < r.data@.len() ==> r.data@[i] == 0u8,
    {
        proof {
            assert(width as int * height as int * 3 >= 0) by (nonlinear_arith);
        }
        let n: usize = (width as usize) * (height as usize) * 3;
        let mut data: Vec<u8> = Vec::new();
        let mut i: usize = 0;
        while i < n
            invariant
                i <= n,
                data@.len() == i,
                forall|j: int| 0 <= j < i ==> data@[j] == 0u8,
            decreases n - i,
        {
            data.push(0);
            i = i + 1;
        }
        ImageBuffer { width, height, data }
    }

    /// Creates a new image buffer with the given dimensions and pixel bytes,
    /// which must match: three bytes per pixel.
    pub fn with_data(width: u32, height: u32, data: Vec<u8>) -> (r: ImageBuffer)
        requires
            data@.len() == width as int * height as int * 3,
        ensures
            r.width == width,
            r.height == height,
            r.data == data,
            spec_imgbuf_wf(r),
    {
        ImageBuffer { width, height, data }
    }

    /// The three bytes of the pixel at `(x, y)`.
    pub fn pixel(&self, x: u32, y: u32) -> (p: (u8, u8, u8))
        requires
            spec_imgbuf_wf(*self),
            x < self.width,
            y < self.height,
        ensures
            p.0 == self.data@[spec_pixel_index(*self, x, y)],
            p.1 == self.data@[spec_pixel_index(*self, x, y) + 1],
            p.2 == self.data@[spec_pixel_index(*self, x, y) + 2],
    {
        proof {
            lemma_pixel_index_in_range(*self, x, y);
        }
        let n: usize = self.data.len();
        let idx: usize = ((y as usize) * (self.width as usize) + (x as usize)) * 3;
        proof {
            assert(idx + 3 <= n);
        }
        (self.data[idx], self.data[idx + 1], self.data[idx + 2])
    }

    /// Overwrites the three bytes of the pixel at `(x, y)`.
    pub fn set_pixel(&mut self, x: u32, y: u32, p: (u8, u8, u8))
        requires
            spec_imgbuf_wf(*old(self)),
            x < old(self).width,
            y < old(self).height,
        ensures
            final(self).width == old(self).width,
            final(self).height == old(self).height,
            spec_imgbuf_wf(*final(self)),
            final(self).data@ == old(self).data@
                .update(spec_pixel_index(*old(self), x, y), p.0)
                .update(spec_pixel_index(*old(self), x, y) + 1, p.1)
                .update(spec_pixel_index(*old(self), x, y) + 2, p.2),
    {
        proof {
            lemma_pixel_index_in_range(*self, x, y);
        }
        let n: usize = self.data.len();
        let idx: usize = ((y as usize) * (self.width as usize) + (x as usize)) * 3;
        proof {
            assert(idx + 3 <= n);
        }
        self.data.set(idx, p.0);
        self.data.set(idx + 1, p.1);
        self.data.set(idx + 2, p.2);
    }
}

/// A pixel's three bytes lie inside the buffer.
proof fn lemma_pixel_index_in_range(b: ImageBuffer, x: u32, y: u32)
    requires
        spec_imgbuf_wf(b),
        x < b.width,
        y < b.height,
    ensures
        0 <= spec_pixel_index(b, x, y),
        spec_pixel_index(b, x, y) + 3 <= b.data@.len(),
        0 <= y as int * b.width as int,
        y as int * b.width as int + x as int <= b.data@.len(),
{
    let w = b.width as int;
    let h = b.height as int;
    let xi = x as int;
    let yi = y as int;
    assert(0 <= yi * w && 0 <= (yi * w + xi) * 3 && (yi * w + xi) * 3 + 3 <= w * h * 3
        && yi * w + xi <= w * h * 3) by (nonlinear_arith)
        requires
            0 <= xi < w,
            0 <= yi < h,
    ;
}

} // verus!
