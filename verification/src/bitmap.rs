//! In-memory RGBA bitmaps: the decoded form of reference screenshots,
//! captured screenshots and generated diff images.

use vstd::prelude::*;

verus! {

/// One RGBA pixel, eight bits per channel.
#[derive(Clone, Copy, Debug, PartialEq, Eq, Structural)]
pub struct Pixel {
    pub r: u8,
    pub g: u8,
    pub b: u8,
    pub a: u8,
}

/// A decoded bitmap: `width * height` pixels in row-major order.
#[derive(Debug)]
pub struct Bitmap {
    pub width: u32,
    pub height: u32,
    pub pixels: Vec<Pixel>,
}

impl Bitmap {
    /// A bitmap is well formed when it holds exactly one pixel per grid cell.
    pub open spec fn wf(self) -> bool {
        self.pixels@.len() == self.width as int * self.height as int
    }

    pub open spec fn spec_width(self) -> int {
        self.width as int
    }

    pub open spec fn spec_height(self) -> int {
        self.height as int
    }

    pub open spec fn spec_pixels(self) -> Seq<Pixel> {
        self.pixels@
    }

    /// The pixel of the cell `(x, y)`, in row-major order.
    pub open spec fn pixel_at(self, x: int, y: int) -> Pixel {
        self.pixels@[y * self.width as int + x]
    }

    /// Builds a bitmap from its dimensions and row-major pixels; refuses a
    /// pixel vector whose length does not match the grid.
    pub fn new(width: u32, height: u32, pixels: Vec<Pixel>) -> (r: Option<Bitmap>)
        ensures
            r matches Some(b) ==> b.wf() && b.spec_width() == width && b.spec_height() == height
                && b.spec_pixels() == pixels@,
            (r is Some) <==> pixels@.len() == width as int * height as int,
    {
        proof {
            assert((width as int) * (height as int) <= 0xffff_ffff * 0xffff_ffff)
                by (nonlinear_arith)
                requires
                    0 <= width as int <= 0xffff_ffff,
                    0 <= height as int <= 0xffff_ffff,
            ;
        }
        let area: u64 = (width as u64) * (height as u64);
        if (pixels.len() as u64) == area {
            Some(Bitmap { width, height, pixels })
        } else {
            None
        }
    }

    pub fn width(&self) -> (r: u32)
        ensures
            r as int == self.spec_width(),
    {
        self.width
    }

    pub fn height(&self) -> (r: u32)
        ensures
            r as int == self.spec_height(),
    {
        self.height
    }

    /// Reads the pixel of the cell `(x, y)`.
    pub fn pixel(&self, x: usize, y: usize) -> (r: Pixel)
        requires
            self.wf(),
            x < self.spec_width(),
            y < self.spec_height(),
        ensures
            r == self.pixel_at(x as int, y as int),
    {
        let n: usize = self.pixels.len();
        proof {
            lemma_row_major_index_in_range(
                self.spec_width(),
                self.spec_height(),
                x as int,
                y as int,
            );
            assert((y as int) * (self.width as int) + (x as int) < (n as int));
        }
        let idx: usize = y * (self.width as usize) + x;
        self.pixels[idx]
    }
}

/// A cell of the grid indexes into the row-major pixel vector.
pub proof fn lemma_row_major_index_in_range(w: int, h: int, x: int, y: int)
    requires
        0 <= x < w,
        0 <= y < h,
    ensures
        0 <= y * w + x < w * h,
{
    assert(y * w + x < w * h) by (nonlinear_arith)
        requires
            0 <= x < w,
            0 <= y < h,
    ;
    assert(0 <= y * w) by (nonlinear_arith)
        requires
            0 <= y,
            0 <= w,
    ;
}

} // verus!
