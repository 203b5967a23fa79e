//! Owned raster images: a width, a height, and a row-major flat buffer of
//! exactly `width * height` colors. Pixel access is bounds-checked and
//! returns an absent value for out-of-range coordinates.

use vstd::prelude::*;

use crate::color::SKIDColor;

verus! {

/// A pixel-count extent: width and height in pixels.
#[derive(Debug, Clone, Copy, PartialEq, Eq, Structural)]
pub struct SKIDSizeVector2 {
    pub width: usize,
    pub height: usize,
}

/// An image owning its pixel buffer. The buffer always holds exactly
/// `width * height` colors in row-major order (index `y * width + x`).
#[derive(Debug, Clone)]
pub struct SKIDImage {
    width: usize,
    height: usize,
    data: Vec<SKIDColor>,
}

/// A row-major index is inside the buffer whenever its coordinates are
/// inside the image.
pub proof fn lemma_row_major_index(x: int, y: int, w: int, h: int)
    requires
        0 <= x < w,
        0 <= y < h,
    ensures
        0 <= y * w + x < w * h,
{
    assert(0 <= y * w + x < w * h) by (nonlinear_arith)
        requires
            0 <= x < w,
            0 <= y < h,
    ;
}

/// A cell in a finished row sits below the rows written so far.
pub proof fn lemma_row_index_lt(py: int, px: int, y: int, nw: int)
    requires
        0 <= py < y,
        0 <= px < nw,
    ensures
        0 <= py * nw + px < y * nw,
{
    assert(0 <= py * nw + px < y * nw) by (nonlinear_arith)
        requires
            0 <= py < y,
            0 <= px < nw,
    ;
}

/// One more finished row extends the written prefix by exactly one row.
pub proof fn lemma_row_step(y: int, nw: int)
    ensures
        (y + 1) * nw == y * nw + nw,
{
    assert((y + 1) * nw == y * nw + nw) by (nonlinear_arith);
}

impl SKIDImage {
    /// The image's width in pixels.
    pub closed spec fn spec_width(self) -> usize {
        self.width
    }

    /// The image's height in pixels.
    pub closed spec fn spec_height(self) -> usize {
        self.height
    }

    /// The flat row-major pixel buffer.
    pub closed spec fn pixels(self) -> Seq<SKIDColor> {
        self.data@
    }

    /// Well-formedness: the buffer length always equals `width * height`.
    pub open spec fn wf(self) -> bool {
        self.pixels().len() == self.spec_width() * self.spec_height()
    }

    /// The pixel at `(x, y)`, row-major.
    pub open spec fn pixel_at(self, x: int, y: int) -> SKIDColor {
        self.pixels()[y * self.spec_width() + x]
    }

    /// Whether `(x, y)` lies inside the image.
    pub open spec fn in_bounds(self, x: int, y: int) -> bool {
        0 <= x < self.spec_width() && 0 <= y < self.spec_height()
    }

    /// Builds an image of the given extent with every pixel set to `color`.
    pub fn new_with_color(width: usize, height: usize, color: SKIDColor) -> (img: SKIDImage)
        requires
            width * height <= usize::MAX,
        ensures
            img.wf(),
            img.spec_width() == width,
            img.spec_height() == height,
            forall|x: int, y: int| img.in_bounds(x, y) ==> img.pixel_at(x, y) == color,
    {
        proof {
            assert(width * height <= usize::MAX) by (nonlinear_arith)
                requires
                    width * height <= usize::MAX,
            ;
        }
        let n: usize = width * height;
        let mut data: Vec<SKIDColor> = Vec::new();
        let mut i: usize = 0;
        while i < n
            invariant
                i <= n,
                data@.len() == i,
                forall|k: int| 0 <= k < i ==> data@[k] == color,
            decreases n - i,
        {
            data.push(color);
            i = i + 1;
        }
        let img = SKIDImage { width, height, data };
        proof {
            assert forall|x: int, y: int| img.in_bounds(x, y) implies img.pixel_at(x, y)
                == color by {
                lemma_row_major_index(x, y, width as int, height as int);
            }
        }
        img
    }

    /// Builds an image of the given extent with every pixel fully
    /// transparent black.
    pub fn new(width: usize, height: usize) -> (img: SKIDImage)
        requires
            width * height <= usize::MAX,
        ensures
            img.wf(),
            img.spec_width() == width,
            img.spec_height() == height,
            forall|x: int, y: int| img.in_bounds(x, y) ==> img.pixel_at(x, y) == (SKIDColor {
                r: 0,
                g: 0,
                b: 0,
                a: 0,
            }),
    {
        SKIDImage::new_with_color(width, height, SKIDColor::new(0, 0, 0, 0))
    }

    /// Adopts an existing row-major buffer. The buffer length must match the
    /// declared extent: a mismatch is a broken caller contract, so it is
    /// excluded up front rather than detected late.
    pub fn from_data(width: usize, height: usize, data: Vec<SKIDColor>) -> (img: SKIDImage)
        requires
            data@.len() == width * height,
        ensures
            img.wf(),
            img.spec_width() == width,
            img.spec_height() == height,
            img.pixels() == data@,
    {
        SKIDImage { width, height, data }
    }

    /// `from_data` with the extent given as one value.
    pub fn from_1d_data(size: SKIDSizeVector2, data: Vec<SKIDColor>) -> (img: SKIDImage)
        requires
            data@.len() == size.width * size.height,
        ensures
            img.wf(),
            img.spec_width() == size.width,
            img.spec_height() == size.height,
            img.pixels() == data@,
    {
        SKIDImage { width: size.width, height: size.height, data }
    }

    /// The image's width in pixels.
    pub fn width(&self) -> (w: usize)
        ensures
            w == self.spec_width(),
    {
        self.width
    }

    /// The image's height in pixels.
    pub fn height(&self) -> (h: usize)
        ensures
            h == self.spec_height(),
    {
        self.height
    }

    /// The image's extent.
    pub fn get_size(&self) -> (s: SKIDSizeVector2)
        ensures
            s.width == self.spec_width(),
            s.height == self.spec_height(),
    {
        SKIDSizeVector2 { width: self.width, height: self.height }
    }

    /// The number of pixels in the buffer.
    pub fn len(&self) -> (n: usize)
        ensures
            n == self.pixels().len(),
    {
        self.data.len()
    }

    /// The pixel at `(x, y)`, or absent when the coordinates fall outside
    /// the image; out-of-range access is never a fault.
    pub fn get_pixel(&self, x: usize, y: usize) -> (p: Option<SKIDColor>)
        requires
            self.wf(),
        ensures
            self.in_bounds(x as int, y as int) ==> p == Some(self.pixel_at(x as int, y as int)),
            !self.in_bounds(x as int, y as int) ==> p is None,
    {
        if x < self.width && y < self.height {
            // Pins the buffer length inside the usize range for the
            // index arithmetic below.
            let _ = self.data.len();
            proof {
                lemma_row_major_index(x as int, y as int, self.width as int, self.height as int);
            }
            Some(self.data[y * self.width + x])
        } else {
            None
        }
    }

    /// The pixel at a flat row-major buffer index.
    pub fn pixel_flat(&self, i: usize) -> (p: SKIDColor)
        requires
            i < self.pixels().len(),
        ensures
            p == self.pixels()[i as int],
    {
        self.data[i]
    }

    /// The pixel at coordinates the caller has already validated; kernels
    /// use this once their sample coordinates are proven in bounds.
    pub fn pixel_unchecked(&self, x: usize, y: usize) -> (p: SKIDColor)
        requires
            self.wf(),
            self.in_bounds(x as int, y as int),
        ensures
            p == self.pixel_at(x as int, y as int),
    {
        // Pins the buffer length inside the usize range for the
        // index arithmetic below.
        let _ = self.data.len();
        proof {
            lemma_row_major_index(x as int, y as int, self.width as int, self.height as int);
        }
        self.data[y * self.width + x]
    }

    /// Overwrites the pixel at `(x, y)`; reports absence (and changes
    /// nothing) when the coordinates fall outside the image.
    pub fn set_pixel(&mut self, x: usize, y: usize, color: SKIDColor) -> (res: Option<()>)
        requires
            old(self).wf(),
        ensures
            final(self).wf(),
            final(self).spec_width() == old(self).spec_width(),
            final(self).spec_height() == old(self).spec_height(),
            old(self).in_bounds(x as int, y as int) ==> res == Some(()) && final(self).pixels()
                == old(self).pixels().update(y * old(self).spec_width() + x, color),
            !old(self).in_bounds(x as int, y as int) ==> res is None && *final(self) == *old(self),
    {
        if x < self.width && y < self.height {
            // Pins the buffer length inside the usize range for the
            // index arithmetic below.
            let _ = self.data.len();
            proof {
                lemma_row_major_index(x as int, y as int, self.width as int, self.height as int);
            }
            let idx: usize = y * self.width + x;
            self.data.set(idx, color);
            Some(())
        } else {
            None
        }
    }

    /// Sets every pixel to `color`; the extent is unchanged.
    pub fn fill(&mut self, color: SKIDColor)
        requires
            old(self).wf(),
        ensures
            final(self).wf(),
            final(self).spec_width() == old(self).spec_width(),
            final(self).spec_height() == old(self).spec_height(),
            forall|x: int, y: int| final(self).in_bounds(x, y) ==> final(self).pixel_at(x, y)
                == color,
    {
        let n: usize = self.data.len();
        let mut i: usize = 0;
        while i < n
            invariant
                i <= n,
                n == self.data@.len(),
                self.width == old(self).spec_width(),
                self.height == old(self).spec_height(),
                self.data@.len() == old(self).pixels().len(),
                forall|k: int| 0 <= k < i ==> self.data@[k] == color,
            decreases n - i,
        {
            self.data.set(i, color);
            i = i + 1;
        }
        proof {
            assert forall|x: int, y: int| self.in_bounds(x, y) implies self.pixel_at(x, y)
                == color by {
                lemma_row_major_index(x, y, self.spec_width() as int, self.spec_height() as int);
            }
        }
    }

    /// Hands the pixel buffer back as a flat row-major vector.
    pub fn get_1d_data(&self) -> (data: Vec<SKIDColor>)
        ensures
            data@ == self.pixels(),
    {
        self.data.clone()
    }
}

} // verus!
