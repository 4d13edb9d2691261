//! The frame data model: pixels, rasters, frames and the processing
//! configuration.
//!
//! A raster is a width x height grid of three-channel 8-bit samples,
//! stored row-major. Its dimensions are fixed at construction and every
//! operation states exactly which pixels it touches.

use vstd::prelude::*;

verus! {

/// One three-channel (red, green, blue) 8-bit sample.
#[derive(Clone, Copy, Debug, PartialEq, Eq, Structural)]
pub struct Rgb {
    pub r: u8,
    pub g: u8,
    pub b: u8,
}

/// The all-zero sample: the "no motion" colour of the engine's output.
pub open spec fn black() -> Rgb {
    Rgb { r: 0, g: 0, b: 0 }
}

/// A raster image: a non-empty 2D grid of `Rgb` samples, row-major.
pub struct Raster {
    width: u32,
    height: u32,
    pixels: Vec<Rgb>,
}

/// In a row-major grid of `w`-pixel rows, every coordinate pair maps to
/// an index below the grid's area.
pub proof fn lemma_flat_index(w: int, h: int, x: int, y: int)
    by (nonlinear_arith)
    requires
        0 <= x < w,
        0 <= y < h,
    ensures
        0 <= y * w + x,
        y * w + x < w * h,
{
}

/// Row-major indices respect the row-then-column order of coordinates,
/// so distinct coordinates get distinct indices.
pub proof fn lemma_row_major_order(w: int, x1: int, y1: int, x2: int, y2: int)
    by (nonlinear_arith)
    requires
        0 <= x1 < w,
        0 <= x2 < w,
        0 <= y1,
        0 <= y2,
        y1 < y2 || (y1 == y2 && x1 < x2),
    ensures
        y1 * w + x1 < y2 * w + x2,
{
}

impl Raster {
    pub closed spec fn spec_width(&self) -> u32 {
        self.width
    }

    pub closed spec fn spec_height(&self) -> u32 {
        self.height
    }

    /// The samples in row-major order.
    pub closed spec fn pixel_seq(&self) -> Seq<Rgb> {
        self.pixels@
    }

    /// Well-formed: non-empty dimensions and exactly one sample per cell.
    pub open spec fn wf(&self) -> bool {
        &&& 0 < self.spec_width()
        &&& 0 < self.spec_height()
        &&& self.pixel_seq().len() == (self.spec_width() as int) * (self.spec_height() as int)
    }

    /// The sample at column `x` of row `y`.
    pub open spec fn pix(&self, x: int, y: int) -> Rgb {
        self.pixel_seq()[y * (self.spec_width() as int) + x]
    }

    pub open spec fn in_bounds(&self, x: int, y: int) -> bool {
        0 <= x < self.spec_width() && 0 <= y < self.spec_height()
    }

    pub open spec fn same_dims(&self, other: &Raster) -> bool {
        self.spec_width() == other.spec_width() && self.spec_height() == other.spec_height()
    }

    /// Same dimensions and the same sample at every cell.
    pub open spec fn same_image(&self, other: &Raster) -> bool {
        self.same_dims(other) && self.pixel_seq() == other.pixel_seq()
    }

    /// A raster with every sample set to `color`.
    pub fn from_pixel(width: u32, height: u32, color: Rgb) -> (r: Raster)
        requires
            0 < width,
            0 < height,
            (width as int) * (height as int) <= usize::MAX as int,
        ensures
            r.wf(),
            r.spec_width() == width,
            r.spec_height() == height,
            forall|x: int, y: int| r.in_bounds(x, y) ==> r.pix(x, y) == color,
    {
        let n: usize = (width as usize) * (height as usize);
        let mut pixels: Vec<Rgb> = Vec::new();
        while pixels.len() < n
            invariant
                pixels@.len() <= n,
                forall|k: int| 0 <= k < pixels@.len() ==> pixels@[k] == color,
            decreases n - pixels@.len(),
        {
            pixels.push(color);
        }
        let r = Raster { width, height, pixels };
        proof {
            assert forall|x: int, y: int| r.in_bounds(x, y) implies r.pix(x, y) == color by {
                lemma_flat_index(width as int, height as int, x, y);
            }
        }
        r
    }

    /// A raster with every sample zeroed (black).
    pub fn new(width: u32, height: u32) -> (r: Raster)
        requires
            0 < width,
            0 < height,
            (width as int) * (height as int) <= usize::MAX as int,
        ensures
            r.wf(),
            r.spec_width() == width,
            r.spec_height() == height,
            forall|x: int, y: int| r.in_bounds(x, y) ==> r.pix(x, y) == black(),
    {
        Raster::from_pixel(width, height, Rgb { r: 0, g: 0, b: 0 })
    }

    /// Wraps an already-filled row-major sample buffer.
    pub fn from_raw(width: u32, height: u32, pixels: Vec<Rgb>) -> (r: Raster)
        requires
            0 < width,
            0 < height,
            pixels@.len() == (width as int) * (height as int),
        ensures
            r.wf(),
            r.spec_width() == width,
            r.spec_height() == height,
            r.pixel_seq() == pixels@,
    {
        Raster { width, height, pixels }
    }

    /// The row-major sample buffer.
    pub fn as_raw(&self) -> (v: &Vec<Rgb>)
        ensures
            v@ == self.pixel_seq(),
    {
        &self.pixels
    }

    pub fn width(&self) -> (w: u32)
        ensures
            w == self.spec_width(),
    {
        self.width
    }

    pub fn height(&self) -> (h: u32)
        ensures
            h == self.spec_height(),
    {
        self.height
    }

    pub fn get_pixel(&self, x: u32, y: u32) -> (c: Rgb)
        requires
            self.wf(),
            x < self.spec_width(),
            y < self.spec_height(),
        ensures
            c == self.pix(x as int, y as int),
    {
        let _n: usize = self.pixels.len();
        proof {
            lemma_flat_index(
                self.spec_width() as int,
                self.spec_height() as int,
                x as int,
                y as int,
            );
        }
        let idx: usize = (y as usize) * (self.width as usize) + (x as usize);
        self.pixels[idx]
    }

    /// Overwrites the sample at (`x`, `y`); every other cell is untouched.
    pub fn put_pixel(&mut self, x: u32, y: u32, color: Rgb)
        requires
            old(self).wf(),
            x < old(self).spec_width(),
            y < old(self).spec_height(),
        ensures
            final(self).wf(),
            final(self).spec_width() == old(self).spec_width(),
            final(self).spec_height() == old(self).spec_height(),
            final(self).pix(x as int, y as int) == color,
            forall|xx: int, yy: int|
                old(self).in_bounds(xx, yy) && !(xx == x as int && yy == y as int)
                    ==> final(self).pix(xx, yy) == old(self).pix(xx, yy),
    {
        let _n: usize = self.pixels.len();
        proof {
            lemma_flat_index(
                self.spec_width() as int,
                self.spec_height() as int,
                x as int,
                y as int,
            );
        }
        let idx: usize = (y as usize) * (self.width as usize) + (x as usize);
        self.pixels.set(idx, color);
        proof {
            assert forall|xx: int, yy: int|
                old(self).in_bounds(xx, yy) && !(xx == x as int && yy == y as int)
                    implies final(self).pix(xx, yy) == old(self).pix(xx, yy) by {
                lemma_flat_index(
                    old(self).spec_width() as int,
                    old(self).spec_height() as int,
                    xx,
                    yy,
                );
                if yy < y as int || (yy == y as int && xx < x as int) {
                    lemma_row_major_order(
                        old(self).spec_width() as int,
                        xx,
                        yy,
                        x as int,
                        y as int,
                    );
                } else {
                    lemma_row_major_order(
                        old(self).spec_width() as int,
                        x as int,
                        y as int,
                        xx,
                        yy,
                    );
                }
            }
        }
    }
}

impl Clone for Raster {
    /// An independent raster with the same dimensions and samples.
    fn clone(&self) -> (r: Self)
        ensures
            r.same_image(self),
    {
        let mut pixels: Vec<Rgb> = Vec::new();
        let mut k: usize = 0;
        while k < self.pixels.len()
            invariant
                k == pixels@.len(),
                k <= self.pixels@.len(),
                forall|j: int| 0 <= j < k ==> pixels@[j] == self.pixels@[j],
            decreases self.pixels@.len() - k,
        {
            pixels.push(self.pixels[k]);
            k = k + 1;
        }
        proof {
            assert(pixels@ =~= self.pixels@);
        }
        Raster { width: self.width, height: self.height, pixels }
    }
}

/// One raster together with its place in a sequence: a sequence index
/// and a caller-supplied timestamp in microseconds. The timestamp is
/// informational only; the engine copies it through unchanged.
pub struct VideoFrame {
    pub data: Raster,
    /// Presentation time in microseconds.
    pub timestamp: u64,
    pub frame_number: usize,
}

impl VideoFrame {
    pub open spec fn wf(&self) -> bool {
        self.data.wf()
    }

    pub fn new(data: Raster, frame_number: usize, timestamp: u64) -> (f: VideoFrame)
        requires
            data.wf(),
        ensures
            f.data == data,
            f.frame_number == frame_number,
            f.timestamp == timestamp,
            f.wf(),
    {
        VideoFrame { data, timestamp, frame_number }
    }

    pub fn width(&self) -> (w: u32)
        ensures
            w == self.data.spec_width(),
    {
        self.data.width()
    }

    pub fn height(&self) -> (h: u32)
        ensures
            h == self.data.spec_height(),
    {
        self.data.height()
    }

    pub fn dimensions(&self) -> (d: (u32, u32))
        ensures
            d == (self.data.spec_width(), self.data.spec_height()),
    {
        (self.data.width(), self.data.height())
    }
}

impl Clone for VideoFrame {
    /// An independent frame with the same image, index and timestamp.
    fn clone(&self) -> (f: Self)
        ensures
            f.data.same_image(&self.data),
            f.timestamp == self.timestamp,
            f.frame_number == self.frame_number,
    {
        VideoFrame {
            data: self.data.clone(),
            timestamp: self.timestamp,
            frame_number: self.frame_number,
        }
    }
}

/// Tunable parameters of the differencing engine. All fields are plain
/// values; only `threshold` affects the difference computation itself.
#[derive(Clone, Copy, Debug, PartialEq, Eq, Structural)]
pub struct ProcessingConfig {
    /// Differences whose red-channel magnitude is at or below this
    /// value are zeroed.
    pub threshold: u8,
    /// Frame-rate hint for deriving timestamps; not used by the
    /// differencing algorithm.
    pub fps: u32,
    /// Informational default; the engine's output always follows the
    /// input frame's true dimensions.
    pub output_width: u32,
    /// Informational default; see `output_width`.
    pub output_height: u32,
    /// Historical flag with no behavioural effect on the current
    /// thresholded-difference policy.
    pub noise_reduction: bool,
}

impl Default for ProcessingConfig {
    /// The canonical defaults: threshold 30, 30 frames per second,
    /// 640 x 480 output hint, noise reduction enabled.
    fn default() -> (c: Self)
        ensures
            c == (ProcessingConfig {
                threshold: 30,
                fps: 30,
                output_width: 640,
                output_height: 480,
                noise_reduction: true,
            }),
    {
        ProcessingConfig {
            threshold: 30,
            fps: 30,
            output_width: 640,
            output_height: 480,
            noise_reduction: true,
        }
    }
}

} // verus!
