//! The stateful differencing engine.
//!
//! The engine holds at most one previous frame. The first `process_frame`
//! call after construction or `reset` emits an all-black frame; every
//! later call emits the thresholded per-pixel difference between the
//! retained frame and the new one, then retains a copy of the new one.

use crate::frame::ProcessingConfig;
use crate::frame::Raster;
use crate::frame::Rgb;
use crate::frame::VideoFrame;
use crate::frame::black;
use crate::frame::lemma_flat_index;
use vstd::prelude::*;

verus! {

/// |a - b|.
pub open spec fn abs_diff(a: int, b: int) -> int {
    if a >= b {
        a - b
    } else {
        b - a
    }
}

/// Channel-wise absolute difference of two samples.
pub open spec fn raw_diff_pixel(p: Rgb, q: Rgb) -> Rgb {
    Rgb {
        r: abs_diff(p.r as int, q.r as int) as u8,
        g: abs_diff(p.g as int, q.g as int) as u8,
        b: abs_diff(p.b as int, q.b as int) as u8,
    }
}

/// The engine's gate policy: the red-channel difference alone decides
/// whether a pixel passes. Above the threshold all three channel
/// differences pass together; at or below it the pixel is zeroed.
pub open spec fn thresholded_diff_pixel(p: Rgb, q: Rgb, threshold: u8) -> Rgb {
    if abs_diff(p.r as int, q.r as int) > threshold {
        raw_diff_pixel(p, q)
    } else {
        black()
    }
}

/// The per-pixel result of either difference operation: gated when a
/// threshold is given, plain channel-wise difference when none is.
pub open spec fn gated_diff_pixel(p: Rgb, q: Rgb, gate: Option<u8>) -> Rgb {
    match gate {
        Some(t) => thresholded_diff_pixel(p, q, t),
        None => raw_diff_pixel(p, q),
    }
}

/// Law (threshold gate): for two samples whose three channel
/// differences all equal `d`, the gated difference is `(d, d, d)`
/// exactly when `d` exceeds the threshold, and black otherwise.
pub proof fn lemma_threshold_gate(p: Rgb, q: Rgb, t: u8, d: int)
    requires
        abs_diff(p.r as int, q.r as int) == d,
        abs_diff(p.g as int, q.g as int) == d,
        abs_diff(p.b as int, q.b as int) == d,
    ensures
        d > t ==> thresholded_diff_pixel(p, q, t) == (Rgb { r: d as u8, g: d as u8, b: d as u8 }),
        d <= t ==> thresholded_diff_pixel(p, q, t) == black(),
{
}

fn abs_diff_u8(a: u8, b: u8) -> (d: u8)
    ensures
        d == abs_diff(a as int, b as int),
{
    if a >= b {
        a - b
    } else {
        b - a
    }
}

fn diff_pixel_exec(p: Rgb, q: Rgb, gate: Option<u8>) -> (d: Rgb)
    ensures
        d == gated_diff_pixel(p, q, gate),
{
    let dr = abs_diff_u8(p.r, q.r);
    let dg = abs_diff_u8(p.g, q.g);
    let db = abs_diff_u8(p.b, q.b);
    let pass = match gate {
        Some(t) => dr > t,
        None => true,
    };
    if pass {
        Rgb { r: dr, g: dg, b: db }
    } else {
        Rgb { r: 0, g: 0, b: 0 }
    }
}

/// The shared pixel loop of both difference operations.
fn diff_rasters(frame1: &Raster, frame2: &Raster, gate: Option<u8>) -> (out: Raster)
    requires
        frame1.wf(),
        frame2.wf(),
        frame1.same_dims(frame2),
    ensures
        out.wf(),
        out.same_dims(frame1),
        forall|x: int, y: int|
            out.in_bounds(x, y) ==> out.pix(x, y) == gated_diff_pixel(
                frame1.pix(x, y),
                frame2.pix(x, y),
                gate,
            ),
{
    let a = frame1.as_raw();
    let b = frame2.as_raw();
    let n: usize = a.len();
    let mut out_pixels: Vec<Rgb> = Vec::new();
    let mut k: usize = 0;
    while k < n
        invariant
            k <= n,
            n == a@.len(),
            a@ == frame1.pixel_seq(),
            b@ == frame2.pixel_seq(),
            frame1.wf(),
            frame2.wf(),
            frame1.same_dims(frame2),
            out_pixels@.len() == k,
            forall|j: int|
                0 <= j < k ==> out_pixels@[j] == gated_diff_pixel(a@[j], b@[j], gate),
        decreases n - k,
    {
        let d = diff_pixel_exec(a[k], b[k], gate);
        out_pixels.push(d);
        k = k + 1;
    }
    let out = Raster::from_raw(frame1.width(), frame1.height(), out_pixels);
    proof {
        assert forall|x: int, y: int| out.in_bounds(x, y) implies out.pix(x, y)
            == gated_diff_pixel(frame1.pix(x, y), frame2.pix(x, y), gate) by {
            lemma_flat_index(out.spec_width() as int, out.spec_height() as int, x, y);
        }
    }
    out
}

/// The two-state engine: empty until the first frame is processed,
/// primed from then on until `reset`.
pub struct VideoDerivativeProcessor {
    previous_frame: Option<VideoFrame>,
    config: ProcessingConfig,
    frame_counter: usize,
}

impl VideoDerivativeProcessor {
    pub closed spec fn spec_previous_frame(&self) -> Option<VideoFrame> {
        self.previous_frame
    }

    pub closed spec fn spec_config(&self) -> ProcessingConfig {
        self.config
    }

    pub closed spec fn spec_counter(&self) -> usize {
        self.frame_counter
    }

    /// No frame retained: the next call emits the black baseline.
    pub open spec fn is_empty(&self) -> bool {
        self.spec_previous_frame() is None
    }

    pub open spec fn wf(&self) -> bool {
        match self.spec_previous_frame() {
            Some(p) => p.wf(),
            None => true,
        }
    }

    /// A new frame must match the retained frame's dimensions.
    pub open spec fn accepts(&self, frame: VideoFrame) -> bool {
        match self.spec_previous_frame() {
            Some(p) => p.data.same_dims(&frame.data),
            None => true,
        }
    }

    pub fn new(config: ProcessingConfig) -> (p: Self)
        ensures
            p.wf(),
            p.is_empty(),
            p.spec_counter() == 0,
            p.spec_config() == config,
    {
        VideoDerivativeProcessor { previous_frame: None, config, frame_counter: 0 }
    }

    /// One step of the engine: emits the black baseline from the empty
    /// state, the thresholded difference against the retained frame
    /// otherwise; then retains a copy of the input and advances the
    /// output counter.
    pub fn process_frame(&mut self, frame: &VideoFrame) -> (out: VideoFrame)
        requires
            old(self).wf(),
            frame.wf(),
            old(self).accepts(*frame),
            old(self).spec_counter() < usize::MAX,
        ensures
            final(self).wf(),
            out.wf(),
            out.data.same_dims(&frame.data),
            out.frame_number == old(self).spec_counter(),
            out.timestamp == frame.timestamp,
            final(self).spec_counter() == old(self).spec_counter() + 1,
            final(self).spec_config() == old(self).spec_config(),
            final(self).spec_previous_frame() matches Some(p) && p.data.same_image(&frame.data)
                && p.frame_number == frame.frame_number && p.timestamp == frame.timestamp,
            old(self).is_empty() ==> forall|x: int, y: int|
                out.data.in_bounds(x, y) ==> out.data.pix(x, y) == black(),
            old(self).spec_previous_frame() matches Some(prev) ==> forall|x: int, y: int|
                out.data.in_bounds(x, y) ==> out.data.pix(x, y) == thresholded_diff_pixel(
                    prev.data.pix(x, y),
                    frame.data.pix(x, y),
                    old(self).spec_config().threshold,
                ),
    {
        let derivative_data = match &self.previous_frame {
            Some(prev_frame) => self.compute_thresholded_difference(&prev_frame.data, &frame.data),
            None => {
                let _n: usize = frame.data.as_raw().len();
                Raster::new(frame.data.width(), frame.data.height())
            },
        };
        let derivative_frame = VideoFrame::new(derivative_data, self.frame_counter, frame.timestamp);
        self.previous_frame = Some(frame.clone());
        self.frame_counter = self.frame_counter + 1;
        derivative_frame
    }

    /// Channel-wise absolute difference without the threshold gate.
    pub fn compute_frame_difference(&self, frame1: &Raster, frame2: &Raster) -> (out: Raster)
        requires
            frame1.wf(),
            frame2.wf(),
            frame1.same_dims(frame2),
        ensures
            out.wf(),
            out.same_dims(frame1),
            forall|x: int, y: int|
                out.in_bounds(x, y) ==> out.pix(x, y) == raw_diff_pixel(
                    frame1.pix(x, y),
                    frame2.pix(x, y),
                ),
    {
        diff_rasters(frame1, frame2, None)
    }

    /// The gated difference used by `process_frame`, at the active
    /// configuration's threshold.
    fn compute_thresholded_difference(&self, frame1: &Raster, frame2: &Raster) -> (out: Raster)
        requires
            frame1.wf(),
            frame2.wf(),
            frame1.same_dims(frame2),
        ensures
            out.wf(),
            out.same_dims(frame1),
            forall|x: int, y: int|
                out.in_bounds(x, y) ==> out.pix(x, y) == thresholded_diff_pixel(
                    frame1.pix(x, y),
                    frame2.pix(x, y),
                    self.spec_config().threshold,
                ),
    {
        diff_rasters(frame1, frame2, Some(self.config.threshold))
    }

    /// Back to the empty state: the retained frame is dropped and the
    /// output counter starts over. On an already-empty engine with a
    /// zero counter this changes nothing.
    pub fn reset(&mut self)
        ensures
            final(self).wf(),
            final(self).is_empty(),
            final(self).spec_counter() == 0,
            final(self).spec_config() == old(self).spec_config(),
            old(self).is_empty() && old(self).spec_counter() == 0 ==> *final(self) == *old(self),
    {
        self.previous_frame = None;
        self.frame_counter = 0;
    }

    pub fn get_config(&self) -> (c: &ProcessingConfig)
        ensures
            *c == self.spec_config(),
    {
        &self.config
    }

    /// Replaces the configuration; the retained frame and the counter
    /// are kept, so a new threshold takes effect on the very next call.
    pub fn update_config(&mut self, config: ProcessingConfig)
        ensures
            final(self).spec_config() == config,
            final(self).spec_previous_frame() == old(self).spec_previous_frame(),
            final(self).spec_counter() == old(self).spec_counter(),
            final(self).wf() == old(self).wf(),
    {
        self.config = config;
    }
}

} // verus!
