//! A synthetic frame generator: deterministic, parameterized frame
//! sequences (gradient backgrounds, a moving square, a moving disc,
//! optional seeded noise) for exercising the differencing engine
//! without real video input.

use crate::frame::Raster;
use crate::frame::Rgb;
use crate::frame::VideoFrame;
use crate::frame::lemma_flat_index;
use crate::frame::lemma_row_major_order;
use crate::trig::sine_magnitude_milli;
use crate::trig::sine_milli_abs;
use vstd::arithmetic::div_mod::lemma_multiply_divide_lt;
use vstd::prelude::*;
use vstd::set_lib::lemma_len_subset;

verus! {

/// The presentation time of frame `i` at `fps` frames per second, in
/// microseconds.
pub open spec fn spec_timestamp_micros(fps: u32, i: int) -> int {
    i * 1_000_000 / (fps as int)
}

/// One cell of the two-tone positional gradient behind the moving
/// object: red rises with the column, green with the row, blue fixed.
pub open spec fn background_pix(w: u32, h: u32, x: int, y: int) -> Rgb {
    Rgb {
        r: (x * 100 / (w as int)) as u8,
        g: (y * 100 / (h as int)) as u8,
        b: 100,
    }
}

/// One cell of the two-axis linear colour gradient behind the complex
/// scene.
pub open spec fn gradient_pix(w: u32, h: u32, x: int, y: int) -> Rgb {
    Rgb {
        r: (x * 255 / (w as int)) as u8,
        g: (y * 255 / (h as int)) as u8,
        b: ((x + y) * 255 / (w as int + h as int)) as u8,
    }
}

/// Membership in an axis-aligned rectangle of size `rw` x `rh` whose
/// top-left corner is (`rx`, `ry`).
pub open spec fn in_rect(x: int, y: int, rx: int, ry: int, rw: int, rh: int) -> bool {
    rx <= x < rx + rw && ry <= y < ry + rh
}

/// Membership in the disc of radius `radius` around (`cx`, `cy`), by
/// the Euclidean squared-distance test.
pub open spec fn in_disc(x: int, y: int, cx: int, cy: int, radius: int) -> bool {
    (x - cx) * (x - cx) + (y - cy) * (y - cy) <= radius * radius
}

/// The in-bounds positions at which two rasters disagree.
pub open spec fn changed_positions(a: Raster, b: Raster) -> Set<(int, int)> {
    Set::new(|p: (int, int)| a.in_bounds(p.0, p.1) && b.pix(p.0, p.1) != a.pix(p.0, p.1))
}

/// The moving square's left column in frame `i`: it advances 8 pixels
/// per frame and wraps modulo `width - 80`, the square's size being 80.
pub open spec fn moving_rect_x(width: u32, i: int) -> int {
    (i * 8) % (width as int - 80)
}

/// The moving square's top row: a sinusoidal bob of amplitude 20 below
/// row 100, whose phase advances 3 degrees per frame.
pub open spec fn moving_rect_y(i: int) -> int {
    100 + 20 * sine_milli_abs((i * 3) % 360) / 1000
}

/// One cell of the noiseless moving-object scene: the white square
/// over the positional gradient.
pub open spec fn moving_object_pix(w: u32, h: u32, i: int, x: int, y: int) -> Rgb {
    if in_rect(x, y, moving_rect_x(w, i), moving_rect_y(i), 80, 80) {
        Rgb { r: 255, g: 255, b: 255 }
    } else {
        background_pix(w, h, x, y)
    }
}

/// The in-bounds positions at which a raster deviates from the
/// noiseless moving-object scene of frame `i`.
pub open spec fn moving_scene_deviation(w: u32, h: u32, i: int, r: Raster) -> Set<(int, int)> {
    Set::new(
        |p: (int, int)|
            r.in_bounds(p.0, p.1) && r.pix(p.0, p.1) != moving_object_pix(w, h, i, p.0, p.1),
    )
}

/// The complex scene's red square: 5 pixels per frame rightward,
/// wrapping modulo `width - 50`; bob of amplitude 15 below row 50,
/// phase advancing 6 degrees per frame.
pub open spec fn complex_rect_x(width: u32, i: int) -> int {
    (i * 5) % (width as int - 50)
}

pub open spec fn complex_rect_y(i: int) -> int {
    50 + 15 * sine_milli_abs((i * 6) % 360) / 1000
}

/// The complex scene's green disc: 3 pixels per frame leftward from
/// the right edge, wrapping modulo `width - 60`; a cosine bob (a
/// quarter turn ahead of the sine) of amplitude 10 below row 150,
/// phase advancing 11 degrees per frame.
pub open spec fn complex_disc_x(width: u32, i: int) -> int {
    (width as int - 60) - (i * 3) % (width as int - 60)
}

pub open spec fn complex_disc_y(i: int) -> int {
    150 + 10 * sine_milli_abs((i * 11 + 90) % 360) / 1000
}

/// One cell of the complex scene: the green disc over the red square
/// over the two-axis gradient.
pub open spec fn complex_scene_pix(w: u32, h: u32, i: int, x: int, y: int) -> Rgb {
    if in_disc(x, y, complex_disc_x(w, i), complex_disc_y(i), 25) {
        Rgb { r: 0, g: 255, b: 0 }
    } else if in_rect(x, y, complex_rect_x(w, i), complex_rect_y(i), 50, 50) {
        Rgb { r: 255, g: 0, b: 0 }
    } else {
        gradient_pix(w, h, x, y)
    }
}

/// Law (generator determinism): the complex scene and its timestamps
/// are functions of the generator's parameters alone, so two
/// generators configured alike yield pixel-for-pixel identical
/// sequences.
pub proof fn lemma_complex_scene_deterministic(
    g1: FrameGenerator,
    g2: FrameGenerator,
    i: int,
    x: int,
    y: int,
)
    requires
        g1.spec_width() == g2.spec_width(),
        g1.spec_height() == g2.spec_height(),
        g1.spec_fps() == g2.spec_fps(),
    ensures
        complex_scene_pix(g1.spec_width(), g1.spec_height(), i, x, y) == complex_scene_pix(
            g2.spec_width(),
            g2.spec_height(),
            i,
            x,
            y,
        ),
        spec_timestamp_micros(g1.spec_fps(), i) == spec_timestamp_micros(g2.spec_fps(), i),
{
}

/// `rand`'s standard generator; it drives the optional noise pixels.
#[verifier::external_type_specification]
#[verifier::external_body]
pub struct ExStdRng(rand::rngs::StdRng);

/// Relies on rand's `SeedableRng::seed_from_u64` for `StdRng`: builds
/// the standard generator from a 64-bit seed.
#[verifier::external_body]
fn rng_from_seed(seed: u64) -> rand::rngs::StdRng {
    <rand::rngs::StdRng as rand::SeedableRng>::seed_from_u64(seed)
}

/// Relies on rand's `Rng::gen_range`: a sample from the non-empty
/// range `0..bound` lies below `bound` (and the call cannot panic on a
/// non-empty range).
#[verifier::external_body]
fn rng_below(rng: &mut rand::rngs::StdRng, bound: u32) -> (r: u32)
    requires
        bound > 0,
    ensures
        r < bound,
{
    rand::Rng::gen_range(rng, 0..bound)
}

/// A square inside a disc's bounding box: any point of the disc lies
/// within `radius` of the centre on each axis.
proof fn lemma_disc_within_box(a: int, b: int, r: int)
    by (nonlinear_arith)
    requires
        0 <= r,
        a * a + b * b <= r * r,
    ensures
        -r <= a <= r,
        -r <= b <= r,
{
}

/// Squares of numbers within a bound are within the bound's square.
proof fn lemma_square_within(a: int, m: int)
    by (nonlinear_arith)
    requires
        -m <= a <= m,
    ensures
        0 <= a * a <= m * m,
{
}

/// `v * scale / bound` for `v` below `bound`: a linear ramp that stays
/// below `scale`, so it fits one 8-bit channel.
fn ramp(v: u64, scale: u64, bound: u64) -> (r: u8)
    requires
        v < bound,
        0 < scale <= 255,
    ensures
        r as int == (v as int) * (scale as int) / (bound as int),
{
    proof {
        assert((v as int) * (scale as int) < (bound as int) * (scale as int)) by (nonlinear_arith)
            requires
                0 <= v < bound,
                0 < scale,
        ;
        lemma_multiply_divide_lt((v as int) * (scale as int), bound as int, scale as int);
        assert((v as int) * (scale as int) <= u128::MAX as int) by (nonlinear_arith)
            requires
                0 <= v <= u64::MAX,
                0 <= scale <= 255,
        ;
    }
    let q: u128 = (v as u128) * (scale as u128) / (bound as u128);
    q as u8
}

/// The generator's parameters: frame dimensions, the frame rate used
/// only to derive timestamps, and the seed of the noise source.
pub struct FrameGenerator {
    width: u32,
    height: u32,
    fps: u32,
    seed: u64,
}

impl FrameGenerator {
    pub closed spec fn spec_width(&self) -> u32 {
        self.width
    }

    pub closed spec fn spec_height(&self) -> u32 {
        self.height
    }

    pub closed spec fn spec_fps(&self) -> u32 {
        self.fps
    }

    pub closed spec fn spec_seed(&self) -> u64 {
        self.seed
    }

    pub open spec fn wf(&self) -> bool {
        0 < self.spec_width() && 0 < self.spec_height() && 0 < self.spec_fps()
    }

    /// A generator with the default noise seed.
    pub fn new(width: u32, height: u32, fps: u32) -> (g: Self)
        ensures
            g.spec_width() == width,
            g.spec_height() == height,
            g.spec_fps() == fps,
            g.spec_seed() == 0,
    {
        FrameGenerator { width, height, fps, seed: 0 }
    }

    /// A generator whose noise source is seeded explicitly, so that
    /// generated sequences are reproducible.
    pub fn with_seed(width: u32, height: u32, fps: u32, seed: u64) -> (g: Self)
        ensures
            g.spec_width() == width,
            g.spec_height() == height,
            g.spec_fps() == fps,
            g.spec_seed() == seed,
    {
        FrameGenerator { width, height, fps, seed }
    }

    /// `count` frames of a white square sliding over the positional
    /// gradient with a sinusoidal bob; every 4th frame additionally
    /// receives up to 15 seeded single-pixel perturbations.
    pub fn generate_moving_object_frames(&self, num_frames: usize) -> (frames: Vec<VideoFrame>)
        requires
            self.wf(),
            self.spec_width() > 80,
            (self.spec_width() as int) * (self.spec_height() as int) <= usize::MAX as int,
            num_frames as int * 1_000_000 <= u64::MAX as int,
        ensures
            frames@.len() == num_frames,
            forall|i: int|
                0 <= i < num_frames ==> {
                    &&& (#[trigger] frames@[i]).wf()
                    &&& frames@[i].frame_number == i
                    &&& frames@[i].timestamp as int == spec_timestamp_micros(self.spec_fps(), i)
                    &&& frames@[i].data.spec_width() == self.spec_width()
                    &&& frames@[i].data.spec_height() == self.spec_height()
                },
            forall|i: int|
                0 <= i < num_frames && i % 4 != 0 ==> forall|x: int, y: int|
                    (#[trigger] frames@[i]).data.in_bounds(x, y) ==> frames@[i].data.pix(x, y)
                        == moving_object_pix(self.spec_width(), self.spec_height(), i, x, y),
            forall|i: int|
                0 <= i < num_frames && i % 4 == 0 ==> {
                    &&& moving_scene_deviation(
                        self.spec_width(),
                        self.spec_height(),
                        i,
                        (#[trigger] frames@[i]).data,
                    ).finite()
                    &&& moving_scene_deviation(
                        self.spec_width(),
                        self.spec_height(),
                        i,
                        frames@[i].data,
                    ).len() <= 15
                },
    {
        let mut frames: Vec<VideoFrame> = Vec::new();
        let mut rng = rng_from_seed(self.seed);
        let mut i: usize = 0;
        while i < num_frames
            invariant
                i <= num_frames,
                frames@.len() == i,
                self.wf(),
                self.spec_width() > 80,
                (self.spec_width() as int) * (self.spec_height() as int) <= usize::MAX as int,
                num_frames as int * 1_000_000 <= u64::MAX as int,
                forall|j: int|
                    0 <= j < i ==> {
                        &&& (#[trigger] frames@[j]).wf()
                        &&& frames@[j].frame_number == j
                        &&& frames@[j].timestamp as int == spec_timestamp_micros(
                            self.spec_fps(),
                            j,
                        )
                        &&& frames@[j].data.spec_width() == self.spec_width()
                        &&& frames@[j].data.spec_height() == self.spec_height()
                    },
                forall|j: int|
                    0 <= j < i && j % 4 != 0 ==> forall|x: int, y: int|
                        (#[trigger] frames@[j]).data.in_bounds(x, y) ==> frames@[j].data.pix(x, y)
                            == moving_object_pix(self.spec_width(), self.spec_height(), j, x, y),
                forall|j: int|
                    0 <= j < i && j % 4 == 0 ==> {
                        &&& moving_scene_deviation(
                            self.spec_width(),
                            self.spec_height(),
                            j,
                            (#[trigger] frames@[j]).data,
                        ).finite()
                        &&& moving_scene_deviation(
                            self.spec_width(),
                            self.spec_height(),
                            j,
                            frames@[j].data,
                        ).len() <= 15
                    },
            decreases num_frames - i,
        {
            let timestamp: u64 = (i as u64) * 1_000_000 / (self.fps as u64);
            let mut raster = self.create_background();
            let ox: u32 = (((i as u64) * 8) % (((self.width - 80)) as u64)) as u32;
            let phase: u32 = (((i as u64) * 3) % 360) as u32;
            let bob: u32 = 20 * sine_magnitude_milli(phase) / 1000;
            let oy: u32 = 100 + bob;
            self.add_rectangle(&mut raster, ox, oy, 80, 80, Rgb { r: 255, g: 255, b: 255 });
            proof {
                assert(ox as int == moving_rect_x(self.spec_width(), i as int));
                assert(oy as int == moving_rect_y(i as int));
                assert forall|x: int, y: int| raster.in_bounds(x, y) implies raster.pix(x, y)
                    == moving_object_pix(self.spec_width(), self.spec_height(), i as int, x, y) by {
                }
            }
            if i % 4 == 0 {
                let ghost base = raster;
                self.add_random_noise(&mut raster, &mut rng, 15);
                proof {
                    assert(moving_scene_deviation(
                        self.spec_width(),
                        self.spec_height(),
                        i as int,
                        raster,
                    ).subset_of(changed_positions(base, raster)));
                    lemma_len_subset(
                        moving_scene_deviation(
                            self.spec_width(),
                            self.spec_height(),
                            i as int,
                            raster,
                        ),
                        changed_positions(base, raster),
                    );
                }
            }
            let frame = VideoFrame::new(raster, i, timestamp);
            frames.push(frame);
            i = i + 1;
        }
        frames
    }

    /// `count` frames of a two-object scene over the two-axis
    /// gradient: a red square moving rightward with a sinusoidal bob
    /// and a green disc moving leftward with a cosine bob. The scene
    /// is fully deterministic.
    pub fn generate_complex_scene_frames(&self, num_frames: usize) -> (frames: Vec<VideoFrame>)
        requires
            self.wf(),
            self.spec_width() > 60,
            (self.spec_width() as int) * (self.spec_height() as int) <= usize::MAX as int,
            num_frames as int * 1_000_000 <= u64::MAX as int,
        ensures
            frames@.len() == num_frames,
            forall|i: int|
                0 <= i < num_frames ==> {
                    &&& (#[trigger] frames@[i]).wf()
                    &&& frames@[i].frame_number == i
                    &&& frames@[i].timestamp as int == spec_timestamp_micros(self.spec_fps(), i)
                    &&& frames@[i].data.spec_width() == self.spec_width()
                    &&& frames@[i].data.spec_height() == self.spec_height()
                },
            forall|i: int|
                0 <= i < num_frames ==> forall|x: int, y: int|
                    (#[trigger] frames@[i]).data.in_bounds(x, y) ==> frames@[i].data.pix(x, y)
                        == complex_scene_pix(self.spec_width(), self.spec_height(), i, x, y),
    {
        let mut frames: Vec<VideoFrame> = Vec::new();
        let mut i: usize = 0;
        while i < num_frames
            invariant
                i <= num_frames,
                frames@.len() == i,
                self.wf(),
                self.spec_width() > 60,
                (self.spec_width() as int) * (self.spec_height() as int) <= usize::MAX as int,
                num_frames as int * 1_000_000 <= u64::MAX as int,
                forall|j: int|
                    0 <= j < i ==> {
                        &&& (#[trigger] frames@[j]).wf()
                        &&& frames@[j].frame_number == j
                        &&& frames@[j].timestamp as int == spec_timestamp_micros(
                            self.spec_fps(),
                            j,
                        )
                        &&& frames@[j].data.spec_width() == self.spec_width()
                        &&& frames@[j].data.spec_height() == self.spec_height()
                    },
                forall|j: int|
                    0 <= j < i ==> forall|x: int, y: int|
                        (#[trigger] frames@[j]).data.in_bounds(x, y) ==> frames@[j].data.pix(x, y)
                            == complex_scene_pix(self.spec_width(), self.spec_height(), j, x, y),
            decreases num_frames - i,
        {
            let timestamp: u64 = (i as u64) * 1_000_000 / (self.fps as u64);
            let mut raster = self.create_gradient_background();
            let obj1_x: u32 = (((i as u64) * 5) % (((self.width - 50)) as u64)) as u32;
            let phase1: u32 = (((i as u64) * 6) % 360) as u32;
            let obj1_y: u32 = 50 + 15 * sine_magnitude_milli(phase1) / 1000;
            self.add_rectangle(&mut raster, obj1_x, obj1_y, 50, 50, Rgb { r: 255, g: 0, b: 0 });
            let obj2_x: u32 = (self.width - 60) - ((((i as u64) * 3) % (((self.width - 60))
                as u64)) as u32);
            let phase2: u32 = (((i as u64) * 11 + 90) % 360) as u32;
            let obj2_y: u32 = 150 + 10 * sine_magnitude_milli(phase2) / 1000;
            self.add_circle(&mut raster, obj2_x, obj2_y, 25, Rgb { r: 0, g: 255, b: 0 });
            proof {
                assert(obj1_x as int == complex_rect_x(self.spec_width(), i as int));
                assert(obj1_y as int == complex_rect_y(i as int));
                assert(obj2_x as int == complex_disc_x(self.spec_width(), i as int));
                assert(obj2_y as int == complex_disc_y(i as int));
                assert forall|x: int, y: int| raster.in_bounds(x, y) implies raster.pix(x, y)
                    == complex_scene_pix(self.spec_width(), self.spec_height(), i as int, x, y) by {
                }
            }
            let frame = VideoFrame::new(raster, i, timestamp);
            frames.push(frame);
            i = i + 1;
        }
        frames
    }

    /// The two-tone positional gradient used behind the moving object.
    fn create_background(&self) -> (r: Raster)
        requires
            self.wf(),
            (self.spec_width() as int) * (self.spec_height() as int) <= usize::MAX as int,
        ensures
            r.wf(),
            r.spec_width() == self.spec_width(),
            r.spec_height() == self.spec_height(),
            forall|x: int, y: int|
                r.in_bounds(x, y) ==> r.pix(x, y) == background_pix(
                    self.spec_width(),
                    self.spec_height(),
                    x,
                    y,
                ),
    {
        let w = self.width;
        let h = self.height;
        let mut pixels: Vec<Rgb> = Vec::new();
        let mut y: u32 = 0;
        while y < h
            invariant
                y <= h,
                0 < w,
                0 < h,
                (w as int) * (h as int) <= usize::MAX as int,
                pixels@.len() == (y as int) * (w as int),
                forall|xx: int, yy: int|
                    0 <= xx < w && 0 <= yy < y ==> pixels@[yy * (w as int) + xx]
                        == background_pix(w, h, xx, yy),
            decreases h - y,
        {
            let mut x: u32 = 0;
            while x < w
                invariant
                    x <= w,
                    y < h,
                    0 < w,
                    0 < h,
                    (w as int) * (h as int) <= usize::MAX as int,
                    pixels@.len() == (y as int) * (w as int) + x as int,
                    forall|xx: int, yy: int|
                        0 <= xx < w && 0 <= yy < y ==> pixels@[yy * (w as int) + xx]
                            == background_pix(w, h, xx, yy),
                    forall|xx: int|
                        0 <= xx < x ==> pixels@[(y as int) * (w as int) + xx]
                            == background_pix(w, h, xx, y as int),
                decreases w - x,
            {
                proof {
                    lemma_flat_index(w as int, h as int, x as int, y as int);
                }
                let cr = ramp(x as u64, 100, w as u64);
                let cg = ramp(y as u64, 100, h as u64);
                pixels.push(Rgb { r: cr, g: cg, b: 100 });
                x = x + 1;
                proof {
                    assert forall|xx: int, yy: int| 0 <= xx < w && 0 <= yy < y implies pixels@[yy
                        * (w as int) + xx] == background_pix(w, h, xx, yy) by {
                        lemma_row_major_order(w as int, xx, yy, 0, y as int);
                    }
                }
            }
            y = y + 1;
            proof {
                assert((y as int) * (w as int) == (y as int - 1) * (w as int) + (w as int))
                    by (nonlinear_arith);
            }
        }
        proof {
            assert((h as int) * (w as int) == (w as int) * (h as int)) by (nonlinear_arith);
        }
        let r = Raster::from_raw(w, h, pixels);
        r
    }

    /// The two-axis linear colour gradient behind the complex scene.
    fn create_gradient_background(&self) -> (r: Raster)
        requires
            self.wf(),
            (self.spec_width() as int) * (self.spec_height() as int) <= usize::MAX as int,
        ensures
            r.wf(),
            r.spec_width() == self.spec_width(),
            r.spec_height() == self.spec_height(),
            forall|x: int, y: int|
                r.in_bounds(x, y) ==> r.pix(x, y) == gradient_pix(
                    self.spec_width(),
                    self.spec_height(),
                    x,
                    y,
                ),
    {
        let w = self.width;
        let h = self.height;
        let mut pixels: Vec<Rgb> = Vec::new();
        let mut y: u32 = 0;
        while y < h
            invariant
                y <= h,
                0 < w,
                0 < h,
                (w as int) * (h as int) <= usize::MAX as int,
                pixels@.len() == (y as int) * (w as int),
                forall|xx: int, yy: int|
                    0 <= xx < w && 0 <= yy < y ==> pixels@[yy * (w as int) + xx] == gradient_pix(
                        w,
                        h,
                        xx,
                        yy,
                    ),
            decreases h - y,
        {
            let mut x: u32 = 0;
            while x < w
                invariant
                    x <= w,
                    y < h,
                    0 < w,
                    0 < h,
                    (w as int) * (h as int) <= usize::MAX as int,
                    pixels@.len() == (y as int) * (w as int) + x as int,
                    forall|xx: int, yy: int|
                        0 <= xx < w && 0 <= yy < y ==> pixels@[yy * (w as int) + xx]
                            == gradient_pix(w, h, xx, yy),
                    forall|xx: int|
                        0 <= xx < x ==> pixels@[(y as int) * (w as int) + xx] == gradient_pix(
                            w,
                            h,
                            xx,
                            y as int,
                        ),
                decreases w - x,
            {
                proof {
                    lemma_flat_index(w as int, h as int, x as int, y as int);
                }
                let cr = ramp(x as u64, 255, w as u64);
                let cg = ramp(y as u64, 255, h as u64);
                let cb = ramp((x as u64) + (y as u64), 255, (w as u64) + (h as u64));
                pixels.push(Rgb { r: cr, g: cg, b: cb });
                x = x + 1;
                proof {
                    assert forall|xx: int, yy: int| 0 <= xx < w && 0 <= yy < y implies pixels@[yy
                        * (w as int) + xx] == gradient_pix(w, h, xx, yy) by {
                        lemma_row_major_order(w as int, xx, yy, 0, y as int);
                    }
                }
            }
            y = y + 1;
            proof {
                assert((y as int) * (w as int) == (y as int - 1) * (w as int) + (w as int))
                    by (nonlinear_arith);
            }
        }
        proof {
            assert((h as int) * (w as int) == (w as int) * (h as int)) by (nonlinear_arith);
        }
        let r = Raster::from_raw(w, h, pixels);
        r
    }

    /// Fills an axis-aligned rectangle, silently clipping whatever
    /// part of it falls outside the frame.
    pub fn add_rectangle(
        &self,
        frame: &mut Raster,
        x: u32,
        y: u32,
        width: u32,
        height: u32,
        color: Rgb,
    )
        requires
            old(frame).wf(),
            old(frame).spec_width() == self.spec_width(),
            old(frame).spec_height() == self.spec_height(),
            x as int + width as int <= u32::MAX as int,
            y as int + height as int <= u32::MAX as int,
        ensures
            final(frame).wf(),
            final(frame).spec_width() == old(frame).spec_width(),
            final(frame).spec_height() == old(frame).spec_height(),
            forall|xx: int, yy: int|
                old(frame).in_bounds(xx, yy) ==> final(frame).pix(xx, yy) == (if in_rect(
                    xx,
                    yy,
                    x as int,
                    y as int,
                    width as int,
                    height as int,
                ) {
                    color
                } else {
                    old(frame).pix(xx, yy)
                }),
    {
        let mut dx: u32 = 0;
        while dx < width
            invariant
                dx <= width,
                frame.wf(),
                frame.spec_width() == old(frame).spec_width(),
                frame.spec_height() == old(frame).spec_height(),
                old(frame).spec_width() == self.spec_width(),
                old(frame).spec_height() == self.spec_height(),
                x as int + width as int <= u32::MAX as int,
                y as int + height as int <= u32::MAX as int,
                forall|xx: int, yy: int|
                    old(frame).in_bounds(xx, yy) ==> frame.pix(xx, yy) == (if in_rect(
                        xx,
                        yy,
                        x as int,
                        y as int,
                        dx as int,
                        height as int,
                    ) {
                        color
                    } else {
                        old(frame).pix(xx, yy)
                    }),
            decreases width - dx,
        {
            let px = x + dx;
            let mut dy: u32 = 0;
            while dy < height
                invariant
                    dy <= height,
                    dx < width,
                    px == x + dx,
                    frame.wf(),
                    frame.spec_width() == old(frame).spec_width(),
                    frame.spec_height() == old(frame).spec_height(),
                    old(frame).spec_width() == self.spec_width(),
                    old(frame).spec_height() == self.spec_height(),
                    x as int + width as int <= u32::MAX as int,
                    y as int + height as int <= u32::MAX as int,
                    forall|xx: int, yy: int|
                        old(frame).in_bounds(xx, yy) ==> frame.pix(xx, yy) == (if in_rect(
                            xx,
                            yy,
                            x as int,
                            y as int,
                            dx as int,
                            height as int,
                        ) || (xx == px as int && y as int <= yy < y as int + dy as int) {
                            color
                        } else {
                            old(frame).pix(xx, yy)
                        }),
                decreases height - dy,
            {
                let py = y + dy;
                if px < self.width && py < self.height {
                    frame.put_pixel(px, py, color);
                }
                dy = dy + 1;
            }
            dx = dx + 1;
        }
    }

    /// Fills a disc by the Euclidean squared-distance test, silently
    /// clipping whatever part of it falls outside the frame.
    pub fn add_circle(
        &self,
        frame: &mut Raster,
        center_x: u32,
        center_y: u32,
        radius: u32,
        color: Rgb,
    )
        requires
            old(frame).wf(),
            old(frame).spec_width() == self.spec_width(),
            old(frame).spec_height() == self.spec_height(),
            radius <= 0x7fff_ffff,
        ensures
            final(frame).wf(),
            final(frame).spec_width() == old(frame).spec_width(),
            final(frame).spec_height() == old(frame).spec_height(),
            forall|xx: int, yy: int|
                old(frame).in_bounds(xx, yy) ==> final(frame).pix(xx, yy) == (if in_disc(
                    xx,
                    yy,
                    center_x as int,
                    center_y as int,
                    radius as int,
                ) {
                    color
                } else {
                    old(frame).pix(xx, yy)
                }),
    {
        let r_i64 = radius as i64;
        let cx = center_x as i64;
        let cy = center_y as i64;
        proof {
            lemma_square_within(r_i64 as int, 0x7fff_ffff);
        }
        let r_squared: i64 = r_i64 * r_i64;
        proof {
            assert forall|xx: int, yy: int|
                old(frame).in_bounds(xx, yy) && in_disc(
                    xx,
                    yy,
                    cx as int,
                    cy as int,
                    r_i64 as int,
                ) implies -(r_i64 as int) <= xx - cx by {
                lemma_disc_within_box(xx - cx, yy - cy, r_i64 as int);
            }
        }
        let mut dx: i64 = -r_i64;
        while dx <= r_i64
            invariant
                -r_i64 <= dx <= r_i64 + 1,
                r_i64 == radius as int,
                cx == center_x as int,
                cy == center_y as int,
                radius <= 0x7fff_ffff,
                r_squared == r_i64 * r_i64,
                frame.wf(),
                frame.spec_width() == old(frame).spec_width(),
                frame.spec_height() == old(frame).spec_height(),
                forall|xx: int, yy: int|
                    old(frame).in_bounds(xx, yy) ==> frame.pix(xx, yy) == (if in_disc(
                        xx,
                        yy,
                        cx as int,
                        cy as int,
                        r_i64 as int,
                    ) && xx - cx < dx {
                        color
                    } else {
                        old(frame).pix(xx, yy)
                    }),
            decreases r_i64 + 1 - dx,
        {
            proof {
                assert forall|xx: int, yy: int|
                    old(frame).in_bounds(xx, yy) && in_disc(
                        xx,
                        yy,
                        cx as int,
                        cy as int,
                        r_i64 as int,
                    ) implies -(r_i64 as int) <= yy - cy by {
                    lemma_disc_within_box(xx - cx, yy - cy, r_i64 as int);
                }
            }
            let mut dy: i64 = -r_i64;
            while dy <= r_i64
                invariant
                    -r_i64 <= dx <= r_i64,
                    -r_i64 <= dy <= r_i64 + 1,
                    r_i64 == radius as int,
                    cx == center_x as int,
                    cy == center_y as int,
                    radius <= 0x7fff_ffff,
                    r_squared == r_i64 * r_i64,
                    frame.wf(),
                    frame.spec_width() == old(frame).spec_width(),
                    frame.spec_height() == old(frame).spec_height(),
                    forall|xx: int, yy: int|
                        old(frame).in_bounds(xx, yy) ==> frame.pix(xx, yy) == (if in_disc(
                            xx,
                            yy,
                            cx as int,
                            cy as int,
                            r_i64 as int,
                        ) && (xx - cx < dx || (xx - cx == dx && yy - cy < dy)) {
                            color
                        } else {
                            old(frame).pix(xx, yy)
                        }),
                decreases r_i64 + 1 - dy,
            {
                proof {
                    lemma_square_within(r_i64 as int, 0x7fff_ffff);
                    lemma_square_within(dx as int, r_i64 as int);
                    lemma_square_within(dy as int, r_i64 as int);
                }
                if dx * dx + dy * dy <= r_squared {
                    let px = cx + dx;
                    let py = cy + dy;
                    if 0 <= px && px < frame.width() as i64 && 0 <= py && py < frame.height()
                        as i64 {
                        frame.put_pixel(px as u32, py as u32, color);
                    }
                }
                dy = dy + 1;
            }
            proof {
                assert forall|xx: int, yy: int|
                    old(frame).in_bounds(xx, yy) && in_disc(
                        xx,
                        yy,
                        cx as int,
                        cy as int,
                        r_i64 as int,
                    ) implies yy - cy <= r_i64 by {
                    lemma_disc_within_box(xx - cx, yy - cy, r_i64 as int);
                }
            }
            dx = dx + 1;
        }
        proof {
            assert forall|xx: int, yy: int|
                old(frame).in_bounds(xx, yy) && in_disc(
                    xx,
                    yy,
                    cx as int,
                    cy as int,
                    r_i64 as int,
                ) implies xx - cx <= r_i64 by {
                lemma_disc_within_box(xx - cx, yy - cy, r_i64 as int);
            }
        }
    }

    /// Scatters up to `num_pixels` single-pixel perturbations, each at
    /// a position drawn from the given generator with a colour drawn
    /// likewise, so at most `num_pixels` cells deviate afterwards.
    pub fn add_random_noise(
        &self,
        frame: &mut Raster,
        rng: &mut rand::rngs::StdRng,
        num_pixels: u32,
    )
        requires
            old(frame).wf(),
            old(frame).spec_width() == self.spec_width(),
            old(frame).spec_height() == self.spec_height(),
        ensures
            final(frame).wf(),
            final(frame).spec_width() == old(frame).spec_width(),
            final(frame).spec_height() == old(frame).spec_height(),
            changed_positions(*old(frame), *final(frame)).finite(),
            changed_positions(*old(frame), *final(frame)).len() <= num_pixels,
    {
        let w = frame.width();
        let h = frame.height();
        let ghost mut touched: Set<(int, int)> = Set::empty();
        let mut k: u32 = 0;
        while k < num_pixels
            invariant
                k <= num_pixels,
                frame.wf(),
                frame.spec_width() == old(frame).spec_width(),
                frame.spec_height() == old(frame).spec_height(),
                w == frame.spec_width(),
                h == frame.spec_height(),
                touched.finite(),
                touched.len() <= k as int,
                forall|xx: int, yy: int|
                    old(frame).in_bounds(xx, yy) && !touched.contains((xx, yy))
                        ==> frame.pix(xx, yy) == old(frame).pix(xx, yy),
            decreases num_pixels - k,
        {
            let x = rng_below(rng, w);
            let y = rng_below(rng, h);
            let cr = rng_below(rng, 256) as u8;
            let cg = rng_below(rng, 256) as u8;
            let cb = rng_below(rng, 256) as u8;
            frame.put_pixel(x, y, Rgb { r: cr, g: cg, b: cb });
            proof {
                touched = touched.insert((x as int, y as int));
            }
            k = k + 1;
        }
        proof {
            assert(changed_positions(*old(frame), *frame).subset_of(touched));
            lemma_len_subset(changed_positions(*old(frame), *frame), touched);
        }
    }
}

} // verus!
