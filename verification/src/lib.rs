//! A stateful frame-differencing engine for offline video analysis.
//!
//! Given an ordered sequence of raster frames, the engine produces a
//! derivative sequence in which each output frame highlights per-pixel
//! change between consecutive inputs, suppressing change at or below a
//! configurable threshold. A synthetic frame generator produces
//! deterministic test sequences (gradient backgrounds, moving shapes,
//! optional seeded noise) for exercising the engine without real video
//! input. Decoding and encoding of video containers is left to external
//! collaborators; this crate works on in-memory frames only.

pub mod frame;
pub mod frame_generator;
pub mod trig;
pub mod video_derivative;

pub use frame::ProcessingConfig;
pub use frame::Raster;
pub use frame::Rgb;
pub use frame::VideoFrame;
pub use frame_generator::FrameGenerator;
pub use video_derivative::VideoDerivativeProcessor;
