use video_derivative::ProcessingConfig;
use video_derivative::Raster;
use video_derivative::Rgb;
use video_derivative::VideoDerivativeProcessor;
use video_derivative::VideoFrame;

fn solid_frame(width: u32, height: u32, level: u8, frame_number: usize, timestamp: u64) -> VideoFrame {
    let data = Raster::from_pixel(width, height, Rgb { r: level, g: level, b: level });
    VideoFrame::new(data, frame_number, timestamp)
}

#[test]
fn test_video_frame_creation() {
    let frame_data = Raster::from_pixel(100, 100, Rgb { r: 255, g: 0, b: 0 });
    let frame = VideoFrame::new(frame_data, 1, 33_000);

    assert_eq!(frame.width(), 100);
    assert_eq!(frame.height(), 100);
    assert_eq!(frame.frame_number, 1);
}

#[test]
fn test_processor_creation() {
    let config = ProcessingConfig::default();
    let processor = VideoDerivativeProcessor::new(config);

    assert_eq!(processor.get_config().threshold, 30);
    assert_eq!(processor.get_config().fps, 30);
}

#[test]
fn test_frame_difference() {
    let config = ProcessingConfig::default();
    let mut processor = VideoDerivativeProcessor::new(config);

    let vid_frame1 = solid_frame(10, 10, 100, 0, 0);
    let vid_frame2 = solid_frame(10, 10, 150, 1, 33_000);

    // The first frame yields the all-black baseline.
    let derivative1 = processor.process_frame(&vid_frame1);
    assert_eq!(derivative1.data.get_pixel(5, 5).r, 0);

    // The second frame shows the difference.
    let derivative2 = processor.process_frame(&vid_frame2);
    assert_eq!(derivative2.data.get_pixel(5, 5).r, 50); // 150 - 100 = 50
}

#[test]
fn test_config_default() {
    let config = ProcessingConfig::default();
    assert_eq!(config.threshold, 30);
    assert_eq!(config.fps, 30);
    assert_eq!(config.output_width, 640);
    assert_eq!(config.output_height, 480);
    assert!(config.noise_reduction);
}

#[test]
fn test_first_frame_baseline_all_black() {
    let mut processor = VideoDerivativeProcessor::new(ProcessingConfig::default());
    let frame = solid_frame(10, 10, 200, 5, 0);
    let out = processor.process_frame(&frame);
    for y in 0..10 {
        for x in 0..10 {
            let p = out.data.get_pixel(x, y);
            assert_eq!((p.r, p.g, p.b), (0, 0, 0));
        }
    }
}

#[test]
fn test_threshold_gate_passes_full_pixel() {
    // delta 50 > threshold 30: every output pixel is (50, 50, 50).
    let mut processor = VideoDerivativeProcessor::new(ProcessingConfig::default());
    let out1 = processor.process_frame(&solid_frame(10, 10, 100, 0, 0));
    assert_eq!(out1.data.get_pixel(5, 5).r, 0);
    let out2 = processor.process_frame(&solid_frame(10, 10, 150, 1, 33_000));
    let p = out2.data.get_pixel(5, 5);
    assert_eq!((p.r, p.g, p.b), (50, 50, 50));
}

#[test]
fn test_threshold_gate_blocks_below_threshold() {
    // delta 50 <= threshold 60: every output pixel is zeroed.
    let config = ProcessingConfig { threshold: 60, ..ProcessingConfig::default() };
    let mut processor = VideoDerivativeProcessor::new(config);
    processor.process_frame(&solid_frame(10, 10, 100, 0, 0));
    let out2 = processor.process_frame(&solid_frame(10, 10, 150, 1, 33_000));
    let p = out2.data.get_pixel(5, 5);
    assert_eq!((p.r, p.g, p.b), (0, 0, 0));
}

#[test]
fn test_counter_monotonicity() {
    let mut processor = VideoDerivativeProcessor::new(ProcessingConfig::default());
    let f = solid_frame(4, 3, 10, 42, 7);
    assert_eq!(processor.process_frame(&f).frame_number, 0);
    assert_eq!(processor.process_frame(&f).frame_number, 1);
    assert_eq!(processor.process_frame(&f).frame_number, 2);
    processor.reset();
    assert_eq!(processor.process_frame(&f).frame_number, 0);
    assert_eq!(processor.process_frame(&f).frame_number, 1);
}

#[test]
fn test_dimension_preservation() {
    let mut processor = VideoDerivativeProcessor::new(ProcessingConfig::default());
    let f1 = solid_frame(12, 7, 0, 0, 0);
    let f2 = solid_frame(12, 7, 80, 1, 100);
    let out1 = processor.process_frame(&f1);
    assert_eq!(out1.dimensions(), (12, 7));
    let out2 = processor.process_frame(&f2);
    assert_eq!(out2.dimensions(), (12, 7));
}

#[test]
fn test_reset_idempotence() {
    // reset on an already-empty engine is a no-op: the next call still
    // behaves as a first call.
    let mut processor = VideoDerivativeProcessor::new(ProcessingConfig::default());
    processor.reset();
    processor.reset();
    let out = processor.process_frame(&solid_frame(6, 6, 250, 9, 1));
    assert_eq!(out.frame_number, 0);
    for y in 0..6 {
        for x in 0..6 {
            let p = out.data.get_pixel(x, y);
            assert_eq!((p.r, p.g, p.b), (0, 0, 0));
        }
    }
}

#[test]
fn test_timestamp_copied_verbatim() {
    let mut processor = VideoDerivativeProcessor::new(ProcessingConfig::default());
    let out = processor.process_frame(&solid_frame(5, 5, 1, 3, 987_654));
    assert_eq!(out.timestamp, 987_654);
}

#[test]
fn test_update_config_takes_effect_next_call() {
    // The retained frame survives a config replacement, so the new
    // threshold gates the very next difference.
    let mut processor = VideoDerivativeProcessor::new(ProcessingConfig::default());
    processor.process_frame(&solid_frame(8, 8, 100, 0, 0));
    let stricter = ProcessingConfig { threshold: 60, ..ProcessingConfig::default() };
    processor.update_config(stricter);
    assert_eq!(processor.get_config().threshold, 60);
    let out = processor.process_frame(&solid_frame(8, 8, 150, 1, 10));
    assert_eq!(out.data.get_pixel(3, 3).r, 0);
    assert_eq!(out.frame_number, 1);
}

#[test]
fn test_compute_frame_difference_ungated() {
    // The public raw difference ignores the threshold entirely.
    let processor = VideoDerivativeProcessor::new(ProcessingConfig { threshold: 200, ..ProcessingConfig::default() });
    let a = Raster::from_pixel(4, 4, Rgb { r: 100, g: 20, b: 250 });
    let b = Raster::from_pixel(4, 4, Rgb { r: 110, g: 50, b: 200 });
    let d = processor.compute_frame_difference(&a, &b);
    let p = d.get_pixel(2, 1);
    assert_eq!((p.r, p.g, p.b), (10, 30, 50));
}
