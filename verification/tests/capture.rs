use moq_live::av::VideoFormat;
use moq_live::av::VideoFrame;
use moq_live::av::VideoSource;
use moq_live::capture::CaptureDeviceType;
use moq_live::capture::CaptureManager;
use moq_live::capture::CaptureSource;
use moq_live::capture::Capturer;
use moq_live::capture::TestPattern;
use moq_live::capture::TestPatternSource;

#[test]
fn devices_are_registered_and_found() {
    let mut m = CaptureManager::new();
    m.register_camera("c0".into(), "Front".into(), 1280, 720);
    m.register_camera("c1".into(), "Back".into(), 1920, 1080);
    m.register_screen("s0".into(), "Main".into(), 2560, 1440);
    assert_eq!(m.cameras().len(), 2);
    assert_eq!(m.cameras()[1].name, "Back");
    assert_eq!(m.screens()[0].device_type, CaptureDeviceType::Screen);
    let cam = m.create_camera_capturer("c1").unwrap();
    assert_eq!(cam.device_info().native_width, 1920);
    assert_eq!(cam.device_info().device_type, CaptureDeviceType::Camera);
    assert_eq!(cam.format(), VideoFormat::rgba(1920, 1080));
    assert!(m.create_camera_capturer("s0").is_none());
    assert!(m.create_screen_capturer("s0").is_some());
    assert!(CaptureManager::default().cameras().is_empty());
}

#[test]
fn a_capturer_hands_out_the_newest_picture_while_it_captures() {
    let mut c = Capturer::camera("c".into(), "Cam".into(), 2, 1);
    let frame = |v: u8| VideoFrame::new(VideoFormat::rgba(2, 1), vec![v; 8], v as u64);
    c.push_frame(frame(1));
    assert!(!c.is_capturing());
    assert!(c.pop_frame().unwrap().is_none());
    c.start().unwrap();
    assert!(c.is_capturing());
    assert_eq!(c.pop_frame().unwrap().unwrap().data, vec![1; 8]);
    c.push_frame(frame(2));
    c.push_frame(frame(3));
    assert_eq!(c.pop_frame().unwrap().unwrap().data, vec![3; 8]);
    assert_eq!(c.pop_frame().unwrap().unwrap().timestamp_us, 3);
    c.stop().unwrap();
    assert!(c.pop_frame().unwrap().is_none());
    let mut s = Capturer::screen("s".into(), "Screen".into(), 2, 1);
    s.start().unwrap();
    assert!(s.pop_frame().unwrap().is_none());
}

#[test]
fn pictures_come_at_the_source_s_rate() {
    let mut s = TestPatternSource::new_at(4, 2, 10, TestPattern::Gradient, 1_000);
    assert!(s.pop_frame_at(1_000).unwrap().is_none());
    assert!(s.pop_frame_at(1_099).unwrap().is_none());
    assert!(s.pop_frame_at(500).unwrap().is_none());
    let first = s.pop_frame_at(1_100).unwrap().unwrap();
    assert_eq!(first.timestamp_us, 0);
    assert!(s.pop_frame_at(1_100).unwrap().is_none());
    let second = s.pop_frame_at(1_350).unwrap().unwrap();
    assert_eq!(second.timestamp_us, 100_000);
    let third = s.pop_frame_at(1_350).unwrap().unwrap();
    assert_eq!(third.timestamp_us, 200_000);
    assert!(s.pop_frame_at(1_350).unwrap().is_none());
    // A source without a rate never has a picture due.
    let mut still = TestPatternSource::new_at(4, 2, 0, TestPattern::Noise, 0);
    assert!(still.pop_frame_at(u64::MAX).unwrap().is_none());
}

fn picture(pattern: TestPattern, width: u32, height: u32, skip: u64) -> Vec<u8> {
    let mut s = TestPatternSource::new_at(width, height, 1000, pattern, 0);
    for _ in 0..skip {
        s.pop_frame_at(1_000_000).unwrap().unwrap();
    }
    s.pop_frame_at(1_000_000).unwrap().unwrap().data
}

#[test]
fn gradient_and_bars() {
    let g = picture(TestPattern::Gradient, 4, 2, 0);
    assert_eq!(g.len(), 32);
    // Pixel (3, 1): red 3 * 255 / 4, green 1 * 255 / 2.
    assert_eq!(&g[28..32], &[191, 127, 128, 255]);
    assert_eq!(&g[0..4], &[0, 0, 128, 255]);
    let b = picture(TestPattern::ColorBars, 16, 1, 0);
    assert_eq!(&b[0..4], &[255, 255, 255, 255]);
    assert_eq!(&b[2 * 4..2 * 4 + 4], &[255, 255, 0, 255]);
    assert_eq!(&b[10 * 4..10 * 4 + 4], &[255, 0, 0, 255]);
    assert_eq!(&b[15 * 4..], &[0, 0, 0, 255]);
    // The last bar takes what is left of the width.
    let wide = picture(TestPattern::ColorBars, 17, 1, 0);
    assert_eq!(&wide[16 * 4..], &[0, 0, 0, 255]);
}

#[test]
fn the_box_moves_with_the_picture_s_number() {
    let at = |data: &[u8], x: usize, y: usize| data[(y * 60 + x) * 4..][..3].to_vec();
    let first = picture(TestPattern::MovingBox, 60, 60, 0);
    assert_eq!(at(&first, 0, 0), vec![255, 0, 0]);
    assert_eq!(at(&first, 49, 49), vec![255, 0, 0]);
    assert_eq!(at(&first, 50, 0), vec![32, 32, 64]);
    // Picture 4: the box stands at (12 % 10, 8 % 10).
    let later = picture(TestPattern::MovingBox, 60, 60, 4);
    assert_eq!(at(&later, 1, 8), vec![32, 32, 64]);
    assert_eq!(at(&later, 2, 8), vec![255, 0, 0]);
    assert_eq!(at(&later, 51, 57), vec![255, 0, 0]);
    assert_eq!(at(&later, 52, 57), vec![32, 32, 64]);
}

#[test]
fn noise_is_grey_and_follows_its_formula() {
    let n = picture(TestPattern::Noise, 3, 2, 2);
    for (i, px) in n.chunks(4).enumerate() {
        let (x, y) = ((i % 3) as u64, (i / 3) as u64);
        let v = ((2u64.wrapping_mul(31337) ^ (x * 7919) ^ (y * 104729)) % 256) as u8;
        assert_eq!(px, &[v, v, v, 255]);
    }
}

#[test]
fn a_picture_that_cannot_be_painted_is_an_error() {
    let mut bars = TestPatternSource::new_at(7, 1, 1000, TestPattern::ColorBars, 0);
    assert!(bars.pop_frame_at(10).is_err());
    let mut boxed = TestPatternSource::new_at(50, 60, 1000, TestPattern::MovingBox, 0);
    assert!(boxed.pop_frame_at(10).is_err());
    let m = CaptureManager::new();
    let mut source = m.create_test_source(8, 1, 30, TestPattern::ColorBars);
    assert_eq!(source.format(), VideoFormat::rgba(8, 1));
    assert!(TestPatternSource::new(8, 1, 30, TestPattern::Noise).pop_frame().unwrap().is_none());
    let _ = source.pop_frame();
}
