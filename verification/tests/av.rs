use moq_live::av::AudioCatalogConfig;
use moq_live::av::AudioCodec;
use moq_live::av::AudioEncoderConfig;
use moq_live::av::AudioFormat;
use moq_live::av::AudioPreset;
use moq_live::av::DecodedFrame;
use moq_live::av::EncodedPacket;
use moq_live::av::PixelFormat;
use moq_live::av::PlaybackConfig;
use moq_live::av::Quality;
use moq_live::av::TrackKind;
use moq_live::av::VideoCatalogConfig;
use moq_live::av::VideoCodec;
use moq_live::av::VideoEncoderConfig;
use moq_live::av::VideoFormat;
use moq_live::av::VideoFrame;
use moq_live::av::VideoPreset;

#[test]
fn pixel_formats() {
    assert_eq!(PixelFormat::default(), PixelFormat::Rgba);
    assert_eq!(PixelFormat::Bgra.bytes_per_pixel(), 4);
    assert_eq!(PixelFormat::Rgb.bytes_per_pixel(), 3);
    assert_eq!(PixelFormat::Nv21.bytes_per_pixel(), 0);
    assert!(PixelFormat::Yuv420p.is_planar());
    assert!(PixelFormat::Nv12.is_planar());
    assert!(!PixelFormat::Rgb.is_planar());
}

#[test]
fn buffer_sizes() {
    assert_eq!(VideoFormat::rgba(1280, 720).buffer_size(), 3_686_400);
    assert_eq!(VideoFormat::new(10, 10, PixelFormat::Rgb).buffer_size(), 300);
    assert_eq!(VideoFormat::new(3, 3, PixelFormat::Yuv420p).buffer_size(), 13);
    assert_eq!(VideoFormat::new(4, 2, PixelFormat::Nv12).buffer_size(), 12);
    assert_eq!(VideoFormat::new(0, 9, PixelFormat::Bgra).buffer_size(), 0);
    assert_eq!(VideoFormat::new(65536, 65536, PixelFormat::Rgba).buffer_size(), 1 << 34);
}

#[test]
fn frames_carry_their_timestamp() {
    let f = VideoFrame::new(VideoFormat::rgba(2, 1), vec![0; 8], 1_500_000);
    assert_eq!(f.pts_us, 1_500_000);
    assert_eq!((f.width(), f.height()), (2, 1));
    assert_eq!(VideoFrame::new(VideoFormat::rgba(1, 1), vec![], u64::MAX).pts_us, -1);
    assert_eq!(
        VideoFrame::new(VideoFormat::rgba(1, 1), vec![], 1 << 63).pts_us,
        i64::MIN
    );
    assert_eq!(
        VideoFrame::new(VideoFormat::rgba(1, 1), vec![], i64::MAX as u64).pts_us,
        i64::MAX
    );
}

#[test]
fn bgra_becomes_rgba() {
    let frame = |pixel_format, data: Vec<u8>| DecodedFrame {
        data,
        width: 2,
        height: 1,
        pixel_format,
        timestamp_us: 0,
    };
    let data = vec![1, 2, 3, 4, 5, 6, 7, 8, 9, 10];
    assert_eq!(
        frame(PixelFormat::Bgra, data.clone()).to_rgba(),
        vec![3, 2, 1, 4, 7, 6, 5, 8, 9, 10]
    );
    assert_eq!(frame(PixelFormat::Rgba, data.clone()).to_rgba(), data);
    assert_eq!(frame(PixelFormat::Nv12, data.clone()).to_rgba(), data);
    assert_eq!(frame(PixelFormat::Bgra, vec![1, 2, 3]).to_rgba(), vec![1, 2, 3]);
}

#[test]
fn audio_formats() {
    assert_eq!(AudioFormat::stereo_48khz(), AudioFormat::new(48000, 2));
    assert_eq!(AudioFormat::mono_16khz(), AudioFormat::new(16000, 1));
    assert_eq!(AudioFormat::stereo_48khz().samples_per_20ms(), 960);
    assert_eq!(AudioFormat::new(44100, 2).samples_per_20ms(), 882);
}

#[test]
fn packets() {
    let v = EncodedPacket::video(vec![1], 5, false, "video-720p");
    assert!(!v.is_keyframe);
    assert_eq!(v.track_name, "video-720p");
    let a = EncodedPacket::audio(vec![2], 6, "audio-hq");
    assert!(a.is_keyframe);
    assert_eq!((a.timestamp_us, a.data), (6, vec![2]));
}

#[test]
fn video_presets() {
    assert_eq!(
        VideoPreset::all(),
        [VideoPreset::P180, VideoPreset::P360, VideoPreset::P720, VideoPreset::P1080]
    );
    assert_eq!(VideoPreset::P360.dimensions(), (640, 360));
    assert_eq!((VideoPreset::P1080.width(), VideoPreset::P1080.height()), (1920, 1080));
    assert_eq!(VideoPreset::P180.fps(), 30);
    assert_eq!(VideoPreset::P180.bitrate_kbps(), 300);
    assert_eq!(VideoPreset::P720.name(), "720p");
    assert_eq!(VideoPreset::P720.track_name(), "video-720p");
    assert_eq!(VideoPreset::P720.to_text(), "720p");
    assert_eq!(VideoPreset::from_name("video-360p"), Some(VideoPreset::P360));
    assert_eq!(VideoPreset::from_name("x1080"), Some(VideoPreset::P1080));
    // The first number that the name holds decides.
    assert_eq!(VideoPreset::from_name("720-then-180"), Some(VideoPreset::P180));
    assert_eq!(VideoPreset::from_name("video"), None);
    assert_eq!(VideoPreset::from_name(""), None);
    assert_eq!(VideoPreset::from_name("18"), None);
}

#[test]
fn audio_presets() {
    assert_eq!(AudioPreset::Hq.sample_rate(), 48000);
    assert_eq!(AudioPreset::Lq.channel_count(), 1);
    assert_eq!(AudioPreset::Hq.bitrate_kbps(), 96);
    assert_eq!(AudioPreset::Lq.track_name(), "audio-lq");
    assert_eq!(AudioPreset::Hq.to_text(), "hq");
    assert_eq!(AudioPreset::Lq.audio_format(), AudioFormat::new(48000, 1));
}

#[test]
fn preference_picks_the_first_available() {
    let (p180, p360, p720, p1080) =
        (VideoPreset::P180, VideoPreset::P360, VideoPreset::P720, VideoPreset::P1080);
    assert_eq!(Quality::default(), Quality::Highest);
    assert_eq!(Quality::Highest.select_video(&[p180, p720]), Some(p720));
    assert_eq!(Quality::High.select_video(&[p1080, p180]), Some(p180));
    assert_eq!(Quality::High.select_video(&[p1080]), Some(p1080));
    assert_eq!(Quality::Mid.select_video(&[p720, p1080]), Some(p720));
    assert_eq!(Quality::Low.select_video(&[p1080, p360]), Some(p360));
    assert_eq!(Quality::Low.select_video(&[]), None);
    assert_eq!(Quality::Highest.select_audio(&[AudioPreset::Lq]), Some(AudioPreset::Lq));
    assert_eq!(
        Quality::Low.select_audio(&[AudioPreset::Hq, AudioPreset::Lq]),
        Some(AudioPreset::Lq)
    );
    assert_eq!(Quality::Mid.select_audio(&[]), None);
}

#[test]
fn track_kinds_and_codecs() {
    assert_eq!(TrackKind::from_name("audio-hq"), Some(TrackKind::Audio));
    assert_eq!(TrackKind::from_name("video-720p"), Some(TrackKind::Video));
    assert_eq!(TrackKind::from_name("video"), None);
    assert_eq!(TrackKind::from_name("xaudio-"), None);
    assert_eq!(VideoCodec::H265.name(), "h265");
    assert_eq!(VideoCodec::Vp9.mime_type(), "video/vp9");
    assert_eq!(AudioCodec::Opus.name(), "opus");
    assert_eq!(AudioCodec::Pcm.mime_type(), "audio/pcm");
}

#[test]
fn configurations() {
    let v = VideoEncoderConfig::default();
    assert_eq!((v.codec, v.preset, v.keyframe_interval, v.hardware_accel),
        (VideoCodec::H264, VideoPreset::P720, 60, true));
    let a = AudioEncoderConfig::default();
    assert_eq!((a.codec, a.preset), (AudioCodec::Opus, AudioPreset::Hq));
    let p = PlaybackConfig::default();
    assert_eq!(p.pixel_format, PixelFormat::Rgba);
    assert_eq!(p.viewport, None);
    let c = VideoCatalogConfig::from_preset(VideoPreset::P360, VideoCodec::Av1);
    assert_eq!((c.coded_width, c.coded_height), (640, 360));
    assert_eq!((c.display_width, c.display_height), (Some(640), Some(360)));
    assert_eq!((c.framerate, c.bitrate), (Some(30), Some(800_000)));
    let c = AudioCatalogConfig::from_preset(AudioPreset::Lq, AudioCodec::Aac);
    assert_eq!((c.sample_rate, c.channel_count, c.bitrate), (48000, 1, Some(32_000)));
}
