use moq_live::ffmpeg_encoder::Platform;
use moq_live::ffmpeg::available_audio_codecs;
use moq_live::ffmpeg::available_hardware_accels;
use moq_live::ffmpeg::available_video_codecs;
use moq_live::ffmpeg::ffmpeg_version;
use moq_live::ffmpeg::is_ffmpeg_available;
use moq_live::ffmpeg::AudioCodec;
use moq_live::ffmpeg::AudioDecoder;
use moq_live::ffmpeg::AudioEncoder;
use moq_live::ffmpeg::AudioEncoderConfig;
use moq_live::ffmpeg::CodecError;
use moq_live::ffmpeg::EncoderPreset;
use moq_live::ffmpeg::EncoderTune;
use moq_live::ffmpeg::HardwareAccel;
use moq_live::ffmpeg::PixelFormat;
use moq_live::ffmpeg::QualityLadder;
use moq_live::ffmpeg::VideoCodec;
use moq_live::ffmpeg::VideoDecoder;
use moq_live::ffmpeg::VideoEncoder;
use moq_live::ffmpeg::VideoEncoderConfig;
use moq_live::ffmpeg_encoder::VideoPreset;
use moq_live::live_streaming::VideoQuality;

#[test]
fn test_video_encoder_config() {
    let config = VideoEncoderConfig::new(VideoQuality::P720, Platform::Other);
    assert_eq!(config.width(), 1280);
    assert_eq!(config.height(), 720);
    assert_eq!(config.fps(), 30);
}

#[test]
fn test_mock_encoder() {
    let config = VideoEncoderConfig::new(VideoQuality::P360, Platform::Other);
    let mut encoder = VideoEncoder::new(config).unwrap();

    let raw_frame = vec![0u8; 640 * 360 * 4];

    let encoded = encoder.encode(&raw_frame, 0).unwrap();
    assert!(encoded.is_keyframe);
    assert_eq!(encoded.frame_index, 0);

    let encoded2 = encoder.encode(&raw_frame, 33333).unwrap();
    assert!(!encoded2.is_keyframe);
    assert_eq!(encoded2.frame_index, 1);
}

#[test]
fn test_quality_ladder() {
    let ladder = QualityLadder::new(VideoQuality::P720, VideoCodec::H264, Platform::Other).unwrap();
    let qualities = ladder.available_qualities();

    assert!(qualities.contains(&VideoQuality::P180));
    assert!(qualities.contains(&VideoQuality::P360));
    assert!(qualities.contains(&VideoQuality::P720));
    assert!(!qualities.contains(&VideoQuality::P1080));
}

#[test]
fn test_preset_values() {
    let p720 = VideoPreset::P720;
    assert_eq!(p720.width(), 1280);
    assert_eq!(p720.height(), 720);
    assert_eq!(p720.fps(), 30);
}

#[test]
fn encoder_preset_all_and_rates() {
    assert_eq!(
        VideoPreset::all(),
        vec![VideoPreset::P180, VideoPreset::P360, VideoPreset::P720, VideoPreset::P1080]
    );
    assert_eq!(VideoPreset::P180.fps(), 15);
    assert_eq!(VideoPreset::P360.fps(), 24);
    assert_eq!(VideoPreset::P1080.width(), 1920);
    assert_eq!(VideoPreset::P360.frame_time_ns(24), 1_000_000_000);
}

#[test]
fn codec_names_follow_hardware() {
    assert_eq!(VideoCodec::H264.encoder_name(HardwareAccel::VideoToolbox), "h264_videotoolbox");
    assert_eq!(VideoCodec::VP9.encoder_name(HardwareAccel::MediaCodec), "vp9_mediacodec");
    assert_eq!(VideoCodec::VP8.encoder_name(HardwareAccel::VideoToolbox), "libvpx");
    assert_eq!(VideoCodec::AV1.encoder_name(HardwareAccel::MediaCodec), "libaom-av1");
    assert_eq!(VideoCodec::H265.encoder_name(HardwareAccel::Software), "libx265");
    assert_eq!(VideoCodec::H265.decoder_name(HardwareAccel::NVENC), "hevc");
    assert_eq!(VideoCodec::H265.decoder_name(HardwareAccel::MediaCodec), "hevc_mediacodec");
    assert_eq!(VideoCodec::H264.mime_type(), "video/avc");
    assert_eq!(AudioCodec::Opus.encoder_name(), "libopus");
    assert_eq!(AudioCodec::MP3.decoder_name(), "mp3");
    assert_eq!(AudioCodec::MP3.mime_type(), "audio/mpeg");
    assert_eq!(AudioCodec::MP3.recommended_bitrate(true), 192);
    assert_eq!(AudioCodec::Opus.recommended_bitrate(false), 32);
    assert_eq!(EncoderPreset::Veryslow.as_str(), "veryslow");
    assert_eq!(EncoderTune::Untuned.as_str(), "");
    assert_eq!(EncoderTune::ZeroLatency.as_str(), "zerolatency");
}

#[test]
fn encoder_config_builders() {
    let config = VideoEncoderConfig::new(VideoQuality::P1080, Platform::Other)
        .with_codec(VideoCodec::VP9)
        .with_hardware(HardwareAccel::QSV)
        .with_bitrate(1234)
        .with_preset(EncoderPreset::Slow);
    assert_eq!(config.codec, VideoCodec::VP9);
    assert_eq!(config.hardware, HardwareAccel::QSV);
    assert_eq!(config.bitrate_kbps, 1234);
    assert_eq!(config.preset, EncoderPreset::Slow);
    assert_eq!(config.keyframe_interval, 60);
    assert_eq!(config.tune, EncoderTune::ZeroLatency);
    assert!(config.low_latency);
    assert_eq!(VideoEncoderConfig::new(VideoQuality::P180, Platform::Other).bitrate_kbps, 300);
    assert_eq!(HardwareAccel::detect(Platform::Other), HardwareAccel::Software);

    assert_eq!(AudioEncoderConfig::voice().bitrate_kbps, 32);
    assert_eq!(AudioEncoderConfig::music().channels, 2);
    let low = AudioEncoderConfig::new(AudioCodec::AAC, false);
    assert_eq!((low.sample_rate, low.channels, low.bitrate_kbps), (44100, 1, 64));
}

#[test]
fn mock_frame_layout_is_exact() {
    // 300 kbps at 30 fps: 1250 bytes per frame.
    let mut encoder = VideoEncoder::new(VideoEncoderConfig::new(VideoQuality::P180, Platform::Other)).unwrap();
    let raw: Vec<u8> = (0..10u8).collect();
    let frame = encoder.encode(&raw, 7).unwrap();
    assert_eq!(frame.data.len(), 1250);
    assert_eq!(&frame.data[..5], &[0, 0, 0, 1, 0x65]);
    assert_eq!(&frame.data[5..15], &raw[..]);
    assert!(frame.data[15..].iter().all(|b| *b == 0));
    assert_eq!(frame.duration_us, 33333);
    assert_eq!(frame.dts_us, 7);
    assert_eq!(frame.moq_priority(), 0);
    assert_eq!(frame.moq_ttl_ms(), 5000);
    let next = encoder.encode(&raw, 8).unwrap();
    assert_eq!(&next.data[..5], &[0, 0, 0, 1, 0x41]);
    assert_eq!(next.moq_priority(), 128);
    assert_eq!(next.moq_ttl_ms(), 2000);

    // A long input is cut to the budget.
    let long = vec![9u8; 5000];
    let cut = encoder.encode(&long, 9).unwrap();
    assert_eq!(cut.data.len(), 1250);
    assert!(cut.data[5..].iter().all(|b| *b == 9));

    // A budget under the header's size leaves the header alone.
    let tiny = VideoEncoderConfig::new(VideoQuality::P180, Platform::Other).with_bitrate(0);
    let mut small = VideoEncoder::new(tiny).unwrap();
    assert_eq!(small.encode(&raw, 0).unwrap().data, vec![0, 0, 0, 1, 0x65]);
}

#[test]
fn keyframes_come_at_the_interval_and_reset_restarts() {
    let mut encoder = VideoEncoder::new(VideoEncoderConfig::new(VideoQuality::P180, Platform::Other)).unwrap();
    for i in 0..125u64 {
        let frame = encoder.encode(&[], 0).unwrap();
        assert_eq!(frame.frame_index, i);
        assert_eq!(frame.is_keyframe, i % 60 == 0);
    }
    encoder.reset();
    assert!(encoder.encode(&[], 0).unwrap().is_keyframe);
    assert!(encoder.flush().is_empty());
    assert_eq!(encoder.config().quality, VideoQuality::P180);
}

#[test]
fn mock_decoder_paints_by_frame_kind() {
    let mut encoder = VideoEncoder::new(VideoEncoderConfig::new(VideoQuality::P180, Platform::Other)).unwrap();
    let key = encoder.encode(&[], 5).unwrap();
    let inter = encoder.encode(&[], 6).unwrap();
    let mut decoder = VideoDecoder::auto_detect(Platform::Other).unwrap();
    let a = decoder.decode(&key).unwrap();
    assert_eq!((a.width, a.height), (320, 180));
    assert_eq!(a.data.len(), 320 * 180 * 4);
    assert_eq!(&a.data[..8], &[0, 128, 0, 255, 0, 128, 0, 255]);
    assert_eq!(a.format, PixelFormat::RGBA);
    assert_eq!(a.pts_us, 5);
    let b = decoder.decode(&inter).unwrap();
    assert_eq!(&b.data[b.data.len() - 4..], &[0, 0, 128, 255]);
    assert!(decoder.flush().is_empty());
}

#[test]
fn pixel_format_sizes() {
    assert_eq!(PixelFormat::RGBA.bytes_per_pixel(), 4);
    assert_eq!(PixelFormat::NV12.bytes_per_pixel(), 0);
    assert_eq!(PixelFormat::BGRA.buffer_size(640, 360), 921_600);
    assert_eq!(PixelFormat::YUV420P.buffer_size(3, 3), 13);
}

#[test]
fn ladder_encodes_each_step() {
    let mut ladder = QualityLadder::new(VideoQuality::P360, VideoCodec::H264, Platform::Other).unwrap();
    assert_eq!(ladder.available_qualities(), vec![VideoQuality::P180, VideoQuality::P360]);
    let frames = ladder.encode_all(&[1, 2, 3], 40);
    assert_eq!(frames.len(), 2);
    assert_eq!(frames[0].quality, VideoQuality::P180);
    assert_eq!(frames[1].quality, VideoQuality::P360);
    assert!(frames.iter().all(|f| f.is_keyframe && f.frame_index == 0 && f.pts_us == 40));
    let single = ladder.encode_single(&[1], 41, VideoQuality::P180).unwrap();
    assert_eq!(single.frame_index, 1);
    assert_eq!(
        ladder.encode_single(&[1], 41, VideoQuality::P1080).unwrap_err(),
        CodecError::QualityNotAvailable
    );
    ladder.reset();
    assert_eq!(ladder.encode_single(&[1], 42, VideoQuality::P180).unwrap().frame_index, 0);
}

#[test]
fn audio_samples_survive_the_round_trip() {
    let pcm: Vec<i16> = vec![0, 1, -1, 255, 256, -256, i16::MAX, i16::MIN, 12345, -12345];
    let mut encoder = AudioEncoder::new(AudioEncoderConfig::music()).unwrap();
    let frame = encoder.encode(&pcm, 99).unwrap();
    assert_eq!(frame.samples, 5);
    assert_eq!(frame.duration_us, 104);
    assert_eq!(&frame.data[..6], &[0, 0, 1, 0, 0xff, 0xff]);
    assert_eq!(frame.data.len(), 20);
    assert_eq!(encoder.config().codec, AudioCodec::AAC);
    let mut decoder = AudioDecoder::new(AudioCodec::AAC).unwrap();
    let decoded = decoder.decode(&frame).unwrap();
    assert_eq!(decoded.samples, pcm);
    assert_eq!((decoded.sample_rate, decoded.channels, decoded.pts_us), (48000, 2, 99));
}

#[test]
fn what_is_at_hand() {
    assert!(!is_ffmpeg_available());
    assert_eq!(ffmpeg_version(), None);
    assert_eq!(available_hardware_accels(Platform::Other), vec![HardwareAccel::Software]);
    assert_eq!(available_video_codecs().len(), 5);
    assert_eq!(available_audio_codecs(), vec![AudioCodec::AAC, AudioCodec::Opus, AudioCodec::MP3]);
}

#[test]
fn acceleration_follows_the_platform() {
    assert_eq!(HardwareAccel::detect(Platform::Ios), HardwareAccel::VideoToolbox);
    assert_eq!(HardwareAccel::detect(Platform::MacOs), HardwareAccel::VideoToolbox);
    assert_eq!(HardwareAccel::detect(Platform::Android), HardwareAccel::MediaCodec);
    assert_eq!(HardwareAccel::detect(Platform::Linux), HardwareAccel::Software);
    assert_eq!(HardwareAccel::detect(Platform::Other), HardwareAccel::Software);
    assert_eq!(VideoEncoderConfig::new(VideoQuality::P720, Platform::Android).hardware, HardwareAccel::MediaCodec);
    assert_eq!(VideoEncoderConfig::new(VideoQuality::P720, Platform::Linux).hardware, HardwareAccel::Software);
    assert_eq!(
        available_hardware_accels(Platform::MacOs),
        vec![HardwareAccel::Software, HardwareAccel::VideoToolbox]
    );
    assert_eq!(
        available_hardware_accels(Platform::Android),
        vec![HardwareAccel::Software, HardwareAccel::MediaCodec]
    );
    assert_eq!(available_hardware_accels(Platform::Linux), vec![HardwareAccel::Software]);
    // A decoder and a ladder take the platform's acceleration too.
    assert!(VideoDecoder::auto_detect(Platform::Ios).is_ok());
    assert!(QualityLadder::new(VideoQuality::P360, VideoCodec::H264, Platform::MacOs).is_ok());
}
