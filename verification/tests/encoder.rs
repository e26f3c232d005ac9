use moq_live::ffmpeg_encoder::choose_backend;
use moq_live::ffmpeg_encoder::needs_rescale;
use moq_live::ffmpeg_encoder::packet_timestamp_ns;
use moq_live::ffmpeg_encoder::pop_packet;
use moq_live::ffmpeg_encoder::push_frame;
use moq_live::ffmpeg_encoder::receive_packet;
use moq_live::ffmpeg_encoder::EncoderOpts;
use moq_live::ffmpeg_encoder::H264Profile;
use moq_live::ffmpeg_encoder::HwBackend;
use moq_live::ffmpeg_encoder::PacketOutcome;
use moq_live::ffmpeg_encoder::PacketStep;
use moq_live::ffmpeg_encoder::Platform;

#[test]
fn hardware_is_tried_before_software() {
    assert_eq!(HwBackend::candidates(Platform::MacOs), vec![HwBackend::Videotoolbox, HwBackend::Software]);
    assert_eq!(HwBackend::candidates(Platform::Linux), vec![HwBackend::Mediacodec, HwBackend::Software]);
    assert_eq!(HwBackend::candidates(Platform::Android), vec![HwBackend::Mediacodec, HwBackend::Software]);
    assert_eq!(HwBackend::candidates(Platform::Other), vec![HwBackend::Software]);
    assert_eq!(HwBackend::candidates(Platform::Ios), vec![HwBackend::Software]);
    assert_eq!(HwBackend::Software.codec_name(), "libx264");
    assert_eq!(HwBackend::Videotoolbox.codec_name(), "h264_videotoolbox");
    assert_eq!(HwBackend::Mediacodec.codec_name(), "h264_mediacodec");
    let candidates = HwBackend::candidates(Platform::MacOs);
    assert_eq!(choose_backend(&candidates, &vec![true, true]), Some(HwBackend::Videotoolbox));
    assert_eq!(choose_backend(&candidates, &vec![false, true]), Some(HwBackend::Software));
    assert_eq!(choose_backend(&candidates, &vec![false, false]), None);
    assert_eq!(choose_backend(&vec![], &vec![]), None);
}

#[test]
fn options_of_the_backends() {
    let pairs = |b: HwBackend| -> Vec<(&str, &str)> { b.options().iter().map(|o| (o.key, o.value)).collect() };
    assert_eq!(
        pairs(HwBackend::Software),
        vec![("annexB", "0"), ("preset", "ultrafast"), ("tune", "zerolatency"), ("profile", "baseline")]
    );
    assert_eq!(pairs(HwBackend::Videotoolbox), vec![("annexB", "0")]);
    assert_eq!(pairs(HwBackend::Mediacodec), vec![("annexB", "0")]);
}

#[test]
fn an_encoder_describes_its_track() {
    let opts = EncoderOpts { width: 1280, height: 720, framerate: 30, bitrate: 1_935_360 };
    let config = opts.video_config(vec![1, 2, 3]);
    assert_eq!(config.codec, H264Profile { profile: 0x42, constraints: 0xE0, level: 0x1E });
    assert_eq!(config.description, Some(vec![1, 2, 3]));
    assert_eq!((config.coded_width, config.coded_height), (Some(1280), Some(720)));
    assert_eq!((config.display_ratio_width, config.display_ratio_height), (None, None));
    assert_eq!(config.bitrate, Some(1_935_360));
    assert_eq!(config.framerate, Some(30));
    assert_eq!(config.optimize_for_latency, Some(true));
    assert_eq!(opts.gop_size(), 30);
}

#[test]
fn packets_carry_the_time_of_the_frames_taken() {
    assert_eq!(packet_timestamp_ns(0, 30), 0);
    assert_eq!(packet_timestamp_ns(30, 30), 1_000_000_000);
    assert_eq!(packet_timestamp_ns(1, 24), 41_666_666);
    assert_eq!(packet_timestamp_ns(7, 15), 466_666_666);
    match receive_packet(PacketOutcome::Packet { payload: vec![9, 8], is_key: true }, 45, 30) {
        PacketStep::Ready(frame) => {
            assert_eq!(frame.payload, vec![9, 8]);
            assert_eq!(frame.timestamp_ns, 1_500_000_000);
            assert!(frame.keyframe);
        }
        other => panic!("{other:?}"),
    }
    assert!(matches!(receive_packet(PacketOutcome::Eof, 1, 30), PacketStep::Finished));
    assert!(matches!(receive_packet(PacketOutcome::Again, 1, 30), PacketStep::Pending));
    assert!(matches!(receive_packet(PacketOutcome::Failed, 1, 30), PacketStep::Failed));
    let ready = receive_packet(PacketOutcome::Packet { payload: vec![1], is_key: false }, 3, 30);
    assert_eq!(pop_packet(ready).unwrap().unwrap().timestamp_ns, 100_000_000);
    assert!(pop_packet(PacketStep::Pending).unwrap().is_none());
    assert!(pop_packet(PacketStep::Finished).unwrap().is_none());
    assert!(pop_packet(PacketStep::Failed).is_err());
}

#[test]
fn a_picture_is_converted_only_where_it_differs() {
    assert!(!needs_rescale(true, (640, 360), None));
    assert!(!needs_rescale(true, (640, 360), Some((640, 360))));
    assert!(needs_rescale(true, (640, 360), Some((640, 361))));
    assert!(needs_rescale(true, (640, 360), Some((320, 360))));
    assert!(needs_rescale(false, (640, 360), None));
    assert!(needs_rescale(false, (640, 360), Some((640, 360))));
}

#[test]
fn rows_are_laid_a_stride_apart() {
    let raw: Vec<u8> = (1..=16).collect();
    assert_eq!(push_frame(&raw, 2, 2, 8), raw);
    assert_eq!(
        push_frame(&raw, 2, 2, 12),
        vec![1, 2, 3, 4, 5, 6, 7, 8, 0, 0, 0, 0, 9, 10, 11, 12, 13, 14, 15, 16, 0, 0, 0, 0]
    );
    // A row that the raw picture does not hold whole stays empty.
    assert_eq!(
        push_frame(&raw[..15], 2, 2, 10),
        vec![1, 2, 3, 4, 5, 6, 7, 8, 0, 0, 0, 0, 0, 0, 0, 0, 0, 0, 0, 0]
    );
    assert_eq!(push_frame(&[], 1, 2, 4), vec![0; 8]);
    assert!(push_frame(&raw, 2, 0, 8).is_empty());
    assert_eq!(push_frame(&raw, 0, 2, 3), vec![0; 6]);
    // What the raw picture holds beyond its rows is left out.
    assert_eq!(push_frame(&raw, 1, 2, 4), vec![1, 2, 3, 4, 5, 6, 7, 8]);
}
