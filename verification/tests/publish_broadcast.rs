use moq_live::publish_broadcast::AudioQuality;
use moq_live::publish_broadcast::AudioTrackWriter;
use moq_live::publish_broadcast::EncodedAudioFrame;
use moq_live::publish_broadcast::EncodedVideoFrame;
use moq_live::publish_broadcast::FramePlacement;
use moq_live::publish_broadcast::PublishBroadcastBuilder;
use moq_live::publish_broadcast::PublishConfig;
use moq_live::publish_broadcast::VideoQuality;
use moq_live::publish_broadcast::VideoRenditions;
use moq_live::publish_broadcast::VideoTrackWriter;

#[test]
fn publish_broadcast_test_video_quality() {
    assert_eq!(VideoQuality::Low.height(), 480);
    assert_eq!(VideoQuality::Medium.height(), 720);
    assert_eq!(VideoQuality::High.height(), 1080);
}

#[test]
fn test_audio_quality() {
    assert_eq!(AudioQuality::Low.bitrate(), 32_000);
    assert_eq!(AudioQuality::Medium.bitrate(), 64_000);
    assert_eq!(AudioQuality::High.bitrate(), 128_000);
}

fn video(is_keyframe: bool, quality: VideoQuality) -> EncodedVideoFrame {
    EncodedVideoFrame { data: vec![0; 100], pts_us: 0, is_keyframe, quality }
}

#[test]
fn ninety_frames_make_three_groups_of_thirty() {
    let mut writer = VideoTrackWriter::new(VideoQuality::Medium);
    for i in 0..90u64 {
        let p = writer.write_frame(&video(i % 30 == 0, VideoQuality::Medium));
        assert_eq!(p, FramePlacement { starts_group: i % 30 == 0, group: i / 30, object: i % 30 });
    }
    assert_eq!(writer.stats(), (90, 9000));
}

#[test]
fn a_stream_that_starts_between_keyframes_still_opens_a_group() {
    let mut writer = VideoTrackWriter::new(VideoQuality::Low);
    let first = writer.write_frame(&video(false, VideoQuality::Low));
    assert_eq!(first, FramePlacement { starts_group: true, group: 0, object: 0 });
    let second = writer.write_frame(&video(false, VideoQuality::Low));
    assert_eq!(second, FramePlacement { starts_group: false, group: 0, object: 1 });
    let third = writer.write_frame(&video(true, VideoQuality::Low));
    assert_eq!(third, FramePlacement { starts_group: true, group: 1, object: 0 });
}

#[test]
fn audio_groups_hold_twenty_frames() {
    let mut writer = AudioTrackWriter::new(AudioQuality::High);
    for i in 0..45u64 {
        let frame = EncodedAudioFrame { data: vec![1, 2], pts_us: 0, quality: AudioQuality::High };
        let p = writer.write_frame(&frame);
        assert_eq!(p, FramePlacement { starts_group: i % 20 == 0, group: i / 20, object: i % 20 });
    }
    assert_eq!(writer.stats(), (45, 90));
}

#[test]
fn frames_go_to_the_rendition_of_their_quality() {
    let mut both = VideoRenditions::new(&[VideoQuality::Low, VideoQuality::Medium]);
    let (track, p) = both.write_frame(&video(true, VideoQuality::Medium)).unwrap();
    assert_eq!(track, 1);
    assert_eq!(p.group, 0);
    assert!(both.write_frame(&video(true, VideoQuality::High)).is_none());
    assert_eq!(both.primary().unwrap().stats(), (0, 0));
    // A single rendition takes every frame.
    let mut one = VideoRenditions::new(&[VideoQuality::Low]);
    let (track, _) = one.write_frame(&video(true, VideoQuality::High)).unwrap();
    assert_eq!(track, 0);
    assert_eq!(one.primary().unwrap().stats(), (1, 100));
    assert!(VideoRenditions::new(&[]).primary().is_none());
}

#[test]
fn names_and_priorities_of_renditions() {
    assert_eq!(VideoQuality::Medium.suffix(), "med");
    assert_eq!(VideoQuality::High.track_name(), "video.high");
    assert_eq!(AudioQuality::Low.track_name(), "audio.low");
    assert_eq!(AudioQuality::Medium.suffix(), "med");
    assert_eq!(VideoQuality::Low.bitrate(), 1_000_000);
    assert_eq!(VideoQuality::High.bitrate(), 5_000_000);
    assert!(VideoQuality::Low.object_priority() < VideoQuality::Medium.object_priority());
    assert!(VideoQuality::Medium.object_priority() < VideoQuality::High.object_priority());
    assert_eq!(VideoQuality::High.track_priority(), 0);
    assert_eq!(VideoQuality::Low.track_priority(), 2);
    assert_eq!(AudioQuality::Medium.track_priority(), 1);
}

#[test]
fn builder_sets_the_configuration() {
    let defaults = PublishConfig::default();
    assert_eq!(defaults.name, "broadcast");
    assert_eq!(defaults.video_qualities, vec![VideoQuality::Medium]);
    assert_eq!(defaults.audio_qualities, vec![AudioQuality::Medium]);
    let config = PublishBroadcastBuilder::new("cam")
        .video_qualities(vec![VideoQuality::Low, VideoQuality::High])
        .audio_qualities(vec![])
        .build();
    assert_eq!(config.name, "cam");
    assert_eq!(config.video_qualities, vec![VideoQuality::Low, VideoQuality::High]);
    assert!(config.audio_qualities.is_empty());
}

#[test]
fn a_keyframe_closes_the_group_before_it() {
    let mut writer = VideoTrackWriter::new(VideoQuality::Medium);
    assert!(writer.has_room_for(3));
    let first = writer.write_frame(&video(true, VideoQuality::Medium));
    assert_eq!(first.closes_group(), None);
    let second = writer.write_frame(&video(false, VideoQuality::Medium));
    assert_eq!(second.closes_group(), None);
    let third = writer.write_frame(&video(true, VideoQuality::Medium));
    assert_eq!(third, FramePlacement { starts_group: true, group: 1, object: 0 });
    assert_eq!(third.closes_group(), Some(0));
    let fourth = writer.write_frame(&video(true, VideoQuality::Medium));
    assert_eq!(fourth.closes_group(), Some(1));
}

#[test]
fn groups_begin_at_keyframes_whatever_their_spacing() {
    let mut writer = VideoTrackWriter::new(VideoQuality::Low);
    let flags = [false, false, true, false, true, true];
    let expected = [(true, 0, 0), (false, 0, 1), (true, 1, 0), (false, 1, 1), (true, 2, 0), (true, 3, 0)];
    for (flag, (starts_group, group, object)) in flags.iter().zip(expected.iter()) {
        let placed = writer.write_frame(&video(*flag, VideoQuality::Low));
        assert_eq!(placed, FramePlacement { starts_group: *starts_group, group: *group, object: *object });
    }
    assert_eq!(writer.stats().0, 6);
}
