use moq_live::ffmpeg::EncodedVideoFrame as CodecFrame;
use moq_live::ffmpeg::VideoCodec;
use moq_live::live_streaming::VideoQuality as LiveQuality;
use moq_live::moq_protocol::FilterType;
use moq_live::moq_protocol::FullTrackName;
use moq_live::moq_protocol::MoqObject;
use moq_live::moq_protocol::Namespace;
use moq_live::moq_protocol::ObjectStatus;
use moq_live::moq_protocol::PriorityScheduler;
use moq_live::moq_protocol::SubscriptionParams;
use moq_live::moq_protocol::TrackStore;
use moq_live::publish_broadcast::EncodedVideoFrame;
use moq_live::publish_broadcast::VideoQuality;
use moq_live::publish_broadcast::VideoTrackWriter;
use moq_live::subscribe_broadcast::FrameVerdict;
use moq_live::subscribe_broadcast::Subscription;

/// A publisher with one rendition of 1280 by 720 and one viewer at the live
/// edge: ninety frames with a keyframe every thirty.
#[test]
fn single_viewer_sees_three_groups_of_thirty_frames() {
    let quality = VideoQuality::Medium;
    assert_eq!(quality.track_name(), "video.med");
    assert_eq!(quality.height(), 720);
    let track = FullTrackName::new(Namespace::from_str("show"), "video.med");
    let mut store = TrackStore::new(60_000, 10);
    store.get_or_create_track(&track);
    let mut writer = VideoTrackWriter::new(quality);
    let mut viewer = Subscription::new("video.med");
    viewer.on_subscribe_ok();
    let mut seen: Vec<(u64, u64, bool)> = Vec::new();
    for i in 0..90u64 {
        let is_keyframe = i % 30 == 0;
        let frame = EncodedVideoFrame { data: vec![i as u8; 10], pts_us: (i * 33_333) as i64, is_keyframe, quality };
        let place = writer.write_frame(&frame);
        if place.starts_group {
            assert_eq!(store.start_group_at(&track, 1000 + i), place.group);
        }
        let object = store.add_object_at(&track, place.group, 0, frame.data.clone(), 1000 + i).unwrap();
        assert_eq!((object.group_id, object.object_id), (place.group, place.object));
        match viewer.on_frame("video.med", is_keyframe) {
            FrameVerdict::Deliver { sequence } => assert_eq!(sequence, i + 1),
            other => panic!("{other:?}"),
        }
        seen.push((object.group_id, object.object_id, is_keyframe));
    }
    // The first frame that the viewer is handed is a keyframe.
    assert!(seen[0].2);
    for group in 0..3u64 {
        let ids: Vec<u64> = seen.iter().filter(|s| s.0 == group).map(|s| s.1).collect();
        assert_eq!(ids, (0..30).collect::<Vec<u64>>());
    }
    assert!(seen.iter().all(|s| s.0 < 3));
    // A viewer that joins now is answered the latest group, in order.
    let latest = store.get_objects_at(&SubscriptionParams::new(track.clone()).with_priority(64), 2000);
    let frames: Vec<&MoqObject> = latest.iter().filter(|o| o.status == ObjectStatus::Normal).collect();
    assert_eq!(frames.len(), 30);
    assert!(frames.iter().all(|o| o.group_id == 2));
    assert_eq!(frames.iter().map(|o| o.object_id).collect::<Vec<u64>>(), (0..30).collect::<Vec<u64>>());
    assert_eq!(frames[0].payload, vec![60u8; 10]);
    // Everything from the start is still retained.
    let all = store.get_objects_at(
        &SubscriptionParams::new(track).with_filter(FilterType::AbsoluteStart { start_group: 0, start_object: 0 }),
        2000,
    );
    assert_eq!(all.iter().filter(|o| o.status == ObjectStatus::Normal).count(), 90);
}

/// The viewer does not read for half a second while the publisher goes on
/// at thirty frames a second: what the scheduler cannot hold leaves from
/// the far end of the queue, and a keyframe that has not expired stays.
#[test]
fn a_paused_viewer_loses_interframes_before_keyframes() {
    let frame = |index: u64, is_keyframe: bool| CodecFrame {
        data: vec![0; 4],
        pts_us: 0,
        dts_us: 0,
        is_keyframe,
        duration_us: 33_333,
        frame_index: index,
        codec: VideoCodec::H264,
        quality: LiveQuality::P720,
    };
    let mut scheduler = PriorityScheduler::new(8);
    let mut keyframes = 0;
    for i in 0..15u64 {
        let now = i * 33;
        let f = frame(i, i % 5 == 0);
        keyframes += f.is_keyframe as usize;
        let object = MoqObject::new_at(i / 5, 0, i % 5, f.data.clone(), now)
            .with_priority(f.moq_priority())
            .with_ttl(f.moq_ttl_ms());
        // Deliveries are ordered by the priority that the subscriber gives them.
        scheduler.enqueue(object, f.moq_priority());
    }
    assert_eq!(keyframes, 3);
    assert_eq!(scheduler.queue_len(), 8);
    // The viewer reads again after 500 milliseconds.
    let mut out: Vec<(u64, u64, u8)> = Vec::new();
    while let Some(o) = scheduler.dequeue_at(500) {
        out.push((o.group_id, o.object_id, o.publisher_priority));
    }
    // The three keyframes come first and in order; five interframes are left of twelve.
    assert_eq!(&out[..3], &[(0, 0, 0), (1, 0, 0), (2, 0, 0)]);
    assert_eq!(out.len(), 8);
    assert!(out[3..].iter().all(|o| o.2 == 128));
    assert_eq!(out[3..].iter().map(|o| (o.0, o.1)).collect::<Vec<_>>(), vec![(0, 1), (0, 2), (0, 3), (0, 4), (1, 1)]);
    // Under pressure the publisher drops the less urgent first.
    let mut pressed = PriorityScheduler::new(8);
    for i in 0..6u64 {
        let f = frame(i, i == 0);
        pressed.enqueue(MoqObject::new_at(0, 0, i, vec![], 0).with_ttl(f.moq_ttl_ms()), f.moq_priority());
    }
    assert_eq!(pressed.drop_low_priority(127), 5);
    assert_eq!(pressed.dequeue_at(4999).unwrap().object_id, 0);
    // An interframe lives 2 seconds, a keyframe 5.
    let mut late = PriorityScheduler::new(8);
    late.enqueue(MoqObject::new_at(0, 0, 0, vec![], 0).with_ttl(frame(0, true).moq_ttl_ms()), 0);
    late.enqueue(MoqObject::new_at(0, 0, 1, vec![], 0).with_ttl(frame(1, false).moq_ttl_ms()), 128);
    assert_eq!(late.dequeue_at(2001).unwrap().object_id, 0);
    assert!(late.dequeue_at(2001).is_none());
}
