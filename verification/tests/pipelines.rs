use moq_live::av::AudioCodec;
use moq_live::av::AudioPreset;
use moq_live::av::PlaybackConfig;
use moq_live::av::Quality;
use moq_live::av::VideoCodec;
use moq_live::av::VideoFormat;
use moq_live::av::VideoFrame;
use moq_live::av::VideoPreset;
use moq_live::live_protocol::select_version;
use moq_live::live_protocol::Coordinator;
use moq_live::live_protocol::PeerEvent;
use moq_live::publish::AudioInfo;
use moq_live::publish::AudioRendition;
use moq_live::publish::AudioRenditions;
use moq_live::publish::BroadcastCatalog;
use moq_live::publish::PublishBroadcast;
use moq_live::publish::PublishError;
use moq_live::publish::SimpleAudioEncoder;
use moq_live::publish::SimpleVideoEncoder;
use moq_live::publish::VideoInfo;
use moq_live::publish::VideoRendition;
use moq_live::publish::VideoRenditions;
use moq_live::streaming::ReceivedMessage;
use moq_live::streaming::StreamEvent;
use moq_live::streaming::StreamMessage;
use moq_live::streaming::StreamQuality;
use moq_live::subscribe::QualitySelector;
use moq_live::subscribe::SimpleAudioDecoder;
use moq_live::subscribe::SimpleVideoDecoder;
use moq_live::subscribe::SubscribeBroadcast;
use moq_live::subscribe::SubscribeError;
use moq_live::subscribe_broadcast::AudioBuffer;
use moq_live::subscribe_broadcast::AudioTrack;
use moq_live::subscribe_broadcast::ControlAction;
use moq_live::subscribe_broadcast::FrameBuffer;
use moq_live::subscribe_broadcast::FrameVerdict;
use moq_live::subscribe_broadcast::ReceivedVideoFrame;
use moq_live::subscribe_broadcast::SubscribeBroadcastBuilder;
use moq_live::subscribe_broadcast::SubscribeConfig;
use moq_live::subscribe_broadcast::Subscription;
use moq_live::subscribe_broadcast::WatchTrack;
use moq_live::webtransport::max_datagram_size;
use moq_live::webtransport::ErrorAction;
use moq_live::webtransport::HANDSHAKE_BUDGET_MS;
use moq_live::webtransport::ProtocolErrors;
use moq_live::webtransport::SessionError;
use moq_live::webtransport::SessionEvent;
use moq_live::webtransport::SessionLifecycle;
use moq_live::webtransport::SessionState;

#[test]
fn catalog_version_rises_with_every_change() {
    let mut publisher = PublishBroadcast::new();
    assert_eq!(publisher.catalog().version, 0);
    assert!(publisher.video_renditions().is_empty());
    assert_eq!(publisher.start_video_encoder("video-720p"), Err(PublishError::NoRenditions));
    publisher.set_video(Some(VideoRenditions::new(
        vec![VideoPreset::P720, VideoPreset::P180],
        VideoCodec::H264,
    )));
    let catalog = publisher.catalog();
    assert_eq!(catalog.version, 1);
    let video = catalog.video.unwrap();
    assert_eq!(video.priority, 1);
    assert_eq!(video.renditions[0].name, "video-720p");
    assert_eq!(video.renditions[0].config.coded_width, 1280);
    assert_eq!(video.renditions[1].config.bitrate, Some(300_000));
    assert_eq!(publisher.video_renditions(), vec!["video-720p", "video-180p"]);
    assert_eq!(publisher.start_video_encoder("video-180p"), Ok(()));
    assert_eq!(publisher.start_video_encoder("video-180p"), Ok(()));
    assert_eq!(publisher.start_video_encoder("video-360p"), Err(PublishError::RenditionNotFound));
    assert_eq!(publisher.active_video_encoders(), vec!["video-180p"]);
    publisher.set_audio(Some(AudioRenditions::new(vec![AudioPreset::Lq], AudioCodec::Opus)));
    assert_eq!(publisher.catalog().version, 2);
    assert_eq!(publisher.catalog().audio.unwrap().priority, 2);
    assert_eq!(publisher.audio_renditions(), vec!["audio-lq"]);
    assert_eq!(publisher.start_audio_encoder("audio-lq"), Ok(()));
    assert_eq!(publisher.start_audio_encoder("audio-hq"), Err(PublishError::RenditionNotFound));
    assert_eq!(publisher.active_audio_encoders(), vec!["audio-lq"]);
    // New renditions stop the encoders of their kind.
    publisher.set_video(None);
    assert_eq!(publisher.catalog().version, 3);
    assert!(publisher.catalog().video.is_none());
    assert!(publisher.active_video_encoders().is_empty());
    assert_eq!(publisher.active_audio_encoders(), vec!["audio-lq"]);
    let mut catalog = BroadcastCatalog::default();
    catalog.set_audio(None);
    catalog.set_video(None);
    assert_eq!(catalog.version, 2);
}

fn catalog(version: u32, video: &[&str], audio: &[&str]) -> BroadcastCatalog {
    let config = moq_live::av::VideoCatalogConfig::from_preset(VideoPreset::P720, VideoCodec::H264);
    let audio_config = moq_live::av::AudioCatalogConfig::from_preset(AudioPreset::Hq, AudioCodec::Opus);
    BroadcastCatalog {
        video: Some(VideoInfo {
            renditions: video
                .iter()
                .map(|n| VideoRendition { name: n.to_string(), config })
                .collect(),
            priority: 1,
        }),
        audio: Some(AudioInfo {
            renditions: audio
                .iter()
                .map(|n| AudioRendition { name: n.to_string(), config: audio_config })
                .collect(),
            priority: 2,
        }),
        version,
    }
}

#[test]
fn a_reader_keeps_the_newest_catalog() {
    let mut viewer = SubscribeBroadcast::new();
    assert!(viewer.update_catalog(catalog(5, &["video-720p"], &[])));
    assert!(!viewer.update_catalog(catalog(4, &["video-180p"], &[])));
    assert!(!viewer.update_catalog(catalog(5, &["video-180p"], &[])));
    assert_eq!(viewer.video_renditions(), vec!["video-720p"]);
    assert!(viewer.update_catalog(catalog(9, &["video-360p"], &["audio-hq"])));
    assert!(!viewer.update_catalog(catalog(8, &[], &[])));
    assert!(!viewer.update_catalog(catalog(0, &[], &[])));
    assert_eq!(viewer.catalog().version, 9);
    assert_eq!(viewer.video_renditions(), vec!["video-360p"]);
    assert_eq!(viewer.audio_renditions(), vec!["audio-hq"]);
    // The first catalog is taken whatever its version.
    assert!(SubscribeBroadcast::new().update_catalog(catalog(0, &[], &[])));
}

#[test]
fn a_viewer_watches_the_rendition_of_its_preference() {
    let mut viewer = SubscribeBroadcast::new();
    assert_eq!(viewer.watch(Quality::High).unwrap_err(), SubscribeError::NothingPublished);
    assert_eq!(viewer.listen(Quality::High).unwrap_err(), SubscribeError::NothingPublished);
    viewer.update_catalog(catalog(1, &["video-180p", "video-1080p", "thumb"], &["audio-lq"]));
    let selection = viewer.watch(Quality::High).unwrap();
    assert_eq!(selection.rendition, "video-180p");
    assert_eq!(viewer.current_video_track().as_deref(), Some("video-180p"));
    assert_eq!(viewer.watch(Quality::Highest).unwrap().rendition, "video-1080p");
    assert_eq!(viewer.listen(Quality::Highest).unwrap().rendition, "audio-lq");
    assert_eq!(viewer.current_audio_track().as_deref(), Some("audio-lq"));
    viewer.stop_watch();
    viewer.stop_listen();
    assert_eq!(viewer.current_video_track(), None);
    assert_eq!(viewer.current_audio_track(), None);
    // A name that stands for a preset under another track name has no entry.
    viewer.update_catalog(catalog(2, &["cam-720"], &["voice-hq"]));
    assert_eq!(viewer.watch(Quality::Low).unwrap_err(), SubscribeError::ConfigNotFound);
    assert_eq!(viewer.listen(Quality::Low).unwrap_err(), SubscribeError::ConfigNotFound);
    viewer.update_catalog(catalog(3, &["thumb"], &["voice"]));
    assert_eq!(viewer.watch(Quality::Low).unwrap_err(), SubscribeError::NoSuitableRendition);
    assert_eq!(viewer.listen(Quality::Mid).unwrap_err(), SubscribeError::NoSuitableRendition);
    viewer.set_playback_config(PlaybackConfig::default());
}

#[test]
fn framed_pictures_come_back_out_of_their_frame() {
    let mut encoder = SimpleVideoEncoder::new(VideoPreset::P360, VideoCodec::Vp8);
    let config = encoder.config();
    assert_eq!((config.coded_width, config.codec), (640, VideoCodec::Vp8));
    let decoder = SimpleVideoDecoder::new(&config, &PlaybackConfig::default());
    for i in 0..61u64 {
        let frame = VideoFrame::new(VideoFormat::rgba(640, 360), vec![i as u8; 5], i * 33_333);
        let packet = encoder.encode_frame(frame).unwrap();
        assert_eq!(packet.is_keyframe, i % 30 == 0);
        assert_eq!(packet.track_name, "video-360p");
        assert_eq!(packet.data.len(), 17 + 5);
        assert_eq!(packet.data[16], (i % 30 == 0) as u8);
        let picture = decoder.decode(&packet).unwrap();
        assert_eq!((picture.width, picture.height), (640, 360));
        assert_eq!(picture.data, vec![i as u8; 5]);
        assert_eq!(picture.timestamp_us, i * 33_333);
    }
    let mut header_only = encoder.encode_frame(VideoFrame::new(VideoFormat::rgba(1, 2), vec![], 7)).unwrap();
    assert_eq!(
        header_only.data,
        vec![1, 0, 0, 0, 2, 0, 0, 0, 7, 0, 0, 0, 0, 0, 0, 0, 0]
    );
    assert_eq!(decoder.decode(&header_only).unwrap().data, Vec::<u8>::new());
    header_only.data.pop();
    assert!(decoder.decode(&header_only).is_none());
    let mut d = decoder;
    d.set_viewport(3, 4);
    let audio = SimpleAudioEncoder::new(AudioPreset::Lq, AudioCodec::Aac).config();
    assert_eq!((audio.channel_count, audio.bitrate), (1, Some(32_000)));
    let _ = SimpleAudioDecoder::new(&audio);
}

#[test]
fn quality_follows_the_network() {
    let mut s = QualitySelector::new();
    assert_eq!(s.quality(), Quality::High);
    assert_eq!(QualitySelector::default().quality(), Quality::High);
    let table = [
        ((5000, 9_999, 99), Quality::Highest),
        ((5000, 10_000, 99), Quality::High),
        ((5000, 0, 100), Quality::High),
        ((4999, 0, 0), Quality::High),
        ((2500, 29_999, 199), Quality::High),
        ((2500, 30_000, 199), Quality::Mid),
        ((2499, 0, 0), Quality::Mid),
        ((800, 49_999, 299), Quality::Mid),
        ((800, 50_000, 0), Quality::Low),
        ((800, 0, 300), Quality::Low),
        ((799, 0, 0), Quality::Low),
        ((u32::MAX, 1_000_000, u32::MAX), Quality::Low),
    ];
    for ((bandwidth, loss, rtt), expected) in table {
        s.update_stats(bandwidth, loss, rtt);
        assert_eq!(s.quality(), expected, "{} {} {}", bandwidth, loss, rtt);
    }
    s.set_quality(Quality::Mid);
    assert_eq!(s.select_video(&[VideoPreset::P1080, VideoPreset::P180]), Some(VideoPreset::P180));
    assert_eq!(s.select_audio(&[AudioPreset::Hq]), Some(AudioPreset::Hq));
}

#[test]
fn a_switch_happens_at_the_keyframe_of_the_new_track() {
    let mut sub = Subscription::new("video.med");
    assert_eq!(sub.on_frame("video.med", true), FrameVerdict::Skip);
    sub.on_subscribe_ok();
    assert_eq!(sub.current_track().as_deref(), Some("video.med"));
    assert_eq!(sub.on_frame("video.med", true), FrameVerdict::Deliver { sequence: 1 });
    assert_eq!(sub.on_frame("video.low", true), FrameVerdict::Skip);
    assert_eq!(sub.on_frame("video.med", false), FrameVerdict::Deliver { sequence: 2 });
    assert_eq!(sub.request_rendition("video.med"), ControlAction::Nothing);
    assert_eq!(sub.request_rendition("video.low"), ControlAction::SendSubscribeUpdate);
    assert_eq!(sub.request_rendition("video.low"), ControlAction::Nothing);
    // Until the keyframe of the new track the old track goes on.
    assert_eq!(sub.on_frame("video.low", false), FrameVerdict::Skip);
    assert_eq!(sub.on_frame("video.med", false), FrameVerdict::Deliver { sequence: 3 });
    assert_eq!(sub.current_track().as_deref(), Some("video.med"));
    assert_eq!(sub.on_frame("video.low", true), FrameVerdict::DeliverAndSwitch { sequence: 4 });
    assert_eq!(sub.on_frame("video.med", true), FrameVerdict::Skip);
    assert_eq!(sub.on_frame("video.low", false), FrameVerdict::Deliver { sequence: 5 });
    assert_eq!(sub.frames_delivered(), 5);
    // A switch can be taken back, and its goal changed.
    assert_eq!(sub.request_rendition("video.high"), ControlAction::SendSubscribeUpdate);
    assert_eq!(sub.request_rendition("video.med"), ControlAction::SendSubscribeUpdate);
    assert_eq!(sub.request_rendition("video.low"), ControlAction::Nothing);
    assert_eq!(sub.on_frame("video.med", true), FrameVerdict::Skip);
    assert!(!sub.is_ended());
    assert_eq!(sub.on_done(), ControlAction::CloseOutput);
    assert_eq!(sub.on_done(), ControlAction::Nothing);
    assert_eq!(sub.stop(), ControlAction::Nothing);
    assert_eq!(sub.on_frame("video.low", true), FrameVerdict::Skip);
    assert_eq!(sub.request_rendition("video.med"), ControlAction::Nothing);
    assert_eq!(sub.current_track(), None);
    assert!(sub.is_ended());
    let mut stopped = Subscription::new("a");
    assert_eq!(stopped.stop(), ControlAction::SendUnsubscribe);
    assert_eq!(stopped.stop(), ControlAction::Nothing);
}

#[test]
fn a_full_buffer_holds_the_reader_back_and_drops_nothing() {
    let frame = |sequence| ReceivedVideoFrame { data: vec![], track: "t".into(), sequence };
    let mut buffer = FrameBuffer::new(2);
    assert!(buffer.offer(frame(1)).is_none());
    assert!(!buffer.is_full());
    assert!(buffer.offer(frame(2)).is_none());
    assert!(buffer.is_full());
    assert_eq!(buffer.offer(frame(3)).unwrap().sequence, 3);
    assert_eq!(buffer.len(), 2);
    assert_eq!(buffer.take().unwrap().sequence, 1);
    assert!(buffer.offer(frame(3)).is_none());
    assert_eq!(buffer.take().unwrap().sequence, 2);
    assert_eq!(buffer.take().unwrap().sequence, 3);
    assert!(buffer.take().is_none());
    assert!(FrameBuffer::new(0).offer(frame(1)).is_some());
}

#[test]
fn subscribe_configuration() {
    let c = SubscribeConfig::default();
    assert_eq!(c.buffer_size, 64);
    assert_eq!(c.video_track_name(), "video.med");
    assert_eq!(c.audio_track_name(), "audio.med");
    let c = c.with_video_quality("high").with_audio_quality("low").with_buffer_size(8);
    assert_eq!((c.video_track_name(), c.audio_track_name(), c.buffer_size),
        ("video.high".to_string(), "audio.low".to_string(), 8));
    let none = SubscribeConfig { video_quality: None, audio_quality: None, buffer_size: 1 };
    assert_eq!(none.video_track_name(), "video.med");
    assert_eq!(none.audio_track_name(), "audio.med");
}

#[test]
fn the_highest_common_version_is_chosen() {
    assert_eq!(select_version(&[1, 3, 2], &[2, 3, 7]), Some(3));
    assert_eq!(select_version(&[5, 1], &[1]), Some(1));
    assert_eq!(select_version(&[1, 2], &[3]), None);
    assert_eq!(select_version(&[], &[1]), None);
    assert_eq!(select_version(&[0, u32::MAX, 0], &[u32::MAX, 0]), Some(u32::MAX));
}

#[test]
fn peers_learn_of_broadcasts_at_once_or_on_connecting() {
    let mut c = Coordinator::new();
    assert!(c.handle_publish_broadcast("early").is_empty());
    let told = c.handle_incoming_session("alice").unwrap();
    assert_eq!(told.len(), 1);
    assert_eq!((told[0].peer.as_str(), told[0].broadcast.as_str()), ("alice", "early"));
    c.handle_incoming_session("bob").unwrap();
    let told = c.handle_publish_broadcast("late");
    let pairs: Vec<(&str, &str)> =
        told.iter().map(|a| (a.peer.as_str(), a.broadcast.as_str())).collect();
    assert_eq!(pairs, vec![("alice", "late"), ("bob", "late")]);
    assert!(c.is_published("late"));
    c.handle_remove_broadcast("early");
    assert!(!c.is_published("early"));
    assert_eq!(c.handle_incoming_session("carol").unwrap().len(), 1);
    assert_eq!(c.session_count(), 3);
    assert_eq!(c.handle_incoming_session("carol").unwrap().len(), 1);
    assert_eq!(c.session_count(), 3);
}

#[test]
fn a_lost_peer_ends_its_subscriptions_before_it_is_reported_gone() {
    let mut c = Coordinator::new();
    c.handle_incoming_session("alice").unwrap();
    let events = c.handle_session_closed("alice", &vec!["show".to_string(), "news".to_string()]);
    assert_eq!(
        events,
        vec![
            PeerEvent::SubscriptionEnded { broadcast: "show".into() },
            PeerEvent::SubscriptionEnded { broadcast: "news".into() },
            PeerEvent::PeerDisconnected { peer: "alice".into() },
        ]
    );
    assert_eq!(c.session_count(), 0);
    assert!(c.handle_session_closed("alice", &vec!["show".to_string()]).is_empty());
}

#[test]
fn shutdown_closes_every_session_and_refuses_new_ones() {
    let mut c = Coordinator::new();
    c.handle_incoming_session("alice").unwrap();
    c.handle_incoming_session("bob").unwrap();
    assert_eq!(c.shutdown(), vec!["alice", "bob"]);
    assert!(c.handle_incoming_session("carol").is_none());
    assert_eq!(c.session_count(), 0);
    assert!(c.shutdown().is_empty());
    assert_eq!(moq_live::live_protocol::SHUTDOWN_REASON, "shutdown");
    assert_eq!(moq_live::webtransport::CLOSE_CODE_SHUTDOWN, 0);
    assert_eq!(moq_live::webtransport::CLOSE_CODE_PROTOCOL, 1);
}

#[test]
fn a_session_closes_once() {
    let mut s = SessionLifecycle::new();
    assert_eq!(s.check_datagram(1, 1200), Err(SessionError::Closed));
    assert!(!s.on_event(SessionEvent::Connected));
    assert!(s.is_open());
    assert_eq!(s.check_datagram(1200, 1200), Ok(()));
    assert_eq!(s.check_datagram(1201, 1200), Err(SessionError::Datagram));
    assert!(!s.on_event(SessionEvent::Connected));
    assert!(!s.on_event(SessionEvent::CloseRequested));
    assert_eq!(s.state, SessionState::Draining);
    assert!(!s.on_event(SessionEvent::CloseRequested));
    assert!(s.on_event(SessionEvent::ConnectionLost));
    assert_eq!(s.state, SessionState::Closed);
    assert!(!s.on_event(SessionEvent::ConnectionLost));
    assert!(!s.on_event(SessionEvent::Connected));
    assert_eq!(s.state, SessionState::Closed);
    let mut dialing = SessionLifecycle::new();
    assert!(dialing.on_event(SessionEvent::CloseRequested));
    let mut lost = SessionLifecycle::new();
    assert!(lost.on_event(SessionEvent::ConnectionLost));
    assert_eq!(max_datagram_size(None), 1200);
    assert_eq!(max_datagram_size(Some(9)), 9);
}

#[test]
fn stream_presets_and_events() {
    assert_eq!(StreamQuality::Medium.video_constraints(), (854, 480, 24));
    assert_eq!(StreamQuality::Ultra.video_constraints(), (1920, 1080, 30));
    assert_eq!(StreamQuality::Low.audio_bitrate(), 32000);
    assert_eq!(StreamQuality::High.audio_bitrate(), 128000);
    let mut key = [0x66u8; 32];
    key[0] = 0x58;
    let from = moq_live::endpoint::EndpointId::from_bytes(&key).unwrap();
    let event = StreamEvent::from_received(ReceivedMessage {
        timestamp: 77,
        from,
        message: StreamMessage::MediaChunk { data: vec![1], sequence: 4 },
    });
    match event {
        StreamEvent::MediaChunk { from: f, data, sequence, timestamp } => {
            assert_eq!((f, data, sequence, timestamp), (from, vec![1], 4, 77));
        }
        other => panic!("{:?}", other),
    }
    let presence = StreamEvent::from_received(ReceivedMessage {
        timestamp: 1,
        from,
        message: StreamMessage::Presence { name: "n".into() },
    });
    assert!(matches!(presence, StreamEvent::Presence { sent_timestamp: 1, .. }));
    assert_eq!(moq_live::streaming::STREAM_PREFIX, "iroh-streaming/0:");
}

#[test]
fn a_repeated_protocol_error_closes_the_session() {
    let mut errors = ProtocolErrors::default();
    assert_eq!(errors.on_protocol_error(), ErrorAction::Report);
    assert_eq!(errors.on_protocol_error(), ErrorAction::CloseSession { code: 1 });
    assert_eq!(errors.on_protocol_error(), ErrorAction::CloseSession { code: 1 });
    let mut patient = ProtocolErrors::new(3);
    for _ in 0..3 {
        assert_eq!(patient.on_protocol_error(), ErrorAction::Report);
    }
    assert_eq!(patient.on_protocol_error(), ErrorAction::CloseSession { code: 1 });
    assert_eq!(patient.seen, 3);
    assert_eq!(ProtocolErrors::new(0).on_protocol_error(), ErrorAction::CloseSession { code: 1 });
}

#[test]
fn a_viewer_that_changes_its_rendition_switches_at_a_keyframe() {
    let mut viewer = SubscribeBroadcast::new();
    viewer.update_catalog(catalog(1, &["video-360p", "video-720p"], &[]));
    // Before anything is watched no frame is for the output.
    assert_eq!(viewer.on_video_frame("video-720p", true), FrameVerdict::Skip);
    assert_eq!(viewer.watch(Quality::Highest).unwrap().rendition, "video-720p");
    // The subscription waits for its answer.
    assert_eq!(viewer.on_video_frame("video-720p", true), FrameVerdict::Skip);
    viewer.on_video_subscribed();
    assert_eq!(viewer.on_video_frame("video-720p", true), FrameVerdict::Deliver { sequence: 1 });
    assert_eq!(viewer.on_video_frame("video-720p", false), FrameVerdict::Deliver { sequence: 2 });
    let low = viewer.watch(Quality::Low).unwrap();
    assert_eq!(low.rendition, "video-360p");
    assert_eq!(viewer.current_video_track().as_deref(), Some("video-360p"));
    // The old rendition goes on until the first keyframe of the new one.
    assert_eq!(viewer.on_video_frame("video-360p", false), FrameVerdict::Skip);
    assert_eq!(viewer.on_video_frame("video-720p", false), FrameVerdict::Deliver { sequence: 3 });
    assert_eq!(viewer.on_video_frame("video-720p", true), FrameVerdict::Deliver { sequence: 4 });
    assert_eq!(viewer.on_video_frame("video-360p", true), FrameVerdict::DeliverAndSwitch { sequence: 5 });
    assert_eq!(viewer.on_video_frame("video-720p", true), FrameVerdict::Skip);
    assert_eq!(viewer.on_video_frame("video-360p", false), FrameVerdict::Deliver { sequence: 6 });
    assert_eq!(viewer.video_frames_delivered(), 6);
    // Choosing what is delivered changes nothing.
    viewer.watch(Quality::Low).unwrap();
    assert_eq!(viewer.on_video_frame("video-360p", false), FrameVerdict::Deliver { sequence: 7 });
    // After watching has stopped a new choice starts from the beginning.
    viewer.stop_watch();
    assert_eq!(viewer.on_video_frame("video-360p", true), FrameVerdict::Skip);
    viewer.watch(Quality::Highest).unwrap();
    viewer.on_video_subscribed();
    assert_eq!(viewer.on_video_frame("video-720p", false), FrameVerdict::Deliver { sequence: 1 });
    // A catalog that is no newer than the held one is not taken.
    assert!(!viewer.update_catalog(catalog(1, &["thumb"], &[])));
    assert!(!viewer.update_catalog(catalog(0, &["thumb"], &[])));
    assert_eq!(viewer.catalog().version, 1);
    assert!(viewer.catalog().video.unwrap().renditions.iter().any(|r| r.name == "video-720p"));
    assert!(viewer.update_catalog(catalog(2, &["thumb"], &[])));
    assert_eq!(viewer.catalog().version, 2);
}

#[test]
fn a_track_reader_numbers_what_it_hands_on_and_waits_for_room() {
    let mut reader = WatchTrack::new("video.med".to_string());
    assert_eq!(reader.rendition(), "video.med");
    let mut output = FrameBuffer::new(3);
    assert_eq!(reader.send(&mut output, vec![1]), None);
    // A group of four frames finds room for two.
    let waiting = reader.run(&mut output, vec![vec![2], vec![3], vec![4], vec![5]]);
    assert_eq!(waiting, vec![vec![4], vec![5]]);
    assert_eq!(reader.frame_count(), 3);
    // A full output takes nothing, and no number is used.
    assert_eq!(reader.send(&mut output, vec![4]), Some(vec![4]));
    assert_eq!(reader.run(&mut output, waiting.clone()), waiting);
    assert_eq!(reader.frame_count(), 3);
    let mut seen: Vec<(Vec<u8>, String, u64)> = Vec::new();
    while let Some(f) = output.take() {
        seen.push((f.data, f.track, f.sequence));
    }
    assert_eq!(
        seen,
        vec![
            (vec![1], "video.med".to_string(), 1),
            (vec![2], "video.med".to_string(), 2),
            (vec![3], "video.med".to_string(), 3),
        ]
    );
    // With room again the frames that waited go on with the next numbers.
    assert!(reader.run(&mut output, waiting).is_empty());
    assert_eq!(output.take().unwrap().sequence, 4);
    let last = output.take().unwrap();
    assert_eq!((last.data, last.sequence), (vec![5], 5));
    assert!(reader.run(&mut output, vec![]).is_empty());
    assert_eq!(reader.frame_count(), 5);
}

#[test]
fn an_audio_reader_numbers_its_frames_as_a_video_reader_does() {
    let mut reader = AudioTrack::new("audio.med".to_string());
    assert_eq!(reader.rendition(), "audio.med");
    let mut output = AudioBuffer::new(2);
    let waiting = reader.run(&mut output, vec![vec![1], vec![2], vec![3]]);
    assert_eq!(waiting, vec![vec![3]]);
    assert_eq!(reader.frame_count(), 2);
    assert!(output.is_full());
    let first = output.take().unwrap();
    assert_eq!((first.data, first.track, first.sequence), (vec![1], "audio.med".to_string(), 1));
    assert!(reader.run(&mut output, waiting).is_empty());
    assert_eq!(output.len(), 2);
    assert_eq!(output.take().unwrap().sequence, 2);
    let last = output.take().unwrap();
    assert_eq!((last.data, last.sequence), (vec![3], 3));
    assert!(output.take().is_none());
}

#[test]
fn a_handshake_that_takes_its_whole_budget_closes_the_session() {
    assert_eq!(HANDSHAKE_BUDGET_MS, 30_000);
    let mut s = SessionLifecycle::new();
    assert!(!s.on_clock(1_000, 1_000));
    assert!(!s.on_clock(1_000, 30_999));
    // A clock that went back closes nothing.
    assert!(!s.on_clock(1_000, 0));
    assert_eq!(s.state, SessionState::Dialing);
    assert!(s.on_clock(1_000, 31_000));
    assert_eq!(s.state, SessionState::Closed);
    assert!(!s.on_clock(1_000, 99_000));
    // An open session has no handshake to wait for.
    let mut open = SessionLifecycle::new();
    open.on_event(SessionEvent::Connected);
    assert!(!open.on_clock(0, 1_000_000));
    assert!(open.is_open());
}

#[test]
fn a_subscriber_is_configured_step_by_step() {
    let plain = SubscribeBroadcastBuilder::new().build();
    assert_eq!(plain.video_track_name(), "video.med");
    assert_eq!(plain.audio_track_name(), "audio.med");
    assert_eq!(plain.buffer_size, 64);
    let built = SubscribeBroadcastBuilder::new()
        .video_quality("high")
        .audio_quality("low")
        .buffer_size(8)
        .build();
    assert_eq!(built.video_track_name(), "video.high");
    assert_eq!(built.audio_track_name(), "audio.low");
    assert_eq!(built.buffer_size, 8);
}
