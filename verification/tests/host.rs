use moq_live::direct_flutter_api::DirectHost;
use moq_live::direct_flutter_api::DirectHostError;
use moq_live::direct_flutter_api::FlutterDirectEvent;
use moq_live::direct_streaming::DirectMessage;
use moq_live::direct_streaming::DirectStreamEvent;
use moq_live::direct_streaming::DirectStreamTicket;
use moq_live::endpoint::EndpointId;
use moq_live::ffmpeg::AudioCodec;
use moq_live::ffmpeg::EncodedVideoFrame;
use moq_live::ffmpeg::HardwareAccel;
use moq_live::ffmpeg::VideoCodec;
use moq_live::ffmpeg_encoder::Platform;
use moq_live::ffmpeg_flutter_api::ffmpeg_detect_hardware;
use moq_live::ffmpeg_flutter_api::ffmpeg_get_audio_bitrate;
use moq_live::ffmpeg_flutter_api::ffmpeg_get_audio_mime_type;
use moq_live::ffmpeg_flutter_api::ffmpeg_get_quality_dimensions;
use moq_live::ffmpeg_flutter_api::ffmpeg_get_recommended_bitrate;
use moq_live::ffmpeg_flutter_api::ffmpeg_get_version;
use moq_live::ffmpeg_flutter_api::ffmpeg_get_video_mime_type;
use moq_live::ffmpeg_flutter_api::ffmpeg_is_available;
use moq_live::ffmpeg_flutter_api::ffmpeg_list_audio_codecs;
use moq_live::ffmpeg_flutter_api::ffmpeg_list_hardware_accels;
use moq_live::ffmpeg_flutter_api::ffmpeg_list_video_codecs;
use moq_live::ffmpeg_flutter_api::FlutterAudioCodec;
use moq_live::ffmpeg_flutter_api::FlutterEncodedVideoFrame;
use moq_live::ffmpeg_flutter_api::FlutterHardwareAccel;
use moq_live::ffmpeg_flutter_api::FlutterVideoCodec;
use moq_live::ffmpeg_flutter_api::FlutterVideoQualityFfmpeg;
use moq_live::flutter_api::get_quality_constraints;
use moq_live::flutter_api::FlutterStreamEvent;
use moq_live::flutter_api::Quality;
use moq_live::flutter_api::QualityConstraints;
use moq_live::flutter_api::StreamHost;
use moq_live::flutter_api::StreamHostError;
use moq_live::iroh_live::EndpointAddress;
use moq_live::iroh_live::LiveNode;
use moq_live::iroh_live::SocketAddress;
use moq_live::iroh_live_flutter_api::generate_color_bars;
use moq_live::iroh_live_flutter_api::generate_moving_box;
use moq_live::iroh_live_flutter_api::iroh_catalog_create;
use moq_live::iroh_live_flutter_api::iroh_catalog_to_json;
use moq_live::iroh_live_flutter_api::iroh_get_audio_presets;
use moq_live::iroh_live_flutter_api::iroh_get_features;
use moq_live::iroh_live_flutter_api::iroh_get_supported_audio_codecs;
use moq_live::iroh_live_flutter_api::iroh_get_supported_video_codecs;
use moq_live::iroh_live_flutter_api::iroh_get_version;
use moq_live::iroh_live_flutter_api::iroh_get_video_presets;
use moq_live::iroh_live_flutter_api::iroh_is_codec_hw_accelerated;
use moq_live::iroh_live_flutter_api::iroh_publish_create;
use moq_live::iroh_live_flutter_api::iroh_publish_get_status;
use moq_live::iroh_live_flutter_api::iroh_publish_push_audio;
use moq_live::iroh_live_flutter_api::iroh_publish_push_video;
use moq_live::iroh_live_flutter_api::iroh_publish_remove;
use moq_live::iroh_live_flutter_api::iroh_publish_set_video_renditions;
use moq_live::iroh_live_flutter_api::iroh_publish_start;
use moq_live::iroh_live_flutter_api::iroh_publish_stop;
use moq_live::iroh_live_flutter_api::iroh_subscribe_connect;
use moq_live::iroh_live_flutter_api::iroh_subscribe_create;
use moq_live::iroh_live_flutter_api::iroh_subscribe_disconnect;
use moq_live::iroh_live_flutter_api::iroh_subscribe_get_status;
use moq_live::iroh_live_flutter_api::iroh_subscribe_remove;
use moq_live::iroh_live_flutter_api::iroh_subscribe_set_quality;
use moq_live::iroh_live_flutter_api::iroh_subscribe_simulate_video_receive;
use moq_live::iroh_live_flutter_api::iroh_ticket_parse;
use moq_live::iroh_live_flutter_api::CaptureState;
use moq_live::iroh_live_flutter_api::FlutterAudioSamples;
use moq_live::iroh_live_flutter_api::FlutterVideoFrame;
use moq_live::live_flutter_api::convert_direct_event;
use moq_live::live_flutter_api::create_live_ticket;
use moq_live::live_flutter_api::endpoint_from_hex;
use moq_live::live_flutter_api::get_all_video_qualities;
use moq_live::live_flutter_api::get_quality_bitrate;
use moq_live::live_flutter_api::get_quality_dimensions;
use moq_live::live_flutter_api::parse_live_ticket;
use moq_live::live_flutter_api::ticket_address;
use moq_live::live_flutter_api::FlutterCatalog;
use moq_live::live_flutter_api::FlutterConnectionStats;
use moq_live::live_flutter_api::FlutterLiveEvent;
use moq_live::live_flutter_api::FlutterVideoQuality;
use moq_live::live_flutter_api::FlutterVideoTrack;
use moq_live::live_streaming::BroadcastCatalog;
use moq_live::live_streaming::ConnectionStats;
use moq_live::live_streaming::LiveTicket;
use moq_live::live_streaming::TicketError;
use moq_live::live_streaming::VideoQuality;
use moq_live::live_streaming::VideoTrackConfig;
use moq_live::moq_flutter_api::host_scheduler;
use moq_live::moq_flutter_api::host_track_store;
use moq_live::moq_flutter_api::moq_add_object;
use moq_live::moq_flutter_api::moq_announce_namespace;
use moq_live::moq_flutter_api::moq_create_end_of_group;
use moq_live::moq_flutter_api::moq_create_end_of_track;
use moq_live::moq_flutter_api::moq_create_track;
use moq_live::moq_flutter_api::moq_create_track_path;
use moq_live::moq_flutter_api::moq_dequeue_object;
use moq_live::moq_flutter_api::moq_drop_low_priority;
use moq_live::moq_flutter_api::moq_enqueue_object;
use moq_live::moq_flutter_api::moq_fetch;
use moq_live::moq_flutter_api::moq_get_filter_types;
use moq_live::moq_flutter_api::moq_get_group_orders;
use moq_live::moq_flutter_api::moq_get_namespace;
use moq_live::moq_flutter_api::moq_get_priority_info;
use moq_live::moq_flutter_api::moq_get_queue_length;
use moq_live::moq_flutter_api::moq_get_stats;
use moq_live::moq_flutter_api::moq_get_track_status;
use moq_live::moq_flutter_api::moq_list_namespaces;
use moq_live::moq_flutter_api::moq_namespace_is_prefix;
use moq_live::moq_flutter_api::moq_parse_track_path;
use moq_live::moq_flutter_api::moq_start_group;
use moq_live::moq_flutter_api::moq_subscribe;
use moq_live::moq_flutter_api::moq_subscribe_latest_group;
use moq_live::moq_flutter_api::moq_subscribe_live;
use moq_live::moq_flutter_api::moq_subscribe_namespace;
use moq_live::moq_flutter_api::moq_subscribe_range;
use moq_live::moq_flutter_api::FlutterFilterType;
use moq_live::moq_flutter_api::FlutterGroupOrder;
use moq_live::moq_flutter_api::FlutterObjectStatus;
use moq_live::moq_flutter_api::FlutterTrackStatusCode;
use moq_live::moq_protocol::FilterType;
use moq_live::moq_protocol::GroupOrder;
use moq_live::moq_protocol::NamespaceManager;
use moq_live::streaming::StreamEvent;
use moq_live::streaming::StreamMessage;
use moq_live::streaming::StreamQuality;
use moq_live::text::decimal_string;

fn base_point() -> [u8; 32] {
    let mut key = [0x66u8; 32];
    key[0] = 0x58;
    key
}

fn base_point_hex() -> String {
    format!("58{}", "66".repeat(31))
}

fn no_key() -> [u8; 32] {
    (0..=255u8)
        .map(|k| {
            let mut bytes = [0u8; 32];
            bytes[0] = k;
            bytes
        })
        .find(|bytes| EndpointId::from_bytes(bytes).is_err())
        .unwrap()
}

#[test]
fn codec_names_cross_the_bridge_unchanged() {
    assert_eq!(VideoCodec::from(FlutterVideoCodec::VP9), VideoCodec::VP9);
    assert_eq!(FlutterVideoCodec::from(VideoCodec::AV1), FlutterVideoCodec::AV1);
    assert_eq!(AudioCodec::from(FlutterAudioCodec::Opus), AudioCodec::Opus);
    assert_eq!(FlutterAudioCodec::from(AudioCodec::MP3), FlutterAudioCodec::MP3);
    assert_eq!(HardwareAccel::from(FlutterHardwareAccel::QSV), HardwareAccel::QSV);
    assert_eq!(FlutterHardwareAccel::from(HardwareAccel::Software), FlutterHardwareAccel::Software);
    assert_eq!(VideoQuality::from(FlutterVideoQualityFfmpeg::P360), VideoQuality::P360);
    assert_eq!(ffmpeg_detect_hardware(Platform::Other), FlutterHardwareAccel::Software);
    assert_eq!(ffmpeg_detect_hardware(Platform::Ios), FlutterHardwareAccel::VideoToolbox);
    assert_eq!(ffmpeg_detect_hardware(Platform::Android), FlutterHardwareAccel::MediaCodec);
}

#[test]
fn codec_listings() {
    assert!(!ffmpeg_is_available());
    assert_eq!(ffmpeg_get_version(), None);
    assert_eq!(ffmpeg_list_hardware_accels(Platform::Other), vec!["None".to_string()]);
    assert_eq!(ffmpeg_list_hardware_accels(Platform::MacOs), vec!["None", "VideoToolbox"]);
    assert_eq!(ffmpeg_list_hardware_accels(Platform::Android), vec!["None", "MediaCodec"]);
    assert_eq!(ffmpeg_list_video_codecs(), vec!["H264", "H265", "VP8", "VP9", "AV1"]);
    assert_eq!(ffmpeg_list_audio_codecs(), vec!["AAC", "Opus", "MP3"]);
    assert_eq!(ffmpeg_get_video_mime_type(FlutterVideoCodec::H264), "video/avc");
    assert_eq!(ffmpeg_get_video_mime_type(FlutterVideoCodec::H265), "video/hevc");
    assert_eq!(ffmpeg_get_audio_mime_type(FlutterAudioCodec::MP3), "audio/mpeg");
    assert_eq!(ffmpeg_get_recommended_bitrate(FlutterVideoQualityFfmpeg::P720), 2500);
    assert_eq!(ffmpeg_get_quality_dimensions(FlutterVideoQualityFfmpeg::P180), (320, 180));
    assert_eq!(ffmpeg_get_audio_bitrate(FlutterAudioCodec::Opus, true), 96);
    assert_eq!(ffmpeg_get_audio_bitrate(FlutterAudioCodec::AAC, false), 64);
}

#[test]
fn encoded_frame_carries_priority_and_ttl() {
    let frame = |is_keyframe: bool| EncodedVideoFrame {
        data: vec![1, 2, 3],
        pts_us: 10,
        dts_us: 9,
        is_keyframe,
        duration_us: 33_333,
        frame_index: 4,
        codec: VideoCodec::H264,
        quality: VideoQuality::P720,
    };
    let key = FlutterEncodedVideoFrame::from(frame(true));
    assert_eq!((key.moq_priority, key.moq_ttl_ms), (0, 5000));
    assert_eq!(key.data, vec![1, 2, 3]);
    assert_eq!((key.pts_us, key.dts_us, key.duration_us, key.frame_index), (10, 9, 33_333, 4));
    assert_eq!(key.codec, FlutterVideoCodec::H264);
    let inter = FlutterEncodedVideoFrame::from(frame(false));
    assert_eq!((inter.moq_priority, inter.moq_ttl_ms), (128, 2000));
}

#[test]
fn host_creates_tracks_and_adds_objects() {
    let mut store = host_track_store();
    assert!(moq_get_track_status(&store, "live/cam/video").is_none());
    let status = moq_create_track(&mut store, "live/cam/video");
    assert_eq!(status.track_path, "live/cam/video");
    assert_eq!(status.status, FlutterTrackStatusCode::Active);
    assert_eq!(status.group_order, FlutterGroupOrder::Ascending);
    assert_eq!(status.publisher_priority, 128);
    assert_eq!(status.latest_group_id, None);
    // A group of a track that is not stored is not started.
    assert_eq!(moq_start_group(&mut store, "live/cam/audio", 1000), 0);
    assert!(moq_get_track_status(&store, "live/cam/audio").is_none());
    assert_eq!(moq_start_group(&mut store, "live/cam/video", 1000), 0);
    let copy =
        moq_add_object(&mut store, "live/cam/video", 0, 2, vec![9, 9], Some(7), Some(500), 1000).unwrap();
    assert_eq!((copy.group_id, copy.subgroup_id, copy.object_id), (0, 2, 0));
    assert_eq!(copy.publisher_priority, 7);
    assert_eq!(copy.expires_at, Some(1500));
    assert_eq!(copy.status, FlutterObjectStatus::Normal);
    assert_eq!(copy.payload, vec![9, 9]);
    assert!(!copy.is_expired);
    // What is stored keeps the default priority and does not expire.
    let stored = moq_subscribe_latest_group(&store, "live/cam/video", 5000);
    assert_eq!(stored.len(), 1);
    assert_eq!(stored[0].publisher_priority, 128);
    assert_eq!(stored[0].expires_at, None);
    assert!(!stored[0].is_expired);
    assert!(moq_add_object(&mut store, "live/cam/video", 3, 0, vec![], None, None, 1000).is_none());
    assert!(moq_add_object(&mut store, "nowhere", 0, 0, vec![], None, None, 1000).is_none());
    assert_eq!(moq_start_group(&mut store, "live/cam/video", 1001), 1);
    let status = moq_get_track_status(&store, "live/cam/video").unwrap();
    assert_eq!(status.track_path, "live/cam/video");
}

fn ten_groups() -> moq_live::moq_protocol::TrackStore {
    let mut store = host_track_store();
    moq_create_track(&mut store, "bc/video");
    for g in 0..10u64 {
        assert_eq!(moq_start_group(&mut store, "bc/video", 100 + g), g);
        for o in 0..10u8 {
            let copy = moq_add_object(&mut store, "bc/video", g, 0, vec![o], None, None, 100 + g).unwrap();
            assert_eq!(copy.object_id, o as u64);
        }
    }
    store
}

#[test]
fn host_range_and_fetch_give_the_same_objects() {
    let store = ten_groups();
    let range = moq_subscribe_range(&store, "bc/video", 3, 5, 5, None, 200);
    let keys: Vec<(u64, u64)> = range.iter().map(|o| (o.group_id, o.object_id)).collect();
    let mut expected: Vec<(u64, u64)> = (5..10).map(|o| (3, o)).collect();
    expected.extend((0..10).map(|o| (4, o)));
    expected.extend((0..10).map(|o| (5, o)));
    assert_eq!(keys, expected);
    let fetched = moq_fetch(&store, "bc/video", 3, 5, 5, None, Some(3), 200);
    let fetched_keys: Vec<(u64, u64)> = fetched.iter().map(|o| (o.group_id, o.object_id)).collect();
    assert_eq!(fetched_keys, expected);
    assert!(moq_fetch(&store, "bc/none", 3, 5, 5, None, None, 200).is_empty());
    let bounded = moq_subscribe_range(&store, "bc/video", 3, 8, 4, Some(1), 200);
    let bounded_keys: Vec<(u64, u64)> = bounded.iter().map(|o| (o.group_id, o.object_id)).collect();
    assert_eq!(bounded_keys, vec![(3, 8), (3, 9), (4, 0), (4, 1)]);
}

#[test]
fn host_subscriptions_follow_the_filters() {
    let store = ten_groups();
    let latest = moq_subscribe_latest_group(&store, "bc/video", 200);
    assert_eq!(latest.len(), 10);
    assert!(latest.iter().all(|o| o.group_id == 9));
    assert!(moq_subscribe_live(&store, "bc/video", 200).is_empty());
    let descending = moq_subscribe(
        &store,
        "bc/video",
        FlutterFilterType::AbsoluteStart { start_group: 8, start_object: 9 },
        FlutterGroupOrder::Descending,
        1,
        200,
    );
    assert_eq!(descending.len(), 11);
    assert_eq!((descending[0].group_id, descending[0].object_id), (9, 9));
    assert_eq!((descending[10].group_id, descending[10].object_id), (8, 9));
    assert_eq!(
        FilterType::from(FlutterFilterType::AbsoluteRange {
            start_group: 1,
            start_object: 2,
            end_group: 3,
            end_object: Some(4)
        }),
        FilterType::AbsoluteRange { start_group: 1, start_object: 2, end_group: 3, end_object: Some(4) }
    );
    assert_eq!(GroupOrder::from(FlutterGroupOrder::PublisherDefault), GroupOrder::PublisherDefault);
}

#[test]
fn host_scheduler_orders_and_expires() {
    let mut scheduler = host_scheduler();
    moq_enqueue_object(&mut scheduler, 0, 0, 0, vec![1], 128, 200, None, 100);
    moq_enqueue_object(&mut scheduler, 0, 0, 1, vec![2], 128, 10, Some(50), 100);
    moq_enqueue_object(&mut scheduler, 0, 0, 2, vec![3], 5, 90, Some(10), 100);
    assert_eq!(moq_get_queue_length(&scheduler), 3);
    let first = moq_dequeue_object(&mut scheduler, 120).unwrap();
    // The third delivery has expired at 120; the second is the most urgent.
    assert_eq!(first.object_id, 1);
    assert_eq!(first.expires_at, Some(150));
    assert!(!first.is_expired);
    assert_eq!(moq_get_queue_length(&scheduler), 1);
    moq_enqueue_object(&mut scheduler, 0, 0, 3, vec![4], 128, 100, None, 130);
    moq_enqueue_object(&mut scheduler, 0, 0, 4, vec![5], 128, 101, None, 130);
    assert_eq!(moq_drop_low_priority(&mut scheduler, 100), 2);
    let next = moq_dequeue_object(&mut scheduler, 130).unwrap();
    assert_eq!(next.object_id, 3);
    assert_eq!(next.publisher_priority, 128);
    assert!(moq_dequeue_object(&mut scheduler, 130).is_none());
}

#[test]
fn host_namespaces() {
    let mut manager = NamespaceManager::new();
    moq_announce_namespace(&mut manager, "live/cam", vec!["video".to_string(), "audio".to_string()], true);
    moq_announce_namespace(&mut manager, "files", vec![], false);
    let under = moq_subscribe_namespace(&manager, "live");
    assert_eq!(under.len(), 1);
    assert_eq!(under[0].namespace_path, "live/cam");
    assert_eq!(under[0].tracks, vec!["video", "audio"]);
    assert!(under[0].accepts_publishing);
    assert!(moq_subscribe_namespace(&manager, "live/cam/video").is_empty());
    let all = moq_list_namespaces(&manager);
    assert_eq!(all.len(), 2);
    assert_eq!(all[1].namespace_path, "files");
    assert!(!all[1].accepts_publishing);
    assert_eq!(moq_get_namespace(&manager, "files").unwrap().namespace_path, "files");
    assert!(moq_get_namespace(&manager, "live").is_none());
    let scheduler = host_scheduler();
    let stats = moq_get_stats(&scheduler, &manager);
    assert_eq!((stats.scheduler_queue_length, stats.namespace_count), (0, 2));
}

#[test]
fn host_paths_and_names() {
    assert_eq!(moq_parse_track_path("a/b/c"), ("a/b".to_string(), "c".to_string()));
    assert_eq!(moq_create_track_path("a/b", "c"), "a/b/c");
    assert!(moq_namespace_is_prefix("a", "a/b"));
    assert!(moq_namespace_is_prefix("a/b", "a/b"));
    assert!(!moq_namespace_is_prefix("a/b", "a"));
    assert!(!moq_namespace_is_prefix("a/x", "a/b/c"));
    assert_eq!(moq_get_priority_info(), (0, 255, 128));
    assert_eq!(
        moq_get_filter_types(),
        vec!["LatestGroup", "LatestObject", "NextGroup", "AbsoluteStart", "AbsoluteRange"]
    );
    assert_eq!(moq_get_group_orders(), vec!["Ascending", "Descending", "PublisherDefault"]);
    let end = moq_create_end_of_group(4, 9);
    assert_eq!((end.group_id, end.subgroup_id, end.object_id), (4, 0, u64::MAX));
    assert_eq!(end.status, FlutterObjectStatus::EndOfGroup);
    assert!(end.payload.is_empty());
    assert_eq!(end.created_at, 9);
    assert_eq!(moq_create_end_of_track(4, 9).status, FlutterObjectStatus::EndOfTrack);
}

#[test]
fn live_events_for_the_host() {
    let message = |message: DirectMessage| DirectStreamEvent::Message {
        from: "peer".to_string(),
        message,
        timestamp: 5,
    };
    match convert_direct_event(DirectStreamEvent::PeerConnected { endpoint_id: "a".to_string() }) {
        FlutterLiveEvent::PeerConnected { peer_id } => assert_eq!(peer_id, "a"),
        other => panic!("{other:?}"),
    }
    match convert_direct_event(DirectStreamEvent::PeerDisconnected { endpoint_id: "a".to_string() }) {
        FlutterLiveEvent::PeerDisconnected { peer_id } => assert_eq!(peer_id, "a"),
        other => panic!("{other:?}"),
    }
    match convert_direct_event(message(DirectMessage::RequestMetadata)) {
        FlutterLiveEvent::MetadataRequested { from } => assert_eq!(from, "peer"),
        other => panic!("{other:?}"),
    }
    match convert_direct_event(message(DirectMessage::Metadata {
        file_name: "v.mp4".to_string(),
        file_size: 1_000_000,
        mime_type: "video/mp4".to_string(),
        total_chunks: 10,
        duration_ms: Some(1500),
    })) {
        FlutterLiveEvent::MetadataReceived { from, file_name, file_size, mime_type, total_chunks, duration_ms } => {
            assert_eq!(from, "peer");
            assert_eq!(file_name, "v.mp4");
            assert_eq!(file_size, 1_000_000);
            assert_eq!(mime_type, "video/mp4");
            assert_eq!(total_chunks, 10);
            assert_eq!(duration_ms, Some(1500));
        }
        other => panic!("{other:?}"),
    }
    match convert_direct_event(message(DirectMessage::RequestChunk { index: 3 })) {
        FlutterLiveEvent::ChunkRequested { from, index } => assert_eq!((from.as_str(), index), ("peer", 3)),
        other => panic!("{other:?}"),
    }
    match convert_direct_event(message(DirectMessage::Chunk { index: 3, data: vec![7] })) {
        FlutterLiveEvent::ChunkReceived { from, index, data } => {
            assert_eq!((from.as_str(), index, data), ("peer", 3, vec![7]))
        }
        other => panic!("{other:?}"),
    }
    match convert_direct_event(message(DirectMessage::Presence { name: "n".to_string() })) {
        FlutterLiveEvent::PeerConnected { peer_id } => assert_eq!(peer_id, "peer"),
        other => panic!("{other:?}"),
    }
    match convert_direct_event(message(DirectMessage::Signal { data: vec![1] })) {
        FlutterLiveEvent::Error { message } => assert_eq!(message, "Received unknown signal"),
        other => panic!("{other:?}"),
    }
    match convert_direct_event(DirectStreamEvent::Error { message: "bad".to_string() }) {
        FlutterLiveEvent::Error { message } => assert_eq!(message, "bad"),
        other => panic!("{other:?}"),
    }
}

#[test]
fn live_tickets_from_hexadecimal() {
    let id = EndpointId::from_bytes(&base_point()).unwrap();
    assert_eq!(id.to_text(), base_point_hex());
    let text = create_live_ticket("mystream", &base_point_hex()).unwrap();
    assert_eq!(text, LiveTicket::new("mystream", id).serialize());
    assert!(text.starts_with("mystream@"));
    // Capitals are read as well.
    assert_eq!(create_live_ticket("mystream", &base_point_hex().to_uppercase()).unwrap(), text);
    assert_eq!(endpoint_from_hex(&base_point_hex()).unwrap(), id);
    assert_eq!(parse_live_ticket(&text).unwrap(), ("mystream".to_string(), base_point_hex()));
    assert_eq!(create_live_ticket("s", "zz").unwrap_err(), TicketError::InvalidEncoding);
    assert_eq!(create_live_ticket("s", "abc").unwrap_err(), TicketError::InvalidEncoding);
    assert_eq!(create_live_ticket("s", "abcd").unwrap_err(), TicketError::InvalidLength);
    assert_eq!(create_live_ticket("s", "").unwrap_err(), TicketError::InvalidLength);
    let bad: String = no_key().iter().map(|b| format!("{b:02x}")).collect();
    assert_eq!(create_live_ticket("s", &bad).unwrap_err(), TicketError::InvalidKey);
    assert_eq!(parse_live_ticket("no separator").unwrap_err(), TicketError::MissingSeparator);
}

#[test]
fn ticket_text_in_either_form_gives_an_address() {
    let id = EndpointId::from_bytes(&base_point()).unwrap();
    let short = LiveTicket::new("stream", id).serialize();
    let addr = ticket_address(&short).unwrap();
    assert_eq!(addr.id, id);
    assert!(addr.relay_urls.is_empty());
    assert!(addr.ip_addrs.is_empty());
    let reach = EndpointAddress {
        id,
        relay_urls: vec!["https://relay.example.org/".to_string()],
        ip_addrs: vec![SocketAddress::V4 { ip: 0x7f00_0001, port: 4433 }],
    };
    let direct = DirectStreamTicket::new(&reach).serialize().unwrap();
    let addr = ticket_address(&direct).unwrap();
    assert_eq!(addr, reach);
    assert_eq!(ticket_address("stream@mfrgg").unwrap_err(), TicketError::InvalidLength);
    assert_eq!(ticket_address("stream@abc").unwrap_err(), TicketError::InvalidEncoding);
    assert_eq!(ticket_address("not base32!").unwrap_err(), TicketError::InvalidEncoding);
}

#[test]
fn live_copies_for_the_host() {
    assert_eq!(VideoQuality::from(FlutterVideoQuality::P1080), VideoQuality::P1080);
    assert_eq!(FlutterVideoQuality::from(VideoQuality::P180), FlutterVideoQuality::P180);
    assert_eq!(get_quality_dimensions(FlutterVideoQuality::P720), (1280, 720));
    assert_eq!(get_quality_bitrate(FlutterVideoQuality::P1080), 5000);
    assert_eq!(
        get_all_video_qualities(),
        vec![
            FlutterVideoQuality::P180,
            FlutterVideoQuality::P360,
            FlutterVideoQuality::P720,
            FlutterVideoQuality::P1080
        ]
    );
    let track = FlutterVideoTrack::from_track(&VideoTrackConfig::new(VideoQuality::P720, "h264"));
    assert_eq!(track.name, "video-720p");
    assert_eq!(track.quality, FlutterVideoQuality::P720);
    assert_eq!(track.codec, "h264");
    assert_eq!((track.width, track.height, track.fps, track.bitrate_kbps), (1280, 720, 30, 2500));
    let mut catalog = BroadcastCatalog::new_at("test", 10);
    catalog.description = Some("about".to_string());
    catalog.duration_ms = Some(90_000);
    catalog.add_video_track_at(VideoTrackConfig::new(VideoQuality::P720, "h264"), 11);
    catalog.add_video_track_at(VideoTrackConfig::new(VideoQuality::P180, "h264"), 12);
    let copy = FlutterCatalog::from_catalog(&catalog);
    assert_eq!(copy.name, "test");
    assert_eq!(copy.description.as_deref(), Some("about"));
    assert_eq!(copy.duration_ms, Some(90_000));
    assert_eq!(copy.is_live, catalog.is_live);
    let names: Vec<&str> = copy.video_tracks.iter().map(|t| t.name.as_str()).collect();
    assert_eq!(names, vec!["video-720p", "video-180p"]);
    let mut stats = ConnectionStats::new();
    stats.bandwidth_bps = 6_000_000;
    stats.bytes_sent = 7;
    stats.rtt_ms = 20;
    let copy = FlutterConnectionStats::from_stats(&stats);
    assert_eq!(copy.bytes_sent, 7);
    assert_eq!(copy.bandwidth_bps, 6_000_000);
    assert_eq!(copy.rtt_ms, 20);
    assert_eq!(copy.quality_score, stats.quality_score);
    assert_eq!(copy.recommended_quality, FlutterVideoQuality::from(stats.recommended_quality()));
    assert_eq!(copy.recommended_quality, FlutterVideoQuality::P720);
}

#[test]
fn direct_host_rejects_commands_before_it_is_started() {
    let mut host = DirectHost::new();
    assert!(!host.is_direct_streaming_initialized());
    assert_eq!(host.get_direct_endpoint_id().unwrap_err(), DirectHostError::NotInitialized);
    assert_eq!(host.direct_request_metadata().unwrap_err(), DirectHostError::NotInitialized);
    assert_eq!(host.direct_send_chunk(0, vec![1]).unwrap_err(), DirectHostError::NotInitialized);
    assert_eq!(host.direct_request_chunk(0).unwrap_err(), DirectHostError::NotInitialized);
    assert_eq!(host.direct_send_presence("n".to_string()).unwrap_err(), DirectHostError::NotInitialized);
    assert_eq!(host.direct_send_signal(vec![]).unwrap_err(), DirectHostError::NotInitialized);
    assert_eq!(
        host.direct_send_metadata("f".to_string(), 1, "m".to_string(), 1, None).unwrap_err(),
        DirectHostError::NotInitialized
    );
    assert_eq!(host.join_direct_stream("x").unwrap_err(), DirectHostError::NotInitialized);
    assert_eq!(host.get_direct_peer_count(3), 0);
    assert!(!host.leave_direct_stream());
    assert_eq!(DirectHostError::NotInitialized.message(), "Direct streaming not initialized");
    assert_eq!(DirectHostError::TicketTooLarge.message(), "Ticket too large");
    assert_eq!(DirectHostError::InvalidTicket(TicketError::InvalidKey).message(), "Invalid ticket");
}

#[test]
fn direct_host_commands_after_start() {
    let mut host = DirectHost::new();
    assert_eq!(host.init_direct_streaming("first"), "first");
    assert_eq!(host.init_direct_streaming("second"), "first");
    assert!(host.is_direct_streaming_initialized());
    assert_eq!(host.get_direct_endpoint_id().unwrap(), "first");
    assert_eq!(host.get_direct_peer_count(3), 3);
    assert_eq!(host.direct_request_metadata().unwrap(), DirectMessage::RequestMetadata);
    assert_eq!(host.direct_request_chunk(4).unwrap(), DirectMessage::RequestChunk { index: 4 });
    assert_eq!(host.direct_send_chunk(4, vec![1]).unwrap(), DirectMessage::Chunk { index: 4, data: vec![1] });
    assert_eq!(
        host.direct_send_presence("n".to_string()).unwrap(),
        DirectMessage::Presence { name: "n".to_string() }
    );
    assert_eq!(host.direct_send_signal(vec![2]).unwrap(), DirectMessage::Signal { data: vec![2] });
    assert_eq!(
        host.direct_send_metadata("v.mp4".to_string(), 9, "video/mp4".to_string(), 3, Some(1)).unwrap(),
        DirectMessage::Metadata {
            file_name: "v.mp4".to_string(),
            file_size: 9,
            mime_type: "video/mp4".to_string(),
            total_chunks: 3,
            duration_ms: Some(1),
        }
    );
    let id = EndpointId::from_bytes(&base_point()).unwrap();
    let reach =
        EndpointAddress { id, relay_urls: vec![], ip_addrs: vec![SocketAddress::V6 { ip: 1, port: 9 }] };
    let ticket = host.create_direct_stream(&reach).unwrap();
    assert_eq!(host.join_direct_stream(&ticket).unwrap(), reach);
    assert_eq!(
        host.join_direct_stream("???").unwrap_err(),
        DirectHostError::InvalidTicket(TicketError::InvalidEncoding)
    );
    host.push_event(DirectStreamEvent::PeerConnected { endpoint_id: "p".to_string() });
    host.push_event(DirectStreamEvent::Message {
        from: "p".to_string(),
        message: DirectMessage::Chunk { index: 1, data: vec![5] },
        timestamp: 77,
    });
    let events = host.poll_direct_events();
    assert_eq!(events.len(), 2);
    match &events[0] {
        FlutterDirectEvent::PeerConnected { endpoint_id } => assert_eq!(endpoint_id, "p"),
        other => panic!("{other:?}"),
    }
    match &events[1] {
        FlutterDirectEvent::Chunk { from, index, data, timestamp } => {
            assert_eq!((from.as_str(), *index, data.as_slice(), *timestamp), ("p", 1, &[5u8][..], 77))
        }
        other => panic!("{other:?}"),
    }
    assert!(host.poll_direct_events().is_empty());
    host.push_event(DirectStreamEvent::Error { message: "e".to_string() });
    assert!(host.shutdown_direct_streaming());
    assert!(host.poll_direct_events().is_empty());
    assert!(!host.is_direct_streaming_initialized());
}

#[test]
fn stream_host_life() {
    let mut host = StreamHost::new();
    assert!(!host.is_streaming_initialized());
    assert!(!host.is_connected_to_stream());
    assert_eq!(host.get_endpoint_id().unwrap_err(), StreamHostError::NotInitialized);
    assert_eq!(host.join_stream().unwrap_err(), StreamHostError::NotInitialized);
    assert_eq!(host.send_signal(vec![1]).unwrap_err(), StreamHostError::NotConnected);
    assert_eq!(host.init_streaming_node("node"), "node");
    assert_eq!(host.init_streaming_node("other"), "node");
    assert_eq!(host.get_endpoint_id().unwrap(), "node");
    assert_eq!(host.broadcast_chunk(vec![1], 2).unwrap_err(), StreamHostError::NotConnected);
    assert_eq!(host.send_presence("n".to_string()).unwrap_err(), StreamHostError::NotConnected);
    host.join_stream().unwrap();
    assert!(host.is_connected_to_stream());
    assert_eq!(
        host.broadcast_chunk(vec![1], 2).unwrap(),
        StreamMessage::MediaChunk { data: vec![1], sequence: 2 }
    );
    assert_eq!(host.send_presence("n".to_string()).unwrap(), StreamMessage::Presence { name: "n".to_string() });
    assert_eq!(host.send_signal(vec![3]).unwrap(), StreamMessage::Signal { data: vec![3] });
    let id = EndpointId::from_bytes(&base_point()).unwrap();
    host.push_event(StreamEvent::NeighborUp { endpoint_id: id });
    host.push_event(StreamEvent::MediaChunk { from: id, data: vec![8], sequence: 4, timestamp: 6 });
    host.push_error("lost".to_string());
    let events = host.poll_events();
    assert_eq!(events.len(), 3);
    match &events[0] {
        FlutterStreamEvent::NeighborUp { endpoint_id } => assert_eq!(*endpoint_id, base_point_hex()),
        other => panic!("{other:?}"),
    }
    match &events[1] {
        FlutterStreamEvent::MediaChunk { from, data, sequence, timestamp } => {
            assert_eq!(*from, base_point_hex());
            assert_eq!((data.as_slice(), *sequence, *timestamp), (&[8u8][..], 4, 6));
        }
        other => panic!("{other:?}"),
    }
    match &events[2] {
        FlutterStreamEvent::Error { message } => assert_eq!(message, "lost"),
        other => panic!("{other:?}"),
    }
    assert!(host.poll_events().is_empty());
    host.push_event(StreamEvent::Lagged);
    host.leave_stream();
    assert!(!host.is_connected_to_stream());
    assert!(host.is_streaming_initialized());
    assert!(host.poll_events().is_empty());
    assert!(host.shutdown_streaming());
    assert!(!host.shutdown_streaming());
    assert_eq!(StreamHostError::NotInitialized.message(), "Streaming node not initialized");
    assert_eq!(StreamHostError::NotConnected.message(), "Not connected to a stream");
}

#[test]
fn stream_events_name_endpoints_in_hexadecimal() {
    let id = EndpointId::from_bytes(&base_point()).unwrap();
    match FlutterStreamEvent::from_event(StreamEvent::Presence {
        from: id,
        name: "ann".to_string(),
        sent_timestamp: 12,
    }) {
        FlutterStreamEvent::Presence { from, name, timestamp } => {
            assert_eq!(from, base_point_hex());
            assert_eq!(name, "ann");
            assert_eq!(timestamp, 12);
        }
        other => panic!("{other:?}"),
    }
    match FlutterStreamEvent::from_event(StreamEvent::Signal { from: id, data: vec![1, 2], timestamp: 3 }) {
        FlutterStreamEvent::Signal { from, data, timestamp } => {
            assert_eq!(from.len(), 64);
            assert_eq!((data, timestamp), (vec![1, 2], 3));
        }
        other => panic!("{other:?}"),
    }
    assert!(matches!(
        FlutterStreamEvent::from_event(StreamEvent::NeighborDown { endpoint_id: id }),
        FlutterStreamEvent::NeighborDown { .. }
    ));
    assert!(matches!(FlutterStreamEvent::from_event(StreamEvent::Lagged), FlutterStreamEvent::Lagged));
}

#[test]
fn quality_constraints_of_each_preset() {
    assert_eq!(
        get_quality_constraints(Quality::Low),
        QualityConstraints { width: 640, height: 360, framerate: 15, audio_bitrate: 32000 }
    );
    assert_eq!(
        get_quality_constraints(Quality::Medium),
        QualityConstraints { width: 854, height: 480, framerate: 24, audio_bitrate: 64000 }
    );
    assert_eq!(
        get_quality_constraints(Quality::High),
        QualityConstraints { width: 1280, height: 720, framerate: 30, audio_bitrate: 128000 }
    );
    assert_eq!(
        get_quality_constraints(Quality::Ultra),
        QualityConstraints { width: 1920, height: 1080, framerate: 30, audio_bitrate: 192000 }
    );
    assert_eq!(StreamQuality::from(Quality::Ultra), StreamQuality::Ultra);
}

#[test]
fn node_presets_and_features() {
    let video = iroh_get_video_presets();
    let rows: Vec<(&str, u32, u32, u32, u32, &str)> = video
        .iter()
        .map(|r| (r.name.as_str(), r.width, r.height, r.fps, r.bitrate, r.codec.as_str()))
        .collect();
    assert_eq!(
        rows,
        vec![
            ("P180", 320, 180, 15, 150_000, "h264"),
            ("P360", 640, 360, 30, 500_000, "h264"),
            ("P720", 1280, 720, 30, 2_000_000, "h264"),
            ("P1080", 1920, 1080, 30, 4_500_000, "h264"),
        ]
    );
    let audio = iroh_get_audio_presets();
    let rows: Vec<(&str, u32, u16, u32, &str)> = audio
        .iter()
        .map(|r| (r.name.as_str(), r.sample_rate, r.channels, r.bitrate, r.codec.as_str()))
        .collect();
    assert_eq!(
        rows,
        vec![
            ("opus_lq", 24000, 1, 24_000, "opus"),
            ("opus_hq", 48000, 2, 128_000, "opus"),
            ("aac_hq", 44100, 2, 192_000, "aac"),
        ]
    );
    assert_eq!(iroh_get_supported_video_codecs(), vec!["h264", "h265", "vp8", "vp9", "av1"]);
    assert_eq!(iroh_get_supported_audio_codecs(), vec!["opus", "aac", "pcm"]);
    assert!(iroh_is_codec_hw_accelerated("h264"));
    assert!(iroh_is_codec_hw_accelerated("vp9"));
    assert!(!iroh_is_codec_hw_accelerated("av1"));
    assert!(!iroh_is_codec_hw_accelerated("H264"));
    assert_eq!(iroh_get_version(), "0.1.0");
    let features = iroh_get_features();
    assert_eq!(features.len(), 10);
    let off: Vec<&str> = features.iter().filter(|f| !f.enabled).map(|f| f.name.as_str()).collect();
    assert_eq!(off, vec!["screen_capture"]);
    assert_eq!(features[9].name, "p2p_quic");
}

#[test]
fn node_catalog_and_its_summary() {
    let catalog = iroh_catalog_create(
        "b1".to_string(),
        &vec!["P720".to_string(), "weird".to_string()],
        &vec!["opus_hq".to_string(), "mp3".to_string(), "my_opus_x".to_string()],
        1234,
    );
    assert_eq!(catalog.broadcast_id, "b1");
    assert_eq!(catalog.created_at_ms, 1234);
    let video: Vec<(&str, &str, &str, u32)> = catalog
        .video_tracks
        .iter()
        .map(|t| (t.track_id.as_str(), t.name.as_str(), t.codec.as_str(), t.bitrate))
        .collect();
    assert_eq!(
        video,
        vec![("video_P720", "P720", "h264", 2_000_000), ("video_weird", "weird", "h264", 1_000_000)]
    );
    let audio: Vec<(&str, &str, &str, u32)> = catalog
        .audio_tracks
        .iter()
        .map(|t| (t.track_id.as_str(), t.name.as_str(), t.codec.as_str(), t.bitrate))
        .collect();
    assert_eq!(
        audio,
        vec![
            ("audio_opus_hq", "opus_hq", "opus", 128_000),
            ("audio_mp3", "mp3", "aac", 64_000),
            ("audio_my_opus_x", "my_opus_x", "opus", 64_000),
        ]
    );
    assert!(catalog.video_tracks.iter().all(|t| t.extra.is_empty()));
    assert_eq!(
        iroh_catalog_to_json(&catalog),
        "{\"broadcast_id\":\"b1\",\"video_tracks_count\":2,\"audio_tracks_count\":3,\"created_at_ms\":1234}"
    );
}

#[test]
fn node_ticket_for_display() {
    let id = EndpointId::from_bytes(&base_point()).unwrap();
    let text = LiveTicket::new("show", id).serialize();
    let info = iroh_ticket_parse(text.clone()).unwrap();
    assert_eq!(info.broadcast_name, "show");
    assert_eq!(info.endpoint_id, base_point_hex());
    assert_eq!(info.ticket_string, text);
    let bare = moq_live::iroh_live::LiveTicket::new(id, "").serialize();
    assert!(iroh_ticket_parse(bare).is_some());
    assert!(iroh_ticket_parse("show@nothing".to_string()).is_none());
}

#[test]
fn decimal_text_of_numbers() {
    assert_eq!(decimal_string(0), "0");
    assert_eq!(decimal_string(7), "7");
    assert_eq!(decimal_string(10), "10");
    assert_eq!(decimal_string(1_234_567_890), "1234567890");
    assert_eq!(decimal_string(u64::MAX), "18446744073709551615");
}

#[test]
fn capture_devices_and_test_pictures() {
    let mut capture = CaptureState::new();
    assert!(capture.iroh_capture_list_devices().is_empty());
    assert!(!capture.iroh_capture_start("camera_back".to_string()));
    assert!(capture.iroh_capture_init());
    let devices = capture.iroh_capture_list_devices();
    let ids: Vec<(&str, &str, bool)> =
        devices.iter().map(|d| (d.id.as_str(), d.device_type.as_str(), d.is_default)).collect();
    assert_eq!(
        ids,
        vec![
            ("camera_front", "camera", true),
            ("camera_back", "camera", false),
            ("test_pattern_color_bars", "test_pattern", false),
            ("test_pattern_gradient", "test_pattern", false),
            ("test_pattern_moving_box", "test_pattern", false),
        ]
    );
    assert_eq!(devices[4].name, "Moving Box Test Pattern");
    assert!(!capture.iroh_capture_start("nope".to_string()));
    assert_eq!(capture.iroh_capture_current_device(), None);
    assert!(capture.iroh_capture_start("camera_back".to_string()));
    assert_eq!(capture.iroh_capture_current_device().as_deref(), Some("camera_back"));
    let first = capture.iroh_capture_get_test_frame(8, 2, "color_bars").unwrap();
    assert_eq!((first.width, first.height, first.timestamp_ms), (8, 2, 33));
    assert_eq!(first.format, "rgba");
    assert_eq!(first.data.len(), 64);
    assert_eq!(&first.data[0..8], &[255, 255, 255, 255, 255, 255, 0, 255]);
    assert_eq!(&first.data[28..32], &[0, 0, 0, 255]);
    assert_eq!(&first.data[32..36], &[255, 255, 255, 255]);
    // A gradient is counted, and painted elsewhere.
    assert!(capture.iroh_capture_get_test_frame(8, 2, "gradient").is_none());
    let third = capture.iroh_capture_get_test_frame(8, 2, "anything else").unwrap();
    assert_eq!(third.timestamp_ms, 99);
    assert_eq!(third.data, first.data);
    let boxed = capture.iroh_capture_get_test_frame(200, 200, "moving_box").unwrap();
    assert_eq!(boxed.timestamp_ms, 132);
    assert_eq!(boxed.data, generate_moving_box(200, 200, 4));
    assert!(capture.iroh_capture_stop());
    assert_eq!(capture.iroh_capture_current_device(), None);
    // Starting again counts the pictures anew.
    assert!(capture.iroh_capture_start("camera_front".to_string()));
    assert_eq!(capture.iroh_capture_get_test_frame(0, 5, "color_bars").unwrap().timestamp_ms, 33);
}

#[test]
fn the_box_moves_five_right_and_three_down() {
    let pixel = |data: &[u8], x: usize, y: usize| {
        let at = (y * 200 + x) * 4;
        [data[at], data[at + 1], data[at + 2], data[at + 3]]
    };
    let one = generate_moving_box(200, 200, 1);
    assert_eq!(one.len(), 200 * 200 * 4);
    assert_eq!(pixel(&one, 0, 0), [40, 40, 40, 255]);
    assert_eq!(pixel(&one, 5, 3), [255, 128, 0, 255]);
    assert_eq!(pixel(&one, 104, 102), [255, 128, 0, 255]);
    assert_eq!(pixel(&one, 105, 3), [40, 40, 40, 255]);
    assert_eq!(pixel(&one, 5, 103), [40, 40, 40, 255]);
    assert_eq!(pixel(&one, 4, 3), [40, 40, 40, 255]);
    // After 20 pictures the box is back at the left edge; it is 60 down.
    let twenty = generate_moving_box(200, 200, 20);
    assert_eq!(pixel(&twenty, 0, 60), [255, 128, 0, 255]);
    assert_eq!(pixel(&twenty, 0, 59), [40, 40, 40, 255]);
    // No room for the box to move: all grey.
    let small = generate_moving_box(100, 300, 1);
    assert!(small.chunks(4).all(|p| p == [40, 40, 40, 255]));
    assert!(generate_color_bars(0, 9).is_empty());
    let bars = generate_color_bars(17, 1);
    assert_eq!(bars.len(), 68);
    // Bars are two pixels wide; the seventeenth pixel is black like the last bar.
    assert_eq!(&bars[8..12], &[255, 255, 0, 255]);
    assert_eq!(&bars[64..68], &[0, 0, 0, 255]);
}

#[test]
fn host_book_of_publishers_and_subscribers() {
    let mut node = LiveNode::new();
    assert!(iroh_publish_get_status(&node, "p1").is_none());
    assert!(!iroh_publish_start(&mut node, "p1"));
    assert!(iroh_publish_create(&mut node, "p1".to_string()));
    assert!(!iroh_publish_create(&mut node, "p1".to_string()));
    let picture =
        FlutterVideoFrame { width: 2, height: 2, data: vec![0; 100], timestamp_ms: 0, format: "rgba".to_string() };
    let sound = FlutterAudioSamples {
        data: vec![0; 50],
        sample_rate: 48000,
        channels: 2,
        timestamp_ms: 0,
        format: "pcm_s16le".to_string(),
    };
    assert!(!iroh_publish_push_video(&mut node, "p1", &picture));
    assert!(!iroh_publish_push_audio(&mut node, "p1", &sound));
    assert!(!iroh_publish_push_video(&mut node, "p2", &picture));
    let idle = iroh_publish_get_status(&node, "p1").unwrap();
    assert_eq!((idle.is_active, idle.frames_published, idle.bytes_sent, idle.current_bitrate), (false, 0, 0, 0));
    assert!(iroh_publish_start(&mut node, "p1"));
    assert!(iroh_publish_push_video(&mut node, "p1", &picture));
    assert!(iroh_publish_push_audio(&mut node, "p1", &sound));
    let status = iroh_publish_get_status(&node, "p1").unwrap();
    assert_eq!(status.publisher_id, "p1");
    assert_eq!((status.is_active, status.frames_published, status.bytes_sent), (true, 1, 150));
    assert_eq!(status.current_bitrate, 2_500_000);
    assert_eq!(status.video_renditions, vec!["720p"]);
    assert_eq!(status.audio_renditions, vec!["opus_hq"]);
    assert_eq!(node.get_publisher_status("p1").unwrap().broadcast_name, "default");
    assert!(iroh_publish_stop(&mut node, "p1"));
    assert_eq!(iroh_publish_get_status(&node, "p1").unwrap().current_bitrate, 0);
    assert!(!iroh_publish_stop(&mut node, "p2"));

    assert!(iroh_subscribe_get_status(&node, "s1").is_none());
    assert!(!iroh_subscribe_connect(&mut node, "s1"));
    assert!(iroh_subscribe_create(&mut node, "s1".to_string(), "b".to_string()));
    assert!(!iroh_subscribe_create(&mut node, "s1".to_string(), "c".to_string()));
    assert!(!iroh_subscribe_simulate_video_receive(&mut node, "s1", 500));
    assert!(!iroh_subscribe_simulate_video_receive(&mut node, "s2", 500));
    assert_eq!(iroh_subscribe_get_status(&node, "s1").unwrap().buffer_health_percent, 0);
    assert!(iroh_subscribe_connect(&mut node, "s1"));
    assert!(iroh_subscribe_simulate_video_receive(&mut node, "s1", 500));
    let status = iroh_subscribe_get_status(&node, "s1").unwrap();
    assert_eq!(status.subscriber_id, "s1");
    assert_eq!(status.broadcast_id, "b");
    assert_eq!((status.is_connected, status.frames_received, status.bytes_received), (true, 1, 500));
    assert_eq!(status.current_quality, "auto");
    assert_eq!(status.buffer_health_percent, 95);
    assert!(iroh_subscribe_disconnect(&mut node, "s1"));
    assert!(!iroh_subscribe_simulate_video_receive(&mut node, "s1", 500));
    assert_eq!(iroh_subscribe_get_status(&node, "s1").unwrap().frames_received, 1);
}

#[test]
fn publishers_and_subscribers_can_be_taken_away() {
    let mut node = LiveNode::new();
    assert!(iroh_publish_create(&mut node, "p".to_string()));
    assert!(iroh_publish_create(&mut node, "q".to_string()));
    assert!(iroh_publish_remove(&mut node, "p"));
    assert!(!iroh_publish_remove(&mut node, "p"));
    assert!(iroh_publish_get_status(&node, "p").is_none());
    assert!(iroh_publish_get_status(&node, "q").is_some());
    assert!(iroh_subscribe_create(&mut node, "s".to_string(), "b".to_string()));
    assert_eq!(iroh_subscribe_get_status(&node, "s").unwrap().current_quality, "auto");
    assert!(iroh_subscribe_set_quality(&mut node, "s", "720p".to_string()));
    assert_eq!(iroh_subscribe_get_status(&node, "s").unwrap().current_quality, "720p");
    assert!(!iroh_subscribe_set_quality(&mut node, "t", "720p".to_string()));
    assert!(iroh_subscribe_remove(&mut node, "s"));
    assert!(!iroh_subscribe_remove(&mut node, "s"));
    assert!(iroh_subscribe_get_status(&node, "s").is_none());
}

#[test]
fn a_publisher_offers_the_renditions_that_were_set() {
    let mut node = LiveNode::new();
    assert!(iroh_publish_create(&mut node, "p".to_string()));
    let fresh = iroh_publish_get_status(&node, "p").unwrap();
    assert_eq!(fresh.video_renditions, vec!["720p".to_string()]);
    assert_eq!(fresh.audio_renditions, vec!["opus_hq".to_string()]);
    let names = vec!["360p".to_string(), "1080p".to_string()];
    assert!(iroh_publish_set_video_renditions(&mut node, "p", names.clone()));
    assert_eq!(iroh_publish_get_status(&node, "p").unwrap().video_renditions, names);
    assert!(iroh_publish_set_video_renditions(&mut node, "p", Vec::new()));
    assert!(iroh_publish_get_status(&node, "p").unwrap().video_renditions.is_empty());
    assert!(!iroh_publish_set_video_renditions(&mut node, "q", names));
    assert_eq!(node.video_renditions("q"), None);
}
