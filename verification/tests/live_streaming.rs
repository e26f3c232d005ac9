use moq_live::direct_streaming::DirectMessage;
use moq_live::endpoint::EndpointId;
use moq_live::live_message::catalog_signal;
use moq_live::live_message::LiveMessage;
use moq_live::live_streaming::AudioQuality;
use moq_live::live_streaming::AudioTrackConfig;
use moq_live::live_streaming::BroadcastCatalog;
use moq_live::live_streaming::ConnectionStats;
use moq_live::live_streaming::LiveTicket;
use moq_live::live_streaming::TicketError;
use moq_live::live_streaming::VideoQuality;
use moq_live::live_streaming::VideoTrackConfig;

fn some_key() -> [u8; 32] {
    // The curve's base point: a public key for certain.
    let mut key = [0x66u8; 32];
    key[0] = 0x58;
    key
}

#[test]
fn test_live_ticket_roundtrip() {
    let endpoint_id = EndpointId::from_bytes(&some_key()).unwrap();
    let ticket = LiveTicket::new("mystream", endpoint_id);

    let serialized = ticket.serialize();
    let deserialized = LiveTicket::deserialize(&serialized).unwrap();

    assert_eq!(ticket, deserialized);
}

#[test]
fn live_streaming_test_video_quality() {
    assert_eq!(VideoQuality::P720.dimensions(), (1280, 720));
    assert_eq!(VideoQuality::P1080.bitrate_kbps(), 5000);
    assert_eq!(VideoQuality::from_str("720p"), Some(VideoQuality::P720));
}

#[test]
fn short_ticket_text_is_exact() {
    let ticket = LiveTicket::new("my@cam", EndpointId::from_bytes(&some_key()).unwrap());
    let text = ticket.serialize();
    assert_eq!(
        text,
        "my@cam@lbtgmztgmztgmztgmztgmztgmztgmztgmztgmztgmztgmztgmzta"
    );
    assert_eq!(ticket.to_text(), text);
    // Either case reads back.
    let back = LiveTicket::deserialize(&text.to_uppercase().replace("MY@CAM", "my@cam")).unwrap();
    assert_eq!(back, ticket);
    assert_eq!(back.endpoint_id.as_bytes(), &some_key());
}

#[test]
fn short_ticket_errors() {
    assert_eq!(LiveTicket::deserialize("nothing").unwrap_err(), TicketError::MissingSeparator);
    assert_eq!(LiveTicket::deserialize("name@!!!").unwrap_err(), TicketError::InvalidEncoding);
    assert_eq!(LiveTicket::deserialize("name@1").unwrap_err(), TicketError::InvalidEncoding);
    assert_eq!(LiveTicket::deserialize("name@").unwrap_err(), TicketError::InvalidLength);
    assert_eq!(LiveTicket::deserialize("name@mfrgg").unwrap_err(), TicketError::InvalidLength);
    // 32 bytes that are no point of the curve: the first such among the small numbers.
    let bad = (0..=255u8)
        .map(|k| {
            let mut bytes = [0u8; 32];
            bytes[0] = k;
            bytes
        })
        .find(|bytes| EndpointId::from_bytes(bytes).is_err())
        .unwrap();
    let text = format!("name@{}", data_encoding::BASE32_NOPAD.encode(&bad));
    assert_eq!(LiveTicket::deserialize(&text).unwrap_err(), TicketError::InvalidKey);
    assert!(EndpointId::from_slice(&[0u8; 31]).is_err());
}

#[test]
fn quality_presets() {
    assert_eq!(VideoQuality::all(), [
        VideoQuality::P180,
        VideoQuality::P360,
        VideoQuality::P720,
        VideoQuality::P1080
    ]);
    assert_eq!(VideoQuality::P180.dimensions(), (320, 180));
    assert_eq!(VideoQuality::P360.bitrate_kbps(), 800);
    assert_eq!(VideoQuality::P360.fps(), 30);
    assert_eq!(VideoQuality::P1080.name(), "1080p");
    assert_eq!(VideoQuality::from_str("P1080"), Some(VideoQuality::P1080));
    assert_eq!(VideoQuality::from_str("p180"), Some(VideoQuality::P180));
    assert_eq!(VideoQuality::from_str("180"), None);
    assert_eq!(VideoQuality::from_lowercase("P360"), None);
    assert_eq!(VideoQuality::from_lowercase("360p"), Some(VideoQuality::P360));
    assert_eq!(AudioQuality::Low.sample_rate(), 22050);
    assert_eq!(AudioQuality::High.channels(), 2);
    assert_eq!(AudioQuality::High.bitrate_kbps(), 128);
    assert_eq!(AudioQuality::Low.name(), "low");
    let v = VideoTrackConfig::new(VideoQuality::P720, "h264");
    assert_eq!((v.width, v.height, v.fps, v.bitrate_kbps), (1280, 720, 30, 2500));
    assert_eq!(v.track_name(), "video-720p");
    let a = AudioTrackConfig::new(AudioQuality::Low, "opus");
    assert_eq!((a.sample_rate, a.channels, a.bitrate_kbps), (22050, 1, 64));
    assert_eq!(a.track_name(), "audio-low");
}

#[test]
fn catalog_lists_one_track_per_quality() {
    let mut catalog = BroadcastCatalog::new_at("test", 100);
    assert!(catalog.is_live);
    assert!(catalog.best_video_track().is_none());
    catalog.add_video_track_at(VideoTrackConfig::new(VideoQuality::P720, "h264"), 90);
    assert_eq!(catalog.updated_at, 100);
    catalog.add_video_track_at(VideoTrackConfig::new(VideoQuality::P180, "h264"), 120);
    assert_eq!(catalog.updated_at, 120);
    catalog.add_video_track_at(VideoTrackConfig::new(VideoQuality::P720, "vp9"), 121);
    assert_eq!(catalog.video_tracks.len(), 2);
    assert_eq!(catalog.get_video_track(VideoQuality::P720).unwrap().codec, "vp9");
    assert!(catalog.get_video_track(VideoQuality::P360).is_none());
    assert_eq!(catalog.best_video_track().unwrap().quality, VideoQuality::P720);
    assert_eq!(catalog.available_video_qualities(), vec![VideoQuality::P720, VideoQuality::P180]);
    catalog.add_audio_track(AudioTrackConfig::new(AudioQuality::High, "opus"));
    catalog.add_audio_track(AudioTrackConfig::new(AudioQuality::High, "aac"));
    assert_eq!(catalog.audio_tracks.len(), 1);
    assert_eq!(catalog.audio_tracks[0].codec, "aac");
    assert!(catalog.updated_at >= 121);
    assert_eq!(BroadcastCatalog::new("x").name, "x");
}

#[test]
fn stats_smooth_and_score() {
    let mut s = ConnectionStats::new();
    assert_eq!(s, ConnectionStats::default());
    s.record_sent(100);
    s.record_sent(20);
    s.record_received(7);
    assert_eq!((s.bytes_sent, s.chunks_sent, s.bytes_received, s.chunks_received), (120, 2, 7, 1));
    s.update_rtt(80);
    assert_eq!(s.rtt_ms, 10);
    s.update_rtt(80);
    assert_eq!(s.rtt_ms, 18);
    // rtt 18 ms: 100; bandwidth 0: 20; no loss: 100.
    assert_eq!(s.quality_score, 73);
    s.update_bandwidth(48_000_000);
    assert_eq!(s.bandwidth_bps, 6_000_000);
    assert_eq!(s.quality_score, 100);
    s.packet_loss_ppm = 25_000;
    s.update_quality_score();
    assert_eq!(s.quality_score, 99);
    s.packet_loss_ppm = 2_000_000;
    s.update_quality_score();
    assert_eq!(s.quality_score, 66);
    let mut big = ConnectionStats::new();
    big.bandwidth_bps = u64::MAX;
    big.update_bandwidth(u64::MAX);
    assert_eq!(big.bandwidth_bps, u64::MAX);
}

#[test]
fn score_follows_the_thresholds() {
    let score = |rtt: u64, bw: u64| {
        let mut s = ConnectionStats::new();
        s.rtt_ms = rtt;
        s.bandwidth_bps = bw;
        s.update_quality_score();
        s.quality_score
    };
    assert_eq!(score(49, 5_000_001), 100);
    assert_eq!(score(50, 5_000_000), 86);
    assert_eq!(score(100, 2_500_000), 73);
    assert_eq!(score(200, 1_000_000), 60);
    assert_eq!(score(500, 500_000), 46);
    assert_eq!(score(499, 500_001), 60);
}

#[test]
fn recommendation_keeps_headroom() {
    let pick = |bps: u64| {
        let mut s = ConnectionStats::new();
        s.bandwidth_bps = bps;
        s.recommended_quality()
    };
    assert_eq!(pick(0), VideoQuality::P180);
    assert_eq!(pick(1_599_999), VideoQuality::P180);
    assert_eq!(pick(1_600_000), VideoQuality::P360);
    assert_eq!(pick(4_999_999), VideoQuality::P360);
    assert_eq!(pick(5_000_000), VideoQuality::P720);
    assert_eq!(pick(9_999_999), VideoQuality::P720);
    assert_eq!(pick(10_000_000), VideoQuality::P1080);
    assert_eq!(pick(u64::MAX), VideoQuality::P1080);
}

#[test]
fn test_catalog_serialization() {
    let mut catalog = BroadcastCatalog::new("test");
    catalog.add_video_track(VideoTrackConfig::new(VideoQuality::P720, "h264"));

    let encoded = catalog.encode().unwrap();
    let decoded = BroadcastCatalog::decode(&encoded).unwrap();

    assert_eq!(decoded.name, "test");
    assert!(decoded.video_tracks.iter().any(|t| t.track_name() == "video-720p"));
}

#[test]
fn catalog_comes_back_from_its_bytes() {
    let mut catalog = BroadcastCatalog::new_at("show", 77);
    catalog.description = Some("évènement".to_string());
    catalog.duration_ms = Some(90_000);
    catalog.is_live = false;
    catalog.metadata = vec![("lang".to_string(), "fr".to_string()), ("".to_string(), "".to_string())];
    catalog.add_video_track_at(VideoTrackConfig::new(VideoQuality::P1080, "h264"), 78);
    catalog.add_video_track_at(VideoTrackConfig::new(VideoQuality::P180, "av1"), 79);
    catalog.add_audio_track_at(AudioTrackConfig::new(AudioQuality::High, "opus"), 80);
    let bytes = catalog.encode().unwrap();
    let back = BroadcastCatalog::decode(&bytes).unwrap();
    assert_eq!(format!("{back:?}"), format!("{catalog:?}"));
    assert_eq!(back.updated_at, 80);
    // What follows the fields is passed over.
    let mut longer = bytes.clone();
    longer.extend_from_slice(&[1, 2, 3]);
    assert_eq!(format!("{:?}", BroadcastCatalog::decode(&longer).unwrap()), format!("{catalog:?}"));
    for cut in 0..bytes.len() {
        assert!(BroadcastCatalog::decode(&bytes[..cut]).is_none());
    }
}

#[test]
fn the_bytes_of_a_small_catalog() {
    let mut catalog = BroadcastCatalog::new_at("c", 2);
    catalog.add_video_track_at(VideoTrackConfig::new(VideoQuality::P360, "v"), 3);
    let bytes = catalog.encode().unwrap();
    let mut expected: Vec<u8> = vec![1, 0, 0, 0, b'c'];
    expected.push(0); // no description
    expected.push(0); // no playing time
    expected.push(1); // live
    expected.extend_from_slice(&3u64.to_le_bytes());
    expected.extend_from_slice(&0u32.to_le_bytes()); // no metadata
    expected.extend_from_slice(&1u32.to_le_bytes()); // one video track
    expected.extend_from_slice(&[1, 0, 0, 0, b'v']);
    expected.extend_from_slice(&20u32.to_le_bytes());
    for n in [1u32, 640, 360, 30, 800] {
        expected.extend_from_slice(&n.to_le_bytes());
    }
    expected.extend_from_slice(&0u32.to_le_bytes()); // no audio track
    assert_eq!(bytes, expected);
    // A quality that no number stands for.
    let quality = 5 + 3 + 8 + 4 + 4 + 5 + 4;
    let mut bad = bytes.clone();
    bad[quality] = 4;
    assert!(BroadcastCatalog::decode(&bad).is_none());
    bad[quality] = 3;
    assert_eq!(BroadcastCatalog::decode(&bad).unwrap().video_tracks[0].quality, VideoQuality::P1080);
    // A flag that is neither 0 nor 1.
    let mut bad = bytes.clone();
    bad[7] = 2;
    assert!(BroadcastCatalog::decode(&bad).is_none());
    // Numbers of a track that are too few.
    let mut bad = bytes.clone();
    bad[quality - 4] = 19;
    assert!(BroadcastCatalog::decode(&bad).is_none());
}

#[test]
fn catalog_metadata_must_be_text() {
    let mut catalog = BroadcastCatalog::new_at("c", 2);
    catalog.metadata = vec![("k".to_string(), "ab".to_string())];
    let mut bytes = catalog.encode().unwrap();
    // name, two flags, live, time, count, key, length of the value
    let value = 5 + 3 + 8 + 4 + 5 + 4;
    assert_eq!(&bytes[value..value + 2], b"ab");
    bytes[value] = 0xff;
    assert!(BroadcastCatalog::decode(&bytes).is_none());
}

#[test]
fn live_messages_come_back_from_their_bytes() {
    let mut catalog = BroadcastCatalog::new_at("show", 5);
    catalog.add_video_track_at(VideoTrackConfig::new(VideoQuality::P360, "h264"), 6);
    let messages = vec![
        LiveMessage::Direct(DirectMessage::Chunk { index: 4, data: vec![1, 2, 3] }),
        LiveMessage::Direct(DirectMessage::RequestMetadata),
        LiveMessage::Catalog(catalog.clone()),
        LiveMessage::RequestCatalog,
        LiveMessage::Subscribe { track_name: "video-360p".to_string() },
        LiveMessage::Unsubscribe { track_name: String::new() },
        LiveMessage::Ping { timestamp: 77 },
        LiveMessage::Pong { timestamp: u64::MAX },
        LiveMessage::QualityChange { quality: "720p".to_string() },
    ];
    for message in messages {
        let bytes = message.encode().unwrap();
        let back = LiveMessage::decode(&bytes).unwrap();
        assert_eq!(format!("{back:?}"), format!("{message:?}"));
        let mut longer = bytes.clone();
        longer.push(0);
        assert!(LiveMessage::decode(&longer).is_none());
        for cut in 0..bytes.len() {
            assert!(LiveMessage::decode(&bytes[..cut]).is_none());
        }
    }
    assert_eq!(
        LiveMessage::Ping { timestamp: 1 }.encode().unwrap(),
        vec![5, 0, 0, 0, 0, 0, 0, 0, 0, 1, 0, 0, 0, 0, 0, 0, 0]
    );
    assert_eq!(
        LiveMessage::Subscribe { track_name: "a".to_string() }.encode().unwrap(),
        vec![3, 0, 0, 0, 0, 1, 0, 0, 0, b'a', 0, 0, 0, 0, 0, 0, 0, 0]
    );
    // A request for the catalog that carries a name, a ping that carries bytes, a kind unknown.
    assert!(LiveMessage::decode(&[2, 0, 0, 0, 0, 1, 0, 0, 0, b'a', 0, 0, 0, 0, 0, 0, 0, 0]).is_none());
    assert!(LiveMessage::decode(&[5, 1, 0, 0, 0, 9, 0, 0, 0, 0, 1, 0, 0, 0, 0, 0, 0, 0]).is_none());
    assert!(LiveMessage::decode(&[8, 0, 0, 0, 0, 0, 0, 0, 0, 0, 0, 0, 0, 0, 0, 0, 0]).is_none());
    // A subscription with a time.
    assert!(LiveMessage::decode(&[3, 0, 0, 0, 0, 1, 0, 0, 0, b'a', 1, 0, 0, 0, 0, 0, 0, 0]).is_none());
    // The catalog travels to the viewers as a signal of the file protocol.
    match catalog_signal(catalog.clone()).unwrap() {
        DirectMessage::Signal { data } => {
            assert_eq!(data, LiveMessage::Catalog(catalog.clone()).encode().unwrap());
            match LiveMessage::decode(&data).unwrap() {
                LiveMessage::Catalog(c) => assert_eq!(format!("{c:?}"), format!("{catalog:?}")),
                other => panic!("{other:?}"),
            }
        }
        other => panic!("{other:?}"),
    }
}
