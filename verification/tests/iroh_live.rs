use moq_live::endpoint::EndpointId;
use moq_live::iroh_live::EncodedAudioPacket;
use moq_live::iroh_live::EncodedVideoPacket;
use moq_live::iroh_live::EndpointAddress;
use moq_live::iroh_live::LiveNode;
use moq_live::iroh_live::LiveTicket;
use moq_live::iroh_live::NodeError;
use moq_live::iroh_live::Routing;
use moq_live::iroh_live::SocketAddress;
use moq_live::iroh_live::VideoFrame;
use moq_live::iroh_live::VideoPacket;
use moq_live::iroh_live::VideoPreset;
use moq_live::iroh_live::ALPN;
use moq_live::live_streaming::TicketError;

fn endpoint() -> EndpointId {
    let mut key = [0x66u8; 32];
    key[0] = 0x58;
    EndpointId::from_bytes(&key).unwrap()
}

fn full_ticket() -> LiveTicket {
    LiveTicket {
        endpoint_id: endpoint(),
        broadcast_name: Some("caméra".to_string()),
        relay_urls: vec!["https://relay.example.com/".to_string(), "https://b.example/".to_string()],
        direct_addrs: vec![
            SocketAddress::V4 { ip: 0x7f00_0001, port: 4433 },
            SocketAddress::V6 { ip: 1, port: 65535 },
        ],
    }
}

#[test]
fn ticket_round_trip() {
    for ticket in [
        full_ticket(),
        LiveTicket::new(endpoint(), "mystream"),
        LiveTicket { broadcast_name: None, ..LiveTicket::new(endpoint(), "") },
        LiveTicket { broadcast_name: Some(String::new()), ..full_ticket() },
    ] {
        let text = ticket.serialize();
        assert!(text.chars().all(|c| c.is_ascii_lowercase() || ('2'..='7').contains(&c)));
        assert_eq!(LiveTicket::deserialize(&text).unwrap(), ticket);
        assert_eq!(LiveTicket::deserialize(&text.to_uppercase()).unwrap(), ticket);
        assert_eq!(ticket.try_serialize(), Some(text));
        assert_eq!(LiveTicket::from_bytes(&ticket.to_bytes()).unwrap(), ticket);
        assert!(ticket.fits_record());
    }
}

#[test]
fn ticket_record_is_exact() {
    let ticket = LiveTicket {
        endpoint_id: endpoint(),
        broadcast_name: Some("ab".to_string()),
        relay_urls: vec!["r".to_string()],
        direct_addrs: vec![SocketAddress::V4 { ip: 0x0102_0304, port: 0x0506 }],
    };
    let mut expected = endpoint().as_bytes().to_vec();
    expected.extend([1, 2, 0, 0, 0, b'a', b'b']);
    expected.extend([1, 0, 0, 0, 1, 0, 0, 0, b'r']);
    expected.extend([1, 0, 0, 0, 4, 4, 3, 2, 1, 6, 5]);
    assert_eq!(ticket.to_bytes(), expected);
    let bare = LiveTicket { broadcast_name: None, ..LiveTicket::new(endpoint(), "") };
    assert_eq!(bare.to_bytes().len(), 32 + 1 + 4 + 4);
    // A typical ticket stays short.
    assert!(full_ticket().serialize().len() <= 300);
}

#[test]
fn short_form_is_read_but_not_written() {
    let short = moq_live::live_streaming::LiveTicket::new("cam", endpoint()).serialize();
    let ticket = LiveTicket::deserialize(&short).unwrap();
    assert_eq!(ticket, LiveTicket::new(endpoint(), "cam"));
    assert!(!ticket.serialize().contains('@'));
}

#[test]
fn ticket_errors() {
    assert_eq!(LiveTicket::deserialize("name@").unwrap_err(), TicketError::InvalidLength);
    assert_eq!(LiveTicket::deserialize("not base32!").unwrap_err(), TicketError::InvalidEncoding);
    assert_eq!(LiveTicket::deserialize("").unwrap_err(), TicketError::InvalidRecord);
    assert_eq!(LiveTicket::deserialize("mfrgg").unwrap_err(), TicketError::InvalidRecord);
    let good = full_ticket().to_bytes();
    // One byte more, one byte less, a wrong flag, a wrong kind of address.
    let mut longer = good.clone();
    longer.push(0);
    assert_eq!(LiveTicket::from_bytes(&longer).unwrap_err(), TicketError::InvalidRecord);
    assert_eq!(
        LiveTicket::from_bytes(&good[..good.len() - 1]).unwrap_err(),
        TicketError::InvalidRecord
    );
    let mut flag = good.clone();
    flag[32] = 2;
    assert_eq!(LiveTicket::from_bytes(&flag).unwrap_err(), TicketError::InvalidRecord);
    let bare = LiveTicket {
        broadcast_name: None,
        direct_addrs: vec![SocketAddress::V4 { ip: 0, port: 0 }],
        ..LiveTicket::new(endpoint(), "")
    };
    let mut kind = bare.to_bytes();
    kind[32 + 1 + 4 + 4] = 5;
    assert_eq!(LiveTicket::from_bytes(&kind).unwrap_err(), TicketError::InvalidRecord);
    // A name that is no text.
    let mut name = LiveTicket::new(endpoint(), "ab").to_bytes();
    name[32 + 5] = 0xff;
    assert_eq!(LiveTicket::from_bytes(&name).unwrap_err(), TicketError::InvalidRecord);
    // A record whose first 32 bytes are no key.
    let no_key = (0..=255u8)
        .map(|k| {
            let mut bytes = [0u8; 32];
            bytes[0] = k;
            bytes
        })
        .find(|bytes| EndpointId::from_bytes(bytes).is_err())
        .unwrap();
    let mut record = bare.to_bytes();
    record[..32].copy_from_slice(&no_key);
    assert_eq!(LiveTicket::from_bytes(&record).unwrap_err(), TicketError::InvalidKey);
}

#[test]
fn addresses_follow_the_ticket_s_order() {
    let mut ticket = full_ticket();
    ticket.relay_urls.insert(1, "not a url".to_string());
    ticket.relay_urls.push("https://Relay.Example.com".to_string());
    let addr = ticket.to_endpoint_addr();
    assert_eq!(addr.id, endpoint());
    assert_eq!(
        addr.relay_urls,
        vec!["https://relay.example.com/", "https://b.example/", "https://relay.example.com/"]
    );
    assert_eq!(addr.ip_addrs, ticket.direct_addrs);
    assert_eq!(addr.ip_addrs[0].port(), 4433);
    let back = LiveTicket::with_addr(&addr, "x");
    assert_eq!(back.relay_urls, addr.relay_urls);
    assert_eq!(back.direct_addrs, addr.ip_addrs);
    assert_eq!(back.broadcast_name.as_deref(), Some("x"));
    let plain = EndpointAddress { id: endpoint(), relay_urls: vec![], ip_addrs: vec![] };
    assert_eq!(LiveTicket::with_addr(&plain, "x"), LiveTicket::new(endpoint(), "x"));
}

#[test]
fn display_shows_the_start_of_the_id() {
    assert_eq!(LiveTicket::new(endpoint(), "cam").display(), "cam@58666666...");
    let bare = LiveTicket { broadcast_name: None, ..LiveTicket::new(endpoint(), "") };
    assert_eq!(bare.display(), "@58666666...");
    assert_eq!(ALPN, "iroh-live/1");
}

#[test]
fn packets_round_trip() {
    let packet = VideoPacket {
        timestamp_ms: 0x0102_0304_0506_0708,
        width: 640,
        height: 360,
        is_keyframe: true,
        data: vec![9, 8, 7],
    };
    let bytes = packet.to_bytes();
    assert_eq!(
        bytes,
        vec![8, 7, 6, 5, 4, 3, 2, 1, 0x80, 2, 0, 0, 0x68, 1, 0, 0, 1, 3, 0, 0, 0, 9, 8, 7]
    );
    assert_eq!(VideoPacket::from_bytes(&bytes).unwrap(), packet);
    let empty = VideoPacket { is_keyframe: false, data: vec![], ..packet.clone() };
    assert_eq!(VideoPacket::from_bytes(&empty.to_bytes()).unwrap(), empty);
    assert!(VideoPacket::from_bytes(&bytes[..bytes.len() - 1]).is_err());
    assert!(VideoPacket::from_bytes(&[]).is_err());
    let mut flag = bytes.clone();
    flag[16] = 2;
    assert!(VideoPacket::from_bytes(&flag).is_err());
    let mut longer = bytes;
    longer.push(0);
    assert!(VideoPacket::from_bytes(&longer).is_err());
}

#[test]
fn presets() {
    assert_eq!(VideoPreset::P180.resolution(), (320, 180));
    assert_eq!(VideoPreset::P360.fps(), 24);
    assert_eq!(VideoPreset::P180.fps(), 15);
    assert_eq!(VideoPreset::P1080.fps(), 30);
    assert_eq!(VideoPreset::P720.bitrate(), 2_000_000);
    assert_eq!(VideoPreset::P1080.bitrate(), 4_500_000);
    assert_eq!(VideoPreset::P360.name(), "360p");
}

#[test]
fn publishers_count_what_they_send() {
    let mut node = LiveNode::new();
    assert_eq!(node.create_publisher("p".into(), "show".into()), Ok(()));
    assert_eq!(node.create_publisher("p".into(), "other".into()), Err(NodeError::PublisherExists));
    let packet = EncodedVideoPacket {
        data: vec![0; 10],
        timestamp_ms: 5,
        is_keyframe: true,
        codec: "h264".into(),
        width: 4,
        height: 2,
    };
    assert_eq!(node.push_encoded_video("p", &packet).unwrap_err(), NodeError::PublisherNotActive);
    assert_eq!(node.push_encoded_video("q", &packet).unwrap_err(), NodeError::PublisherNotFound);
    assert_eq!(node.start_publishing("q"), Err(NodeError::PublisherNotFound));
    assert_eq!(node.start_publishing("p"), Ok(()));
    let out = node.push_encoded_video("p", &packet).unwrap();
    assert_eq!(
        out,
        VideoPacket { timestamp_ms: 5, width: 4, height: 2, is_keyframe: true, data: vec![0; 10] }
    );
    let frame = VideoFrame {
        width: 4,
        height: 2,
        data: vec![0; 32],
        timestamp_ms: 6,
        format: "rgba".into(),
        is_keyframe: false,
    };
    assert_eq!(node.push_video_frame("p", &frame), Ok(()));
    let audio = EncodedAudioPacket {
        data: vec![0; 3],
        timestamp_ms: 7,
        codec: "opus".into(),
        sample_rate: 48000,
        channels: 2,
    };
    assert_eq!(node.push_encoded_audio("p", &audio), Ok(()));
    let status = node.get_publisher_status("p").unwrap();
    assert_eq!((status.frames_published, status.bytes_sent), (2, 45));
    assert!(status.is_active);
    assert_eq!(status.video_preset, "720p");
    assert_eq!(status.broadcast_name, "show");
    assert_eq!(node.stop_publishing("p"), Ok(()));
    assert!(!node.get_publisher_status("p").unwrap().is_active);
    assert!(node.get_publisher_status("q").is_none());
}

#[test]
fn subscribers_are_routed_to_the_active_publisher_of_their_broadcast() {
    let mut node = LiveNode::new();
    node.create_publisher("a".into(), "show".into()).unwrap();
    node.create_publisher("b".into(), "show".into()).unwrap();
    node.create_publisher("c".into(), "other".into()).unwrap();
    assert_eq!(node.route_subscriber("show"), None);
    node.start_publishing("b").unwrap();
    node.start_publishing("c").unwrap();
    assert_eq!(node.route_subscriber("show"), Some("b".to_string()));
    node.start_publishing("a").unwrap();
    assert_eq!(node.route_subscriber("show"), Some("a".to_string()));
    assert_eq!(node.route_subscriber("other"), Some("c".to_string()));
    assert_eq!(node.route_subscriber("none"), None);
}

#[test]
fn subscribers_count_what_they_receive() {
    let mut node = LiveNode::new();
    assert_eq!(node.create_subscriber("s".into(), "show".into()), Ok(()));
    assert_eq!(node.create_subscriber("s".into(), "x".into()), Err(NodeError::SubscriberExists));
    assert_eq!(node.simulate_video_receive("s", 100), Ok(()));
    assert_eq!(node.get_subscriber_status("s").unwrap().frames_received, 0);
    assert_eq!(node.set_connected("s", true), Ok(()));
    assert_eq!(node.simulate_video_receive("s", 100), Ok(()));
    assert_eq!(node.count_received("s", 11, false), Ok(()));
    let status = node.get_subscriber_status("s").unwrap();
    assert_eq!((status.frames_received, status.bytes_received), (2, 111));
    assert_eq!(status.current_quality, "auto");
    assert!(status.is_connected);
    assert_eq!(node.disconnect_subscriber("s"), Ok(()));
    assert!(!node.get_subscriber_status("s").unwrap().is_connected);
    assert_eq!(node.count_received("s", 1, false), Ok(()));
    assert_eq!(node.get_subscriber_status("s").unwrap().frames_received, 3);
    assert_eq!(node.disconnect_subscriber("t"), Err(NodeError::SubscriberNotFound));
    assert_eq!(node.simulate_video_receive("t", 1), Err(NodeError::SubscriberNotFound));
    assert!(node.get_subscriber_status("t").is_none());
}

#[test]
fn a_connection_is_routed_to_the_first_active_publisher() {
    let mut node = LiveNode::new();
    assert_eq!(node.route_connection(None), Routing::NoActivePublisher);
    assert_eq!(node.route_connection(Some("cam")), Routing::Unserved);
    node.create_publisher("p1".to_string(), "cam".to_string()).unwrap();
    node.create_publisher("p2".to_string(), "screen".to_string()).unwrap();
    assert_eq!(node.route_connection(None), Routing::NoActivePublisher);
    node.start_publishing("p2").unwrap();
    assert_eq!(node.route_connection(None), Routing::Serve { publisher: "p2".to_string() });
    assert_eq!(node.route_connection(Some("screen")), Routing::Serve { publisher: "p2".to_string() });
    assert_eq!(node.route_connection(Some("cam")), Routing::Unserved);
    node.start_publishing("p1").unwrap();
    assert_eq!(node.route_connection(None), Routing::Serve { publisher: "p1".to_string() });
    assert_eq!(node.route_connection(Some("cam")), Routing::Serve { publisher: "p1".to_string() });
    assert_eq!(node.route_connection(Some("other")), Routing::Unserved);
}

#[test]
fn a_ticket_text_has_a_symbol_for_every_five_bits() {
    for ticket in [LiveTicket::new(endpoint(), "cam"), full_ticket()] {
        let bytes = ticket.to_bytes().len();
        assert_eq!(ticket.serialize().len(), (8 * bytes + 4) / 5);
    }
    let short = moq_live::live_streaming::LiveTicket::new("cam", endpoint()).serialize();
    assert_eq!(short.len(), 3 + 53);
}
