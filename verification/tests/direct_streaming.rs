use moq_live::direct_streaming::DirectMessage;
use moq_live::direct_streaming::DirectStreamTicket;
use moq_live::direct_streaming::FileBroadcast;
use moq_live::direct_streaming::FileDownload;
use moq_live::direct_streaming::MessageError;
use moq_live::direct_streaming::MAX_MESSAGE_BYTES;
use moq_live::direct_streaming::STREAMING_ALPN;
use moq_live::endpoint::EndpointId;
use moq_live::iroh_live::EndpointAddress;
use moq_live::iroh_live::LiveTicket;
use moq_live::iroh_live::SocketAddress;
use moq_live::live_streaming::TicketError;

fn endpoint() -> EndpointId {
    let mut key = [0x66u8; 32];
    key[0] = 0x58;
    EndpointId::from_bytes(&key).unwrap()
}

#[test]
fn messages_round_trip() {
    let messages = vec![
        DirectMessage::RequestMetadata,
        DirectMessage::Metadata {
            file_name: "v.mp4".into(),
            file_size: 1_000_000,
            mime_type: "video/mp4".into(),
            total_chunks: 10,
            duration_ms: Some(61_500),
        },
        DirectMessage::Metadata {
            file_name: String::new(),
            file_size: 0,
            mime_type: String::new(),
            total_chunks: 0,
            duration_ms: None,
        },
        DirectMessage::RequestChunk { index: u32::MAX },
        DirectMessage::Chunk { index: 3, data: vec![1, 2, 3] },
        DirectMessage::Chunk { index: 0, data: vec![] },
        DirectMessage::Presence { name: "zoë".into() },
        DirectMessage::Signal { data: vec![0xff; 70_000] },
    ];
    for m in messages {
        let bytes = m.encode().unwrap();
        assert!(m.fits_wire());
        assert_eq!(DirectMessage::decode(&bytes).unwrap(), m);
    }
}

#[test]
fn message_bytes_are_exact() {
    assert_eq!(DirectMessage::RequestMetadata.encode().unwrap(), vec![0]);
    assert_eq!(
        DirectMessage::RequestChunk { index: 0x0102_0304 }.encode().unwrap(),
        vec![2, 4, 3, 2, 1]
    );
    assert_eq!(
        DirectMessage::Chunk { index: 1, data: vec![7, 8] }.encode().unwrap(),
        vec![3, 1, 0, 0, 0, 2, 0, 0, 0, 7, 8]
    );
    assert_eq!(
        DirectMessage::Presence { name: "é".into() }.encode().unwrap(),
        vec![4, 2, 0, 0, 0, 0xc3, 0xa9]
    );
    let metadata = DirectMessage::Metadata {
        file_name: "f".into(),
        file_size: 258,
        mime_type: "m".into(),
        total_chunks: 2,
        duration_ms: Some(3),
    };
    assert_eq!(
        metadata.encode().unwrap(),
        vec![
            1, 1, 0, 0, 0, b'f', 2, 1, 0, 0, 0, 0, 0, 0, 1, 0, 0, 0, b'm', 2, 0, 0, 0, 1, 3, 0,
            0, 0, 0, 0, 0, 0
        ]
    );
}

#[test]
fn malformed_messages_are_refused() {
    for bytes in [
        vec![],
        vec![6],
        vec![0, 0],
        vec![2, 1, 0, 0],
        vec![3, 1, 0, 0, 0, 5, 0, 0, 0, 1],
        vec![4, 1, 0, 0, 0, 0xff],
        vec![5, 0, 0, 0, 0, 1],
        vec![1, 0, 0, 0, 0, 0, 0, 0, 0, 0, 0, 0, 0, 0, 0, 0, 0, 0, 0, 0, 0, 2],
    ] {
        assert_eq!(DirectMessage::decode(&bytes).unwrap_err(), MessageError::Malformed);
    }
    assert_eq!(MAX_MESSAGE_BYTES, 1_048_576);
    assert_eq!(STREAMING_ALPN, "cyberfly/streaming/0");
}

#[test]
fn a_file_of_a_million_bytes_arrives_in_ten_chunks() {
    let source: Vec<u8> = (0..1_000_000u32).map(|i| (i % 251) as u8).collect();
    let file = FileBroadcast::new("v.mp4", "video/mp4", source.clone(), 100_000, None).unwrap();
    let metadata = file.respond(&DirectMessage::RequestMetadata).unwrap();
    assert_eq!(
        metadata,
        DirectMessage::Metadata {
            file_name: "v.mp4".into(),
            file_size: 1_000_000,
            mime_type: "video/mp4".into(),
            total_chunks: 10,
            duration_ms: None,
        }
    );
    let mut download = FileDownload::new(10);
    assert_eq!(download.next_missing(), Some(0));
    // The chunks arrive in any order, each over the wire.
    for index in [9u32, 0, 5, 1, 2, 3, 4, 8, 7, 6] {
        assert!(!download.is_complete());
        assert_eq!(download.assemble(), None);
        let request = DirectMessage::RequestChunk { index }.encode().unwrap();
        let answer = file.respond(&DirectMessage::decode(&request).unwrap()).unwrap();
        match DirectMessage::decode(&answer.encode().unwrap()).unwrap() {
            DirectMessage::Chunk { index: got, data } => {
                assert_eq!(got, index);
                assert_eq!(data.len(), 100_000);
                assert!(download.on_chunk(got, data));
            }
            other => panic!("no chunk: {:?}", other),
        }
    }
    assert!(download.is_complete());
    assert_eq!(download.next_missing(), None);
    let received = download.assemble().unwrap();
    assert_eq!(received.len(), 1_000_000);
    assert_eq!(received, source);
}

#[test]
fn the_last_chunk_may_be_short() {
    let file = FileBroadcast::new("f", "m", (0..10u8).collect(), 4, Some(9)).unwrap();
    assert_eq!(file.total_chunks(), 3);
    let chunk = |index| file.respond(&DirectMessage::RequestChunk { index });
    assert_eq!(chunk(0), Some(DirectMessage::Chunk { index: 0, data: vec![0, 1, 2, 3] }));
    assert_eq!(chunk(2), Some(DirectMessage::Chunk { index: 2, data: vec![8, 9] }));
    assert_eq!(chunk(3), None);
    assert_eq!(file.respond(&DirectMessage::Presence { name: "x".into() }), None);
    assert_eq!(file.respond(&DirectMessage::Chunk { index: 0, data: vec![] }), None);
    assert!(FileBroadcast::new("f", "m", vec![1], 0, None).is_none());
    let empty = FileBroadcast::new("f", "m", vec![], 4, None).unwrap();
    assert_eq!(empty.total_chunks(), 0);
    assert_eq!(FileDownload::new(0).assemble(), Some(vec![]));
    let mut download = FileDownload::new(2);
    assert!(!download.on_chunk(2, vec![1]));
    assert!(download.on_chunk(1, vec![1]));
    assert!(download.on_chunk(1, vec![2]));
    assert_eq!(download.next_missing(), Some(0));
    assert!(download.on_chunk(0, vec![3]));
    assert_eq!(download.assemble(), Some(vec![3, 2]));
}

#[test]
fn direct_tickets_round_trip() {
    let addr = EndpointAddress {
        id: endpoint(),
        relay_urls: vec!["https://relay.example/".into(), "https://second.example/".into()],
        ip_addrs: vec![SocketAddress::V6 { ip: u128::MAX, port: 1 }],
    };
    let ticket = DirectStreamTicket::new(&addr);
    assert_eq!(ticket.relay_url.as_deref(), Some("https://relay.example/"));
    let text = ticket.serialize().unwrap();
    assert!(text.chars().all(|c| c.is_ascii_uppercase() || ('2'..='7').contains(&c)));
    assert_eq!(DirectStreamTicket::deserialize(&text).unwrap(), ticket);
    let back = ticket.to_endpoint_addr();
    assert_eq!(back.relay_urls, vec!["https://relay.example/"]);
    assert_eq!(back.ip_addrs, addr.ip_addrs);
    let bare = DirectStreamTicket { endpoint_id: endpoint(), relay_url: None, direct_addrs: vec![] };
    assert_eq!(DirectStreamTicket::deserialize(&bare.serialize().unwrap()).unwrap(), bare);
    // Lower case is not this ticket's form, and a named ticket is no direct ticket.
    assert_eq!(
        DirectStreamTicket::deserialize(&text.to_lowercase()).unwrap_err(),
        TicketError::InvalidEncoding
    );
    let named = LiveTicket::new(endpoint(), "cam").serialize().to_uppercase();
    assert_eq!(DirectStreamTicket::deserialize(&named).unwrap_err(), TicketError::InvalidRecord);
}
