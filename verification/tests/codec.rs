use moq_live::record::copy_extensions;
use moq_live::moq_protocol::Extension;
use moq_live::moq_protocol::FetchRequest;
use moq_live::moq_protocol::FilterType;
use moq_live::moq_protocol::FrameError;
use moq_live::moq_protocol::FullTrackName;
use moq_live::moq_protocol::GroupOrder;
use moq_live::moq_protocol::MessageKind;
use moq_live::moq_protocol::MoqMessage;
use moq_live::moq_protocol::MoqObject;
use moq_live::moq_protocol::Namespace;
use moq_live::moq_protocol::ObjectStatus;
use moq_live::moq_protocol::SubscriptionParams;
use moq_live::moq_protocol::TrackStatus;
use moq_live::moq_protocol::TrackStatusCode;
use moq_live::record::FieldKind;
use moq_live::record::Value;
use moq_live::record::read_value;
use moq_live::record::read_values;
use moq_live::record::values_fit;
use moq_live::record::write_values;

fn track() -> FullTrackName {
    FullTrackName::new(Namespace::from_str("live/cam"), "video-720p")
}

fn params(filter: FilterType, order: GroupOrder) -> SubscriptionParams {
    let mut p = SubscriptionParams::new(track()).with_filter(filter).with_order(order).with_priority(64);
    p.delivery_timeout_ms = 250;
    p.max_cache_duration_ms = Some(9000);
    p
}

fn status(code: TrackStatusCode) -> TrackStatus {
    TrackStatus {
        track: track(),
        status: code,
        latest_group_id: Some(12),
        latest_object_id: None,
        group_order: GroupOrder::Descending,
        publisher_priority: 200,
    }
}

fn object(status: ObjectStatus) -> MoqObject {
    let mut o = MoqObject::new_at(3, 1, 7, vec![1, 2, 3, 4], 1000).with_priority(5).with_extension("k", vec![9]);
    o.expires_at = Some(3000);
    o.status = status;
    o
}

fn extension(key: &str, value: &[u8]) -> Extension {
    Extension { key: key.to_string(), value: value.to_vec() }
}

fn every_message() -> Vec<MoqMessage> {
    let ns = || Namespace::from_str("live/cam");
    vec![
        MoqMessage::ClientSetup {
            supported_versions: vec![1, 2, 0xff00_0001],
            params: vec![extension("role", b"pubsub"), extension("", b"")],
        },
        MoqMessage::ServerSetup { selected_version: 2, params: vec![] },
        MoqMessage::AnnounceNamespace { namespace: ns(), tracks: vec!["video".to_string(), "audio".to_string()] },
        MoqMessage::AnnounceNamespaceOk { namespace: ns() },
        MoqMessage::AnnounceNamespaceError { namespace: ns(), error: "taken".to_string() },
        MoqMessage::UnannounceNamespace { namespace: Namespace::new(vec![]) },
        MoqMessage::SubscribeNamespace { namespace_prefix: ns() },
        MoqMessage::SubscribeNamespaceOk { namespace_prefix: ns() },
        MoqMessage::SubscribeNamespaceError { namespace_prefix: ns(), error: "nö".to_string() },
        MoqMessage::Subscribe { subscribe_id: 1, params: params(FilterType::LatestGroup, GroupOrder::Ascending) },
        MoqMessage::Subscribe { subscribe_id: 2, params: params(FilterType::LatestObject, GroupOrder::Descending) },
        MoqMessage::Subscribe { subscribe_id: 3, params: params(FilterType::NextGroup, GroupOrder::PublisherDefault) },
        MoqMessage::Subscribe {
            subscribe_id: 4,
            params: params(FilterType::AbsoluteStart { start_group: 3, start_object: 5 }, GroupOrder::Ascending),
        },
        MoqMessage::SubscribeOk { subscribe_id: 1, status: status(TrackStatusCode::Active) },
        MoqMessage::SubscribeError { subscribe_id: 1, error: "out of range".to_string() },
        MoqMessage::SubscribeUpdate {
            subscribe_id: 1,
            params: params(
                FilterType::AbsoluteRange { start_group: 3, start_object: 5, end_group: 5, end_object: Some(0) },
                GroupOrder::Ascending,
            ),
        },
        MoqMessage::SubscribeUpdate {
            subscribe_id: 1,
            params: params(
                FilterType::AbsoluteRange { start_group: 0, start_object: 0, end_group: 0, end_object: None },
                GroupOrder::Ascending,
            ),
        },
        MoqMessage::Unsubscribe { subscribe_id: u64::MAX },
        MoqMessage::SubscribeDone { subscribe_id: 1, reason: "shutdown".to_string() },
        MoqMessage::Object { subscribe_id: 1, object: object(ObjectStatus::Normal) },
        MoqMessage::Object { subscribe_id: 1, object: object(ObjectStatus::EndOfSubgroup) },
        MoqMessage::ObjectAck { subscribe_id: 1, group_id: 2, object_id: 3 },
        MoqMessage::Fetch { fetch_id: 8, request: FetchRequest::new(track(), 3, 5, 5, None).with_priority(9) },
        MoqMessage::FetchOk { fetch_id: 8, status: status(TrackStatusCode::Ended) },
        MoqMessage::FetchError { fetch_id: 8, error: String::new() },
        MoqMessage::FetchCancel { fetch_id: 8 },
        MoqMessage::TrackStatusRequest { track: FullTrackName::from_path("solo") },
        MoqMessage::TrackStatusResponse { status: status(TrackStatusCode::Unknown) },
        MoqMessage::GoAway { new_uri: Some("https://elsewhere.example".to_string()) },
        MoqMessage::GoAway { new_uri: None },
    ]
}

#[test]
fn every_message_comes_back_from_its_frame() {
    for message in every_message() {
        let bytes = message.encode().unwrap();
        assert_eq!(bytes[0], message.kind().tag());
        let body = u32::from_le_bytes([bytes[1], bytes[2], bytes[3], bytes[4]]) as usize;
        assert_eq!(bytes.len(), 5 + body);
        let (back, next) = MoqMessage::decode(&bytes).unwrap();
        assert_eq!(next, bytes.len());
        assert_eq!(format!("{back:?}"), format!("{message:?}"));
        // What follows a frame is left for the next read.
        let mut two = bytes.clone();
        two.extend_from_slice(&bytes);
        two.push(77);
        let (first, at) = MoqMessage::decode(&two).unwrap();
        let (second, end) = MoqMessage::decode(&two[at..]).unwrap();
        assert_eq!(format!("{first:?}"), format!("{second:?}"));
        assert_eq!(at + end, two.len() - 1);
        // A frame that is cut short is no frame yet.
        for cut in 0..bytes.len() {
            assert_eq!(MoqMessage::decode(&bytes[..cut]).unwrap_err(), FrameError::Incomplete);
        }
    }
}

#[test]
fn the_bytes_of_some_frames() {
    let bytes = MoqMessage::Unsubscribe { subscribe_id: 7 }.encode().unwrap();
    assert_eq!(bytes, vec![13, 8, 0, 0, 0, 7, 0, 0, 0, 0, 0, 0, 0]);
    let bytes = MoqMessage::GoAway { new_uri: None }.encode().unwrap();
    assert_eq!(bytes, vec![23, 1, 0, 0, 0, 0]);
    let bytes = MoqMessage::GoAway { new_uri: Some("ab".to_string()) }.encode().unwrap();
    assert_eq!(bytes, vec![23, 7, 0, 0, 0, 1, 2, 0, 0, 0, b'a', b'b']);
    let bytes = MoqMessage::AnnounceNamespaceError {
        namespace: Namespace::from_str("a/bc"),
        error: "x".to_string(),
    }
    .encode()
    .unwrap();
    assert_eq!(
        bytes,
        vec![4, 20, 0, 0, 0, 2, 0, 0, 0, 1, 0, 0, 0, b'a', 2, 0, 0, 0, b'b', b'c', 1, 0, 0, 0, b'x']
    );
    let bytes = MoqMessage::ObjectAck { subscribe_id: 1, group_id: 0x0102, object_id: 3 }.encode().unwrap();
    assert_eq!(
        bytes,
        vec![16, 24, 0, 0, 0, 1, 0, 0, 0, 0, 0, 0, 0, 2, 1, 0, 0, 0, 0, 0, 0, 3, 0, 0, 0, 0, 0, 0, 0]
    );
    let bytes = MoqMessage::ServerSetup { selected_version: 5, params: vec![extension("k", &[8, 9])] }
        .encode()
        .unwrap();
    assert_eq!(bytes, vec![1, 19, 0, 0, 0, 5, 0, 0, 0, 1, 0, 0, 0, 1, 0, 0, 0, b'k', 2, 0, 0, 0, 8, 9]);
}

#[test]
fn kinds_and_their_bytes() {
    for tag in 0..=23u8 {
        assert_eq!(MessageKind::from_tag(tag).unwrap().tag(), tag);
    }
    assert_eq!(MessageKind::from_tag(24), None);
    assert_eq!(MessageKind::from_tag(255), None);
    assert_eq!(MessageKind::Subscribe.tag(), 9);
    assert_eq!(MessageKind::Object.tag(), 15);
    assert_eq!(MoqMessage::FetchCancel { fetch_id: 0 }.kind(), MessageKind::FetchCancel);
}

#[test]
fn a_reader_steps_over_what_it_does_not_know() {
    // A kind from a later version of the protocol.
    let mut bytes = vec![200, 3, 0, 0, 0, 1, 2, 3];
    let known = MoqMessage::FetchCancel { fetch_id: 4 }.encode().unwrap();
    bytes.extend_from_slice(&known);
    assert_eq!(MoqMessage::decode(&bytes).unwrap_err(), FrameError::Unreadable { next: 8 });
    let (m, next) = MoqMessage::decode(&bytes[8..]).unwrap();
    assert_eq!(format!("{m:?}"), "FetchCancel { fetch_id: 4 }");
    assert_eq!(next, known.len());
    // A body that holds more than the fields of its kind: the rest is passed over.
    let longer = vec![20, 10, 0, 0, 0, 4, 0, 0, 0, 0, 0, 0, 0, 0xaa, 0xbb];
    let (m, next) = MoqMessage::decode(&longer).unwrap();
    assert_eq!(format!("{m:?}"), "FetchCancel { fetch_id: 4 }");
    assert_eq!(next, 15);
    // A body that is too short for its fields.
    let shorter = vec![20, 7, 0, 0, 0, 4, 0, 0, 0, 0, 0, 0];
    assert_eq!(MoqMessage::decode(&shorter).unwrap_err(), FrameError::Unreadable { next: 12 });
}

fn with_byte(message: &MoqMessage, at: usize, byte: u8) -> Vec<u8> {
    let mut bytes = message.encode().unwrap();
    bytes[at] = byte;
    bytes
}

#[test]
fn numbers_that_stand_for_nothing_are_refused() {
    // 5 bytes of frame header, 8 of the id, then the namespace "live/cam"
    // (4 + 4 + 4 + 4 + 3 bytes) and the name "video-720p" (4 + 10 bytes).
    let fields = 5 + 8 + 19 + 14;
    let subscribe = MoqMessage::Subscribe {
        subscribe_id: 1,
        params: params(FilterType::AbsoluteStart { start_group: 3, start_object: 5 }, GroupOrder::Ascending),
    };
    let whole = subscribe.encode().unwrap().len();
    assert!(MoqMessage::decode(&with_byte(&subscribe, fields, 4)).is_ok());
    // No filter has the number 5.
    assert_eq!(
        MoqMessage::decode(&with_byte(&subscribe, fields, 5)).unwrap_err(),
        FrameError::Unreadable { next: whole }
    );
    // The latest group has no start.
    assert_eq!(
        MoqMessage::decode(&with_byte(&subscribe, fields, 0)).unwrap_err(),
        FrameError::Unreadable { next: whole }
    );
    // The filter's fields take 1 + 8 + 8 + 8 + 1 bytes; the order follows.
    let order = fields + 26;
    assert!(MoqMessage::decode(&with_byte(&subscribe, order, 2)).is_ok());
    assert_eq!(
        MoqMessage::decode(&with_byte(&subscribe, order, 3)).unwrap_err(),
        FrameError::Unreadable { next: whole }
    );
    let ok = MoqMessage::SubscribeOk { subscribe_id: 1, status: status(TrackStatusCode::Active) };
    let whole = ok.encode().unwrap().len();
    assert!(MoqMessage::decode(&with_byte(&ok, fields, 4)).is_ok());
    assert_eq!(
        MoqMessage::decode(&with_byte(&ok, fields, 5)).unwrap_err(),
        FrameError::Unreadable { next: whole }
    );
    let data = MoqMessage::Object { subscribe_id: 1, object: object(ObjectStatus::Normal) };
    let whole = data.encode().unwrap().len();
    // Three ids, the priority and the expiry stand before the status.
    let status_at = 5 + 8 + 24 + 1 + 9;
    assert!(MoqMessage::decode(&with_byte(&data, status_at, 3)).is_ok());
    assert_eq!(
        MoqMessage::decode(&with_byte(&data, status_at, 9)).unwrap_err(),
        FrameError::Unreadable { next: whole }
    );
    // A text that is no UTF-8.
    let mut done = MoqMessage::SubscribeDone { subscribe_id: 1, reason: "ab".to_string() }.encode().unwrap();
    let last = done.len() - 1;
    done[last] = 0xff;
    assert_eq!(MoqMessage::decode(&done).unwrap_err(), FrameError::Unreadable { next: last + 1 });
    // An optional value with a flag that is neither 0 nor 1.
    assert_eq!(
        MoqMessage::decode(&[23, 1, 0, 0, 0, 2]).unwrap_err(),
        FrameError::Unreadable { next: 6 }
    );
}

#[test]
fn records_of_fields() {
    let values = vec![
        Value::U8(7),
        Value::U32(0x0102_0304),
        Value::U64(1),
        Value::OptU64(Some(2)),
        Value::OptU64(None),
        Value::Text("é".to_string()),
        Value::OptText(Some("x".to_string())),
        Value::OptText(None),
        Value::Blob(vec![1, 2]),
        Value::Texts(vec!["a".to_string(), String::new()]),
        Value::Numbers(vec![5, 6]),
        Value::Pairs(vec![extension("k", &[3])]),
    ];
    assert!(values_fit(&values));
    let mut out = vec![0xee];
    write_values(&mut out, &values);
    let expected: Vec<u8> = vec![
        0xee, 7, 4, 3, 2, 1, 1, 0, 0, 0, 0, 0, 0, 0, 1, 2, 0, 0, 0, 0, 0, 0, 0, 0, 2, 0, 0, 0, 0xc3, 0xa9, 1, 1, 0,
        0, 0, b'x', 0, 2, 0, 0, 0, 1, 2, 2, 0, 0, 0, 1, 0, 0, 0, b'a', 0, 0, 0, 0, 2, 0, 0, 0, 5, 0, 0, 0, 6, 0, 0,
        0, 1, 0, 0, 0, 1, 0, 0, 0, b'k', 1, 0, 0, 0, 3,
    ];
    assert_eq!(out, expected);
    let kinds = vec![
        FieldKind::U8,
        FieldKind::U32,
        FieldKind::U64,
        FieldKind::OptU64,
        FieldKind::OptU64,
        FieldKind::Text,
        FieldKind::OptText,
        FieldKind::OptText,
        FieldKind::Blob,
        FieldKind::Texts,
        FieldKind::Numbers,
        FieldKind::Pairs,
    ];
    let (back, next) = read_values(&out, 1, &kinds).unwrap();
    assert_eq!(next, out.len());
    assert_eq!(format!("{back:?}"), format!("{values:?}"));
    assert!(read_values(&out[..out.len() - 1], 1, &kinds).is_none());
    assert!(read_value(&[2, 0, 0, 0, 1], 0, FieldKind::Blob).is_none());
    assert!(read_value(&[3, 0, 0, 0, 1, 0, 0, 0, 2, 0, 0, 0], 0, FieldKind::Numbers).is_none());
    let copy = copy_extensions(&vec![extension("a", &[1]), extension("b", &[])]);
    assert_eq!(copy.len(), 2);
    assert_eq!((copy[1].key.as_str(), copy[1].value.len()), ("b", 0));
}
