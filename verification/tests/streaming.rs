use moq_live::endpoint::EndpointId;
use moq_live::endpoint::SecretKey;
use moq_live::streaming::SignedMessage;
use moq_live::streaming::StreamError;
use moq_live::streaming::StreamEvent;
use moq_live::live_streaming::TicketError;
use moq_live::streaming::StreamMessage;
use moq_live::streaming::StreamTicket;
use moq_live::streaming::STREAM_PREFIX;
use moq_live::streaming::TICKET_KIND;

fn key() -> SecretKey {
    SecretKey::from_bytes(&[7u8; 32])
}

fn no_key() -> [u8; 32] {
    (0..=255u8)
        .map(|k| {
            let mut bytes = [0u8; 32];
            bytes[0] = k;
            bytes
        })
        .find(|bytes| EndpointId::from_bytes(bytes).is_err())
        .unwrap()
}

#[test]
fn signed_messages_come_back_with_their_sender() {
    let messages = vec![
        StreamMessage::Presence { name: "ann".to_string() },
        StreamMessage::Presence { name: String::new() },
        StreamMessage::MediaChunk { data: vec![1, 2, 3], sequence: 9 },
        StreamMessage::MediaChunk { data: vec![], sequence: 0 },
        StreamMessage::Signal { data: b"{\"sdp\":1}".to_vec() },
    ];
    for message in messages {
        let bytes = SignedMessage::sign_and_encode_at(&key(), &message, 1234).unwrap();
        let received = SignedMessage::verify_and_decode(&bytes).unwrap();
        assert_eq!(received.from, key().public());
        assert_eq!(received.timestamp, 1234);
        assert_eq!(received.message, message);
        // Signing is a function of the key and the bytes.
        assert_eq!(SignedMessage::sign_and_encode_at(&key(), &message, 1234).unwrap(), bytes);
        assert_ne!(SignedMessage::sign_and_encode_at(&key(), &message, 1235).unwrap(), bytes);
    }
}

#[test]
fn the_bytes_of_a_signed_message() {
    let message = StreamMessage::Presence { name: "ann".to_string() };
    let bytes = SignedMessage::sign_and_encode_at(&key(), &message, 1).unwrap();
    assert_eq!(bytes.len(), 32 + 64 + 4 + 29);
    assert_eq!(&bytes[..32], key().public().as_bytes());
    assert_eq!(&bytes[32..96], &key().sign(&bytes[100..]));
    assert_eq!(&bytes[96..100], &[29, 0, 0, 0]);
    let signed: Vec<u8> = vec![
        0, 1, 0, 0, 0, 0, 0, 0, 0, 0, 3, 0, 0, 0, b'a', b'n', b'n', 0, 0, 0, 0, 0, 0, 0, 0, 0, 0, 0, 0,
    ];
    assert_eq!(&bytes[100..], &signed[..]);
    assert!(key().public().verifies(&signed, &key().sign(&signed)));
    assert!(!key().public().verifies(&signed[1..], &key().sign(&signed)));
}

#[test]
fn a_message_that_was_changed_is_refused() {
    let message = StreamMessage::MediaChunk { data: vec![1, 2, 3], sequence: 9 };
    let bytes = SignedMessage::sign_and_encode_at(&key(), &message, 5).unwrap();
    // The signed bytes were changed.
    let mut changed = bytes.clone();
    let last = changed.len() - 1;
    changed[last] ^= 1;
    assert_eq!(SignedMessage::verify_and_decode(&changed).unwrap_err(), StreamError::BadSignature);
    // The signature was changed.
    let mut changed = bytes.clone();
    changed[40] ^= 1;
    assert_eq!(SignedMessage::verify_and_decode(&changed).unwrap_err(), StreamError::BadSignature);
    // Another sender is named.
    let other = SecretKey::from_bytes(&[8u8; 32]).public();
    let mut changed = bytes.clone();
    changed[..32].copy_from_slice(other.as_bytes());
    assert_eq!(SignedMessage::verify_and_decode(&changed).unwrap_err(), StreamError::BadSignature);
    // The sender's key is no key.
    let mut changed = bytes.clone();
    changed[..32].copy_from_slice(&no_key());
    assert_eq!(SignedMessage::verify_and_decode(&changed).unwrap_err(), StreamError::InvalidKey);
    // Bytes are missing, or follow.
    for cut in 0..bytes.len() {
        assert_eq!(SignedMessage::verify_and_decode(&bytes[..cut]).unwrap_err(), StreamError::Malformed);
    }
    let mut longer = bytes.clone();
    longer.push(0);
    assert_eq!(SignedMessage::verify_and_decode(&longer).unwrap_err(), StreamError::Malformed);
}

fn signed(data: &[u8]) -> Vec<u8> {
    let mut out = key().public().as_bytes().to_vec();
    out.extend_from_slice(&key().sign(data));
    out.extend_from_slice(&(data.len() as u32).to_le_bytes());
    out.extend_from_slice(data);
    out
}

#[test]
fn signed_bytes_that_are_no_message_are_refused() {
    let good: Vec<u8> = vec![
        0, 1, 0, 0, 0, 0, 0, 0, 0, 2, 0, 0, 0, 0, 1, 0, 0, 0, 7, 0, 0, 0, 0, 0, 0, 0, 0,
    ];
    let received = SignedMessage::verify_and_decode(&signed(&good)).unwrap();
    assert_eq!(received.message, StreamMessage::Signal { data: vec![7] });
    assert_eq!(received.timestamp, 1);
    // A later version of the format.
    let mut bad = good.clone();
    bad[0] = 1;
    assert_eq!(SignedMessage::verify_and_decode(&signed(&bad)).unwrap_err(), StreamError::Malformed);
    // A kind that no number stands for.
    let mut bad = good.clone();
    bad[9] = 3;
    assert_eq!(SignedMessage::verify_and_decode(&signed(&bad)).unwrap_err(), StreamError::Malformed);
    // A signal with a sequence number.
    let mut bad = good.clone();
    bad[19] = 1;
    assert_eq!(SignedMessage::verify_and_decode(&signed(&bad)).unwrap_err(), StreamError::Malformed);
    // A presence with data.
    let mut bad = good.clone();
    bad[9] = 0;
    assert_eq!(SignedMessage::verify_and_decode(&signed(&bad)).unwrap_err(), StreamError::Malformed);
    // The same bytes as a chunk.
    let mut chunk = good.clone();
    chunk[9] = 1;
    assert_eq!(
        SignedMessage::verify_and_decode(&signed(&chunk)).unwrap().message,
        StreamMessage::MediaChunk { data: vec![7], sequence: 0 }
    );
    // Bytes behind the fields.
    let mut bad = good.clone();
    bad.push(0);
    assert_eq!(SignedMessage::verify_and_decode(&signed(&bad)).unwrap_err(), StreamError::Malformed);
    assert_eq!(SignedMessage::verify_and_decode(&signed(&[])).unwrap_err(), StreamError::Malformed);
}

#[test]
fn a_received_message_becomes_an_event() {
    let message = StreamMessage::MediaChunk { data: vec![4], sequence: 2 };
    let bytes = SignedMessage::sign_and_encode(&key(), &message).unwrap();
    let received = SignedMessage::verify_and_decode(&bytes).unwrap();
    assert!(received.timestamp > 1_600_000_000_000_000);
    let sent = received.timestamp;
    match StreamEvent::from_received(received) {
        StreamEvent::MediaChunk { from, data, sequence, timestamp } => {
            assert_eq!(from, key().public());
            assert_eq!((data, sequence, timestamp), (vec![4], 2, sent));
        }
        other => panic!("{other:?}"),
    }
}

#[test]
fn stream_tickets_come_back_from_their_text() {
    let first = key().public();
    let second = SecretKey::from_bytes(&[8u8; 32]).public();
    let mut ticket = StreamTicket::new([3u8; 32]);
    assert!(!ticket.names(&first));
    ticket.insert(first);
    ticket.insert(second);
    ticket.insert(first);
    assert_eq!(ticket.bootstrap, vec![first, second]);
    assert!(ticket.names(&second));
    let text = ticket.serialize_ticket().unwrap();
    assert!(text.starts_with("stream"));
    assert_eq!(text, text.to_lowercase());
    let back = StreamTicket::deserialize_ticket(&text).unwrap();
    assert_eq!(back.topic_id, [3u8; 32]);
    assert_eq!(back.bootstrap, vec![first, second]);
    // The record may be written in capitals; the word before it may not.
    let capitals = format!("stream{}", text[6..].to_uppercase());
    assert_eq!(StreamTicket::deserialize_ticket(&capitals).unwrap().bootstrap, vec![first, second]);
    assert_eq!(
        StreamTicket::deserialize_ticket(&text.to_uppercase()).unwrap_err(),
        TicketError::MissingSeparator
    );
    assert_eq!(StreamTicket::deserialize_ticket("strea").unwrap_err(), TicketError::MissingSeparator);
    assert_eq!(StreamTicket::deserialize_ticket("stream!").unwrap_err(), TicketError::InvalidEncoding);
    assert_eq!(StreamTicket::deserialize_ticket("stream").unwrap_err(), TicketError::InvalidRecord);
    assert_eq!(StreamTicket::deserialize_ticket("streammfrgg").unwrap_err(), TicketError::InvalidRecord);
    assert_eq!(TICKET_KIND, "stream");
    assert_eq!(STREAM_PREFIX, "iroh-streaming/0:");
}

#[test]
fn the_record_of_a_stream_ticket() {
    let id = key().public();
    let mut ticket = StreamTicket::new([3u8; 32]);
    let empty = ticket.to_bytes().unwrap();
    let mut expected = vec![32, 0, 0, 0];
    expected.extend_from_slice(&[3u8; 32]);
    expected.extend_from_slice(&[0, 0, 0, 0]);
    assert_eq!(empty, expected);
    ticket.insert(id);
    let bytes = ticket.to_bytes().unwrap();
    expected[36] = 1;
    expected.extend_from_slice(&[0, 0, 0, 0, 32, 0, 0, 0]);
    expected.extend_from_slice(id.as_bytes());
    assert_eq!(bytes, expected);
    assert_eq!(StreamTicket::from_bytes(&bytes).unwrap().bootstrap, vec![id]);
    // An endpoint whose id is no key.
    let mut bad = bytes.clone();
    bad[48..80].copy_from_slice(&no_key());
    assert!(StreamTicket::from_bytes(&bad).is_none());
    // A topic of 31 bytes.
    let mut short = vec![31, 0, 0, 0];
    short.extend_from_slice(&[3u8; 31]);
    short.extend_from_slice(&[0, 0, 0, 0]);
    assert!(StreamTicket::from_bytes(&short).is_none());
    // An endpoint under a key that is not empty.
    let mut keyed = expected[..40].to_vec();
    keyed.extend_from_slice(&[1, 0, 0, 0, b'k', 32, 0, 0, 0]);
    keyed.extend_from_slice(id.as_bytes());
    assert!(StreamTicket::from_bytes(&keyed).is_none());
    // Bytes behind the record.
    let mut longer = bytes.clone();
    longer.push(0);
    assert!(StreamTicket::from_bytes(&longer).is_none());
    for cut in 0..bytes.len() {
        assert!(StreamTicket::from_bytes(&bytes[..cut]).is_none());
    }
}
