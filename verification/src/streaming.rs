//! Quality presets and messages of gossip-based streaming.

use vstd::prelude::*;
use vstd::slice::slice_to_vec;
use vstd::utf8::encode_utf8;
use crate::base32::base32_bytes;
use crate::base32::base32_text;
use crate::base32::lemma_case_round_trip;
use crate::clock::now_micros;
use crate::live_streaming::TicketError;
use crate::moq_protocol::object::extension_models;
use crate::moq_protocol::object::Extension;
use crate::text::ascii_lower;
use crate::text::ascii_upper;
use crate::text::has_prefix;
use crate::text::starts_with;
use crate::text::to_ascii_lowercase;
use crate::text::to_ascii_uppercase;
use crate::endpoint::is_endpoint_key;
use crate::endpoint::is_signed;
use crate::endpoint::public_of;
use crate::endpoint::signature_of;
use crate::endpoint::EndpointId;
use crate::endpoint::SecretKey;
use crate::moq_protocol::object::copy_bytes;
use crate::record::blob_at;
use crate::record::fields;
use crate::record::fields_fit;
use crate::record::kinds_of;
use crate::record::lemma_fields_round_trip;
use crate::record::lemma_parsed_kinds;
use crate::record::lemma_typed;
use crate::record::parse_fields;
use crate::record::push_value;
use crate::record::put_fields;
use crate::record::read_values;
use crate::record::text_at;
use crate::record::u64_at;
use crate::record::u8_at;
use crate::record::values_fit;
use crate::record::write_values;
use crate::record::Field;
use crate::record::FieldKind;
use crate::record::Value;
use crate::wire::lemma_parse_fixed;
use crate::wire::lemma_parse_put_blob;
use crate::wire::parse_blob;
use crate::wire::parse_fixed;
use crate::wire::put_blob;
use crate::wire::read_blob;
use crate::wire::read_fixed;
use crate::wire::text_fits;
use crate::wire::write_blob;
use crate::wire::write_raw;

verus! {

/// What the string form of a stream ticket begins with.
pub const STREAM_PREFIX: &'static str = "iroh-streaming/0:";

/// A message of a stream.
#[derive(Debug, Clone, PartialEq, Eq)]
pub enum StreamMessage {
    Presence { name: String },
    MediaChunk { data: Vec<u8>, sequence: u64 },
    Signal { data: Vec<u8> },
}

/// A message as it is signed and sent.
#[derive(Debug, Clone, PartialEq, Eq)]
pub enum WireMessage {
    V0 { timestamp: u64, message: StreamMessage },
}

/// A message whose signature was found good.
#[derive(Debug, Clone)]
pub struct ReceivedMessage {
    pub timestamp: u64,
    pub from: EndpointId,
    pub message: StreamMessage,
}

/// What a stream tells its listener.
#[derive(Debug, Clone)]
pub enum StreamEvent {
    NeighborUp { endpoint_id: EndpointId },
    NeighborDown { endpoint_id: EndpointId },
    Presence { from: EndpointId, name: String, sent_timestamp: u64 },
    MediaChunk { from: EndpointId, data: Vec<u8>, sequence: u64, timestamp: u64 },
    Signal { from: EndpointId, data: Vec<u8>, timestamp: u64 },
    Lagged,
}

impl StreamEvent {
    /// The event that a received message stands for: it names the sender
    /// and the time of sending, and holds what the message held.
    pub fn from_received(received: ReceivedMessage) -> (e: Self)
        ensures
            match received.message {
                StreamMessage::Presence { name } => e matches StreamEvent::Presence {
                    from,
                    name: n,
                    sent_timestamp,
                } && from == received.from && n == name && sent_timestamp == received.timestamp,
                StreamMessage::MediaChunk { data, sequence } => e matches StreamEvent::MediaChunk {
                    from,
                    data: d,
                    sequence: s,
                    timestamp,
                } && from == received.from && d == data && s == sequence && timestamp
                    == received.timestamp,
                StreamMessage::Signal { data } => e matches StreamEvent::Signal {
                    from,
                    data: d,
                    timestamp,
                } && from == received.from && d == data && timestamp == received.timestamp,
            },
    {
        match received.message {
            StreamMessage::Presence { name } => StreamEvent::Presence {
                from: received.from,
                name,
                sent_timestamp: received.timestamp,
            },
            StreamMessage::MediaChunk { data, sequence } => StreamEvent::MediaChunk {
                from: received.from,
                data,
                sequence,
                timestamp: received.timestamp,
            },
            StreamMessage::Signal { data } => StreamEvent::Signal {
                from: received.from,
                data,
                timestamp: received.timestamp,
            },
        }
    }
}

/// Stream quality preset.
#[derive(Debug, Clone, Copy, PartialEq, Eq, Structural)]
pub enum StreamQuality {
    /// 360 lines at 15 frames per second.
    Low,
    /// 480 lines at 24 frames per second.
    Medium,
    /// 720 lines at 30 frames per second.
    High,
    /// 1080 lines at 30 frames per second.
    Ultra,
}

impl StreamQuality {
    /// Width, height and frames per second.
    pub fn video_constraints(&self) -> (c: (u32, u32, u32))
        ensures
            c == match *self {
                StreamQuality::Low => (640u32, 360u32, 15u32),
                StreamQuality::Medium => (854u32, 480u32, 24u32),
                StreamQuality::High => (1280u32, 720u32, 30u32),
                StreamQuality::Ultra => (1920u32, 1080u32, 30u32),
            },
    {
        match self {
            StreamQuality::Low => (640, 360, 15),
            StreamQuality::Medium => (854, 480, 24),
            StreamQuality::High => (1280, 720, 30),
            StreamQuality::Ultra => (1920, 1080, 30),
        }
    }

    /// Bits per second of the audio.
    pub fn audio_bitrate(&self) -> (b: u32)
        ensures
            b == match *self {
                StreamQuality::Low => 32000u32,
                StreamQuality::Medium => 64000u32,
                StreamQuality::High => 128000u32,
                StreamQuality::Ultra => 192000u32,
            },
    {
        match self {
            StreamQuality::Low => 32000,
            StreamQuality::Medium => 64000,
            StreamQuality::High => 128000,
            StreamQuality::Ultra => 192000,
        }
    }
}

/// What a message of a stream holds, as mathematical values.
pub enum StreamModel {
    Presence { name: Seq<char> },
    MediaChunk { data: Seq<u8>, sequence: u64 },
    Signal { data: Seq<u8> },
}

impl View for StreamMessage {
    type V = StreamModel;

    open spec fn view(&self) -> StreamModel {
        match self {
            StreamMessage::Presence { name } => StreamModel::Presence { name: name@ },
            StreamMessage::MediaChunk { data, sequence } => StreamModel::MediaChunk {
                data: data@,
                sequence: *sequence,
            },
            StreamMessage::Signal { data } => StreamModel::Signal { data: data@ },
        }
    }
}

/// The six fields of a message as it is signed: the version of the
/// format, the time of sending, the number of the message's kind, and its
/// name, its data and its sequence number, of which a kind that does not
/// have one leaves its field empty or 0.
pub open spec fn wire_fields(timestamp: u64, m: StreamModel) -> Seq<Field> {
    match m {
        StreamModel::Presence { name } => seq![
            Field::U8(0),
            Field::U64(timestamp),
            Field::U8(0),
            Field::Text(name),
            Field::Blob(Seq::empty()),
            Field::U64(0),
        ],
        StreamModel::MediaChunk { data, sequence } => seq![
            Field::U8(0),
            Field::U64(timestamp),
            Field::U8(1),
            Field::Text(Seq::empty()),
            Field::Blob(data),
            Field::U64(sequence),
        ],
        StreamModel::Signal { data } => seq![
            Field::U8(0),
            Field::U64(timestamp),
            Field::U8(2),
            Field::Text(Seq::empty()),
            Field::Blob(data),
            Field::U64(0),
        ],
    }
}

/// The types of the fields of a message as it is signed.
pub open spec fn wire_schema() -> Seq<FieldKind> {
    seq![
        FieldKind::U8,
        FieldKind::U64,
        FieldKind::U8,
        FieldKind::Text,
        FieldKind::Blob,
        FieldKind::U64,
    ]
}

/// The time of sending and the message that six fields stand for.
pub open spec fn wire_of(all: Seq<Field>) -> Option<(u64, StreamModel)> {
    let timestamp = all[1]->U64_0;
    let kind = all[2]->U8_0;
    let name = all[3]->Text_0;
    let data = all[4]->Blob_0;
    let sequence = all[5]->U64_0;
    if all[0]->U8_0 != 0 {
        None
    } else if kind == 0 && data.len() == 0 && sequence == 0 {
        Some((timestamp, StreamModel::Presence { name }))
    } else if kind == 1 && name.len() == 0 {
        Some((timestamp, StreamModel::MediaChunk { data, sequence }))
    } else if kind == 2 && name.len() == 0 && sequence == 0 {
        Some((timestamp, StreamModel::Signal { data }))
    } else {
        None
    }
}

/// The bytes that are signed for a message sent at `timestamp`.
pub open spec fn wire_bytes(timestamp: u64, m: StreamModel) -> Seq<u8> {
    put_fields(wire_fields(timestamp, m))
}

/// The time of sending and the message that signed bytes stand for.
/// Nothing may follow the fields.
pub open spec fn parse_wire(data: Seq<u8>) -> Option<(u64, StreamModel)> {
    match parse_fields(wire_schema(), data) {
        Some((all, rest)) => if rest.len() == 0 {
            wire_of(all)
        } else {
            None
        },
        None => None,
    }
}

/// Whether a message sent at `timestamp` can be written: its name, its
/// data and the bytes that are signed are short enough for a length of
/// four bytes.
pub open spec fn wire_fits(timestamp: u64, m: StreamModel) -> bool {
    fields_fit(wire_fields(timestamp, m)) && wire_bytes(timestamp, m).len() <= u32::MAX
}

/// A message that is read back is the message that was written, with its
/// time of sending.
pub proof fn lemma_wire_round_trip(timestamp: u64, m: StreamModel)
    requires
        wire_fits(timestamp, m),
    ensures
        parse_wire(wire_bytes(timestamp, m)) == Some((timestamp, m)),
{
    let all = wire_fields(timestamp, m);
    assert(kinds_of(all) =~= wire_schema());
    lemma_fields_round_trip(all, Seq::<u8>::empty());
    assert(wire_bytes(timestamp, m) + Seq::<u8>::empty() =~= wire_bytes(timestamp, m));
    match m {
        StreamModel::Presence { name } => {
            assert(all[4]->Blob_0.len() == 0);
        },
        StreamModel::MediaChunk { data, sequence } => {
            assert(all[3]->Text_0.len() == 0);
        },
        StreamModel::Signal { data } => {
            assert(all[3]->Text_0.len() == 0);
        },
    }
}

/// A signed message: the 32 bytes of the sender's public key, the 64
/// bytes of the signature, and the signed bytes behind their length.
pub open spec fn signed_bytes(from: Seq<u8>, signature: Seq<u8>, data: Seq<u8>) -> Seq<u8> {
    from + signature + put_blob(data)
}

/// The key, the signature and the signed bytes that bytes stand for.
/// Nothing may follow them.
pub open spec fn parse_signed(bytes: Seq<u8>) -> Option<(Seq<u8>, Seq<u8>, Seq<u8>)> {
    match parse_fixed(bytes, 32) {
        None => None,
        Some((from, rest)) => match parse_fixed(rest, 64) {
            None => None,
            Some((signature, rest)) => match parse_blob(rest) {
                None => None,
                Some((data, rest)) => if rest.len() == 0 {
                    Some((from, signature, data))
                } else {
                    None
                },
            },
        },
    }
}

/// A signed message that is read back holds the key, the signature and
/// the signed bytes that were written.
pub proof fn lemma_signed_round_trip(from: Seq<u8>, signature: Seq<u8>, data: Seq<u8>)
    requires
        from.len() == 32,
        signature.len() == 64,
        data.len() <= u32::MAX,
    ensures
        parse_signed(signed_bytes(from, signature, data)) == Some((from, signature, data)),
{
    let r2 = put_blob(data);
    let r1 = signature + r2;
    assert(signed_bytes(from, signature, data) =~= from + r1);
    lemma_parse_fixed(from, r1);
    lemma_parse_fixed(signature, r2);
    lemma_parse_put_blob(data, Seq::<u8>::empty());
    assert(r2 + Seq::<u8>::empty() =~= r2);
}

/// Why a message of the stream was not taken.
#[derive(Debug, Clone, Copy, PartialEq, Eq, Structural)]
pub enum StreamError {
    /// The bytes are no signed message, or the signed bytes no message.
    Malformed,
    /// The sender's key is no public key.
    InvalidKey,
    /// The signature is not the sender's signature of the signed bytes.
    BadSignature,
}

/// What is made of the bytes of a signed message: they hold a key, a
/// signature and signed bytes; the key is a public key; the signature is
/// good; and the signed bytes stand for a message.
pub open spec fn received(bytes: Seq<u8>) -> Result<(Seq<u8>, u64, StreamModel), StreamError> {
    match parse_signed(bytes) {
        None => Err(StreamError::Malformed),
        Some((from, signature, data)) => if !is_endpoint_key(from) {
            Err(StreamError::InvalidKey)
        } else if !is_signed(from, data, signature) {
            Err(StreamError::BadSignature)
        } else {
            match parse_wire(data) {
                None => Err(StreamError::Malformed),
                Some((timestamp, message)) => Ok((from, timestamp, message)),
            }
        },
    }
}

fn wire_kinds() -> (kinds: Vec<FieldKind>)
    ensures
        kinds@ == wire_schema(),
{
    let mut kinds: Vec<FieldKind> = Vec::new();
    kinds.push(FieldKind::U8);
    kinds.push(FieldKind::U64);
    kinds.push(FieldKind::U8);
    kinds.push(FieldKind::Text);
    kinds.push(FieldKind::Blob);
    kinds.push(FieldKind::U64);
    proof {
        assert(kinds@ =~= wire_schema());
    }
    kinds
}

/// The signed message of a sender.
pub struct SignedMessage {
    pub from: EndpointId,
    pub data: Vec<u8>,
    pub signature: [u8; 64],
}

impl SignedMessage {
    /// The message that the bytes of a signed message stand for, with its
    /// sender and its time of sending, where the signature is the
    /// sender's.
    pub fn verify_and_decode(bytes: &[u8]) -> (r: Result<ReceivedMessage, StreamError>)
        ensures
            match r {
                Ok(m) => received(bytes@) == Ok::<(Seq<u8>, u64, StreamModel), StreamError>(
                    (m.from@, m.timestamp, m.message@),
                ),
                Err(e) => received(bytes@) == Err::<(Seq<u8>, u64, StreamModel), StreamError>(e),
            },
    {
        proof {
            assert(bytes@.skip(0) =~= bytes@);
        }
        let (key, at) = match read_fixed(bytes, 0, 32) {
            Some(r) => r,
            None => {
                return Err(StreamError::Malformed);
            },
        };
        let (sig, at) = match read_fixed(bytes, at, 64) {
            Some(r) => r,
            None => {
                return Err(StreamError::Malformed);
            },
        };
        let (data, next) = match read_blob(bytes, at) {
            Some(r) => r,
            None => {
                return Err(StreamError::Malformed);
            },
        };
        if next != bytes.len() {
            return Err(StreamError::Malformed);
        }
        let from = match EndpointId::from_slice(key) {
            Ok(id) => id,
            Err(_) => {
                return Err(StreamError::InvalidKey);
            },
        };
        let mut signature = [0u8; 64];
        let mut i: usize = 0;
        while i < 64
            invariant
                sig@.len() == 64,
                0 <= i <= 64,
                forall|k: int| 0 <= k < i ==> signature@[k] == sig@[k],
            decreases 64 - i,
        {
            signature[i] = sig[i];
            i = i + 1;
        }
        proof {
            assert(signature@ =~= sig@);
        }
        if !from.verifies(data, &signature) {
            return Err(StreamError::BadSignature);
        }
        let kinds = wire_kinds();
        proof {
            assert(data@.skip(0) =~= data@);
            lemma_parsed_kinds(wire_schema(), data@);
        }
        let (values, end) = match read_values(data, 0, &kinds) {
            Some(r) => r,
            None => {
                return Err(StreamError::Malformed);
            },
        };
        if end != data.len() {
            return Err(StreamError::Malformed);
        }
        let ghost all = fields(values@);
        proof {
            lemma_typed(all, wire_schema());
        }
        let version = u8_at(&values, 0);
        let timestamp = u64_at(&values, 1);
        let kind = u8_at(&values, 2);
        let name = text_at(&values, 3);
        let payload = blob_at(&values, 4);
        let sequence = u64_at(&values, 5);
        if version != 0 {
            return Err(StreamError::Malformed);
        }
        let message = if kind == 0 && payload.len() == 0 && sequence == 0 {
            StreamMessage::Presence { name }
        } else if kind == 1 && name.as_str().unicode_len() == 0 {
            StreamMessage::MediaChunk { data: payload, sequence }
        } else if kind == 2 && name.as_str().unicode_len() == 0 && sequence == 0 {
            StreamMessage::Signal { data: payload }
        } else {
            return Err(StreamError::Malformed);
        };
        Ok(ReceivedMessage { timestamp, from, message })
    }

    /// The bytes of `message`, sent at `timestamp` and signed with
    /// `secret_key`, where the message can be written.
    pub fn sign_and_encode_at(secret_key: &SecretKey, message: &StreamMessage, timestamp: u64) -> (r: Option<
        Vec<u8>,
    >)
        ensures
            r is Some <==> wire_fits(timestamp, message@),
            r matches Some(out) ==> out@ == signed_bytes(
                public_of(secret_key@),
                signature_of(secret_key@, wire_bytes(timestamp, message@)),
                wire_bytes(timestamp, message@),
            ) && received(out@) == (if is_signed(
                public_of(secret_key@),
                wire_bytes(timestamp, message@),
                signature_of(secret_key@, wire_bytes(timestamp, message@)),
            ) {
                Ok::<(Seq<u8>, u64, StreamModel), StreamError>(
                    (public_of(secret_key@), timestamp, message@),
                )
            } else {
                Err::<(Seq<u8>, u64, StreamModel), StreamError>(StreamError::BadSignature)
            }),
    {
        let mut values: Vec<Value> = Vec::new();
        proof {
            assert(fields(values@) =~= Seq::<Field>::empty());
        }
        push_value(&mut values, Value::U8(0));
        push_value(&mut values, Value::U64(timestamp));
        match message {
            StreamMessage::Presence { name } => {
                push_value(&mut values, Value::U8(0));
                push_value(&mut values, Value::Text(name.clone()));
                push_value(&mut values, Value::Blob(Vec::new()));
                push_value(&mut values, Value::U64(0));
            },
            StreamMessage::MediaChunk { data, sequence } => {
                push_value(&mut values, Value::U8(1));
                push_value(&mut values, Value::Text(String::new()));
                push_value(&mut values, Value::Blob(copy_bytes(data)));
                push_value(&mut values, Value::U64(*sequence));
            },
            StreamMessage::Signal { data } => {
                push_value(&mut values, Value::U8(2));
                push_value(&mut values, Value::Text(String::new()));
                push_value(&mut values, Value::Blob(copy_bytes(data)));
                push_value(&mut values, Value::U64(0));
            },
        }
        proof {
            assert(fields(values@) =~= wire_fields(timestamp, message@));
        }
        if !values_fit(&values) {
            return None;
        }
        let mut data: Vec<u8> = Vec::new();
        write_values(&mut data, &values);
        proof {
            assert(data@ =~= wire_bytes(timestamp, message@));
        }
        if data.len() > u32::MAX as usize {
            return None;
        }
        let signature = secret_key.sign(data.as_slice());
        let from = secret_key.public();
        let mut out: Vec<u8> = Vec::new();
        write_raw(&mut out, from.as_bytes().as_slice());
        write_raw(&mut out, signature.as_slice());
        write_blob(&mut out, data.as_slice());
        proof {
            use_type_invariant(&from);
            assert(out@ =~= signed_bytes(from@, signature@, data@));
            lemma_signed_round_trip(from@, signature@, data@);
            lemma_wire_round_trip(timestamp, message@);
        }
        Some(out)
    }

    /// The bytes of `message`, sent at the clock's reading in
    /// microseconds and signed with `secret_key`.
    pub fn sign_and_encode(secret_key: &SecretKey, message: &StreamMessage) -> (r: Option<Vec<u8>>)
        ensures
            exists|timestamp: u64|
                {
                    &&& r is Some <==> #[trigger] wire_fits(timestamp, message@)
                    &&& r matches Some(out) ==> out@ == signed_bytes(
                        public_of(secret_key@),
                        signature_of(secret_key@, wire_bytes(timestamp, message@)),
                        wire_bytes(timestamp, message@),
                    )
                },
    {
        let timestamp = now_micros();
        let r = Self::sign_and_encode_at(secret_key, message, timestamp);
        proof {
            assert(r is Some <==> wire_fits(timestamp, message@));
        }
        r
    }
}

/// What the string form of a stream's ticket begins with.
pub const TICKET_KIND: &'static str = "stream";

/// What a stream's ticket holds, as mathematical values.
pub struct StreamTicketModel {
    pub topic_id: Seq<u8>,
    pub bootstrap: Seq<Seq<u8>>,
}

/// The ticket of a stream: the topic that its messages are gossiped on
/// and the endpoints to begin with.
#[derive(Debug, Clone)]
pub struct StreamTicket {
    pub topic_id: [u8; 32],
    pub bootstrap: Vec<EndpointId>,
}

/// The bytes of each endpoint id.
pub open spec fn id_bytes(ids: Seq<EndpointId>) -> Seq<Seq<u8>> {
    ids.map_values(|id: EndpointId| id@)
}

impl View for StreamTicket {
    type V = StreamTicketModel;

    open spec fn view(&self) -> StreamTicketModel {
        StreamTicketModel { topic_id: self.topic_id@, bootstrap: id_bytes(self.bootstrap@) }
    }
}

/// The endpoints of a ticket as pairs: each id as the value of an empty
/// key.
pub open spec fn id_pairs(ids: Seq<Seq<u8>>) -> Seq<(Seq<char>, Seq<u8>)> {
    ids.map_values(|id: Seq<u8>| (Seq::<char>::empty(), id))
}

/// The two fields of a ticket.
pub open spec fn stream_ticket_fields(t: StreamTicketModel) -> Seq<Field> {
    seq![Field::Blob(t.topic_id), Field::Pairs(id_pairs(t.bootstrap))]
}

/// The types of the fields of a ticket.
pub open spec fn stream_ticket_schema() -> Seq<FieldKind> {
    seq![FieldKind::Blob, FieldKind::Pairs]
}

/// The ticket that two fields stand for: a topic of 32 bytes and
/// endpoints whose ids are public keys under empty keys.
pub open spec fn stream_ticket_of(all: Seq<Field>) -> Option<StreamTicketModel> {
    let topic_id = all[0]->Blob_0;
    let pairs = all[1]->Pairs_0;
    if topic_id.len() == 32 && forall|i: int|
        0 <= i < pairs.len() ==> (#[trigger] pairs[i]).0.len() == 0 && pairs[i].1.len() == 32
            && is_endpoint_key(pairs[i].1) {
        Some(
            StreamTicketModel {
                topic_id,
                bootstrap: pairs.map_values(|p: (Seq<char>, Seq<u8>)| p.1),
            },
        )
    } else {
        None
    }
}

/// The record of a ticket.
pub open spec fn stream_ticket_bytes(t: StreamTicketModel) -> Seq<u8> {
    put_fields(stream_ticket_fields(t))
}

/// The ticket that a record stands for. Nothing may follow the record.
pub open spec fn parse_stream_record(data: Seq<u8>) -> Option<StreamTicketModel> {
    match parse_fields(stream_ticket_schema(), data) {
        Some((all, rest)) => if rest.len() == 0 {
            stream_ticket_of(all)
        } else {
            None
        },
        None => None,
    }
}

/// The string form of a ticket: the word `stream` and the record in
/// lower-case base32 without padding.
pub open spec fn stream_ticket_text(t: StreamTicketModel) -> Seq<char> {
    TICKET_KIND@ + ascii_lower(base32_text(stream_ticket_bytes(t)))
}

/// What a text stands for as the ticket of a stream.
pub open spec fn parse_stream_ticket(input: Seq<char>) -> Result<StreamTicketModel, TicketError> {
    if !has_prefix(input, TICKET_KIND@) {
        Err(TicketError::MissingSeparator)
    } else {
        match base32_bytes(ascii_upper(input.skip(TICKET_KIND@.len() as int))) {
            None => Err(TicketError::InvalidEncoding),
            Some(bytes) => match parse_stream_record(bytes) {
                None => Err(TicketError::InvalidRecord),
                Some(t) => Ok(t),
            },
        }
    }
}

/// Whether a ticket can be written: its endpoints are few enough to be
/// counted in four bytes.
pub open spec fn stream_ticket_fits(t: StreamTicketModel) -> bool {
    t.bootstrap.len() <= u32::MAX
}

/// A ticket's record that is read back is the ticket.
pub proof fn lemma_stream_record_round_trip(t: StreamTicketModel)
    requires
        stream_ticket_fits(t),
        t.topic_id.len() == 32,
        forall|i: int|
            0 <= i < t.bootstrap.len() ==> (#[trigger] t.bootstrap[i]).len() == 32 && is_endpoint_key(
                t.bootstrap[i],
            ),
    ensures
        parse_stream_record(stream_ticket_bytes(t)) == Some(t),
{
    let all = stream_ticket_fields(t);
    let pairs = id_pairs(t.bootstrap);
    assert(kinds_of(all) =~= stream_ticket_schema());
    assert(text_fits(Seq::<char>::empty())) by {
        assert(encode_utf8(Seq::<char>::empty()) =~= Seq::<u8>::empty());
    }
    assert forall|i: int| 0 <= i < pairs.len() implies crate::record::pair_fits(#[trigger] pairs[i]) by {
        assert(pairs[i].1 == t.bootstrap[i]);
    }
    assert(fields_fit(all)) by {
        assert forall|k: int| 0 <= k < all.len() implies crate::record::field_fits(#[trigger] all[k]) by {
            if k == 1 {
                assert(all[1] == Field::Pairs(pairs));
            }
        }
    }
    lemma_fields_round_trip(all, Seq::<u8>::empty());
    assert(stream_ticket_bytes(t) + Seq::<u8>::empty() =~= stream_ticket_bytes(t));
    assert forall|i: int| 0 <= i < pairs.len() implies (#[trigger] pairs[i]).0.len() == 0 && pairs[i].1.len()
        == 32 && is_endpoint_key(pairs[i].1) by {
        assert(pairs[i].1 == t.bootstrap[i]);
    }
    assert(pairs.map_values(|p: (Seq<char>, Seq<u8>)| p.1) =~= t.bootstrap);
}

impl StreamTicket {
    /// The ticket of the topic `topic_id`, with no endpoint to begin with.
    pub fn new(topic_id: [u8; 32]) -> (t: Self)
        ensures
            t@ == (StreamTicketModel { topic_id: topic_id@, bootstrap: Seq::empty() }),
    {
        let t = StreamTicket { topic_id, bootstrap: Vec::new() };
        proof {
            assert(id_bytes(t.bootstrap@) =~= Seq::<Seq<u8>>::empty());
        }
        t
    }

    /// Whether the ticket names the endpoint `id`.
    pub fn names(&self, id: &EndpointId) -> (b: bool)
        ensures
            b == self@.bootstrap.contains(id@),
    {
        let mut i: usize = 0;
        while i < self.bootstrap.len()
            invariant
                0 <= i <= self.bootstrap@.len(),
                forall|k: int| 0 <= k < i ==> self@.bootstrap[k] != id@,
            decreases self.bootstrap@.len() - i,
        {
            if slices_equal(self.bootstrap[i].as_bytes().as_slice(), id.as_bytes().as_slice()) {
                assert(self@.bootstrap[i as int] == id@);
                return true;
            }
            i = i + 1;
        }
        false
    }

    /// Names the endpoint `id` as one to begin with, unless the ticket
    /// names it already.
    pub fn insert(&mut self, id: EndpointId)
        ensures
            final(self)@.topic_id == old(self)@.topic_id,
            final(self)@.bootstrap == if old(self)@.bootstrap.contains(id@) {
                old(self)@.bootstrap
            } else {
                old(self)@.bootstrap.push(id@)
            },
    {
        if !self.names(&id) {
            let ghost before = self.bootstrap@;
            self.bootstrap.push(id);
            proof {
                assert(id_bytes(self.bootstrap@) =~= id_bytes(before).push(id@));
            }
        }
    }

    /// The ticket's record, where the ticket can be written.
    pub fn to_bytes(&self) -> (r: Option<Vec<u8>>)
        ensures
            r is Some <==> stream_ticket_fits(self@),
            r matches Some(out) ==> out@ == stream_ticket_bytes(self@) && parse_stream_record(out@)
                == Some(self@),
    {
        if self.bootstrap.len() > u32::MAX as usize {
            return None;
        }
        let ghost t = self@;
        let mut ids: Vec<Extension> = Vec::new();
        let mut i: usize = 0;
        proof {
            assert(extension_models(ids@) =~= id_pairs(t.bootstrap).take(0));
        }
        while i < self.bootstrap.len()
            invariant
                t == self@,
                0 <= i <= self.bootstrap@.len(),
                extension_models(ids@) == id_pairs(t.bootstrap).take(i as int),
                forall|k: int|
                    0 <= k < i ==> (#[trigger] t.bootstrap[k]).len() == 32 && is_endpoint_key(
                        t.bootstrap[k],
                    ),
            decreases self.bootstrap@.len() - i,
        {
            let id = &self.bootstrap[i];
            proof {
                use_type_invariant(id);
            }
            let e = Extension { key: String::new(), value: slice_to_vec(id.as_bytes().as_slice()) };
            proof {
                let all = id_pairs(t.bootstrap);
                assert(all.take(i + 1) =~= all.take(i as int).push(all[i as int]));
                assert(e.key@ =~= Seq::<char>::empty());
                assert(extension_models(ids@.push(e)) =~= extension_models(ids@).push((e.key@, e.value@)));
            }
            ids.push(e);
            i = i + 1;
        }
        proof {
            assert(id_pairs(t.bootstrap).take(self.bootstrap@.len() as int) =~= id_pairs(t.bootstrap));
        }
        let mut values: Vec<Value> = Vec::new();
        proof {
            assert(fields(values@) =~= Seq::<Field>::empty());
        }
        push_value(&mut values, Value::Blob(slice_to_vec(self.topic_id.as_slice())));
        push_value(&mut values, Value::Pairs(ids));
        proof {
            assert(fields(values@) =~= stream_ticket_fields(t));
            lemma_stream_record_round_trip(t);
            lemma_fits_of_round_trip(t);
        }
        let mut out: Vec<u8> = Vec::new();
        write_values(&mut out, &values);
        Some(out)
    }

    /// The ticket that a record stands for.
    pub fn from_bytes(data: &[u8]) -> (r: Option<Self>)
        ensures
            match parse_stream_record(data@) {
                Some(t) => r matches Some(ticket) && ticket@ == t,
                None => r is None,
            },
    {
        let mut kinds: Vec<FieldKind> = Vec::new();
        kinds.push(FieldKind::Blob);
        kinds.push(FieldKind::Pairs);
        proof {
            assert(kinds@ =~= stream_ticket_schema());
            assert(data@.skip(0) =~= data@);
            lemma_parsed_kinds(stream_ticket_schema(), data@);
        }
        let (values, next) = match read_values(data, 0, &kinds) {
            Some(r) => r,
            None => {
                return None;
            },
        };
        if next != data.len() {
            return None;
        }
        let ghost all = fields(values@);
        let ghost after = data@.skip(next as int);
        proof {
            lemma_typed(all, stream_ticket_schema());
        }
        let topic = blob_at(&values, 0);
        let pairs = crate::record::pairs_at(&values, 1);
        let ghost ps = extension_models(pairs@);
        if topic.len() != 32 {
            return None;
        }
        let mut topic_id = [0u8; 32];
        let mut n: usize = 0;
        while n < 32
            invariant
                topic@.len() == 32,
                0 <= n <= 32,
                forall|k: int| 0 <= k < n ==> topic_id@[k] == topic@[k],
            decreases 32 - n,
        {
            topic_id[n] = topic[n];
            n = n + 1;
        }
        proof {
            assert(topic_id@ =~= topic@);
        }
        let mut bootstrap: Vec<EndpointId> = Vec::new();
        let mut i: usize = 0;
        while i < pairs.len()
            invariant
                parse_fields(stream_ticket_schema(), data@) == Some((all, after)),
                after.len() == 0,
                all[0] == Field::Blob(topic@),
                topic@.len() == 32,
                all[1] == Field::Pairs(ps),
                ps == extension_models(pairs@),
                0 <= i <= pairs@.len(),
                bootstrap@.len() == i,
                forall|k: int|
                    0 <= k < i ==> (#[trigger] ps[k]).0.len() == 0 && ps[k].1.len() == 32
                        && is_endpoint_key(ps[k].1) && id_bytes(bootstrap@)[k] == ps[k].1,
            decreases pairs@.len() - i,
        {
            if pairs[i].key.as_str().unicode_len() != 0 {
                proof {
                    assert(ps[i as int].0.len() != 0);
                }
                return None;
            }
            let id = match EndpointId::from_slice(pairs[i].value.as_slice()) {
                Ok(id) => id,
                Err(_) => {
                    proof {
                        assert(!(ps[i as int].1.len() == 32 && is_endpoint_key(ps[i as int].1)));
                    }
                    return None;
                },
            };
            proof {
                assert(id_bytes(bootstrap@.push(id)) =~= id_bytes(bootstrap@).push(id@));
            }
            bootstrap.push(id);
            i = i + 1;
        }
        let t = StreamTicket { topic_id, bootstrap };
        proof {
            assert(ps.map_values(|p: (Seq<char>, Seq<u8>)| p.1) =~= id_bytes(bootstrap@));
        }
        Some(t)
    }

    /// The ticket's string form, where the ticket can be written. Read
    /// back, it gives the ticket again.
    pub fn serialize_ticket(&self) -> (r: Option<String>)
        ensures
            r is Some <==> (stream_ticket_fits(self@) && stream_ticket_bytes(self@).len() <= usize::MAX
                / 512),
            r matches Some(s) ==> s@ == stream_ticket_text(self@) && parse_stream_ticket(s@) == Ok::<
                StreamTicketModel,
                TicketError,
            >(self@),
            r matches Some(s) ==> s@.len() <= usize::MAX / 32,
    {
        let bytes = match self.to_bytes() {
            Some(b) => b,
            None => {
                return None;
            },
        };
        if bytes.len() > usize::MAX / 512 {
            return None;
        }
        let encoded = crate::base32::encode(bytes.as_slice());
        let lower = to_ascii_lowercase(encoded.as_str());
        let mut s = TICKET_KIND.to_owned();
        s.append(lower.as_str());
        proof {
            lemma_case_round_trip(encoded@);
            reveal_strlit("stream");
            let kind = TICKET_KIND@;
            assert(kind.len() == 6);
            assert(s@.subrange(0, kind.len() as int) =~= kind);
            assert(s@.skip(kind.len() as int) =~= lower@);
        }
        Some(s)
    }

    /// The ticket that `input` stands for.
    pub fn deserialize_ticket(input: &str) -> (r: Result<Self, TicketError>)
        requires
            input@.len() <= usize::MAX / 32,
        ensures
            match r {
                Ok(t) => parse_stream_ticket(input@) == Ok::<StreamTicketModel, TicketError>(t@),
                Err(e) => parse_stream_ticket(input@) == Err::<StreamTicketModel, TicketError>(e),
            },
    {
        if !starts_with(input, TICKET_KIND) {
            return Err(TicketError::MissingSeparator);
        }
        let n = input.unicode_len();
        let k = TICKET_KIND.unicode_len();
        let rest = input.substring_char(k, n);
        proof {
            assert(input@.skip(k as int) =~= input@.subrange(k as int, n as int));
        }
        let upper = to_ascii_uppercase(rest);
        let bytes = match crate::base32::decode(upper.as_str()) {
            Ok(b) => b,
            Err(_) => {
                return Err(TicketError::InvalidEncoding);
            },
        };
        match Self::from_bytes(bytes.as_slice()) {
            Some(t) => Ok(t),
            None => Err(TicketError::InvalidRecord),
        }
    }
}

/// Whether two byte strings hold the same bytes.
fn slices_equal(a: &[u8], b: &[u8]) -> (same: bool)
    ensures
        same == (a@ == b@),
{
    if a.len() != b.len() {
        return false;
    }
    let mut i: usize = 0;
    while i < a.len()
        invariant
            a@.len() == b@.len(),
            0 <= i <= a@.len(),
            forall|k: int| 0 <= k < i ==> a@[k] == b@[k],
        decreases a@.len() - i,
    {
        if a[i] != b[i] {
            return false;
        }
        i = i + 1;
    }
    proof {
        assert(a@ =~= b@);
    }
    true
}

/// A ticket whose endpoints can be counted can be written.
proof fn lemma_fits_of_round_trip(t: StreamTicketModel)
    requires
        stream_ticket_fits(t),
        t.topic_id.len() == 32,
        forall|i: int| 0 <= i < t.bootstrap.len() ==> (#[trigger] t.bootstrap[i]).len() == 32,
    ensures
        fields_fit(stream_ticket_fields(t)),
{
    let all = stream_ticket_fields(t);
    let pairs = id_pairs(t.bootstrap);
    assert(text_fits(Seq::<char>::empty())) by {
        assert(encode_utf8(Seq::<char>::empty()) =~= Seq::<u8>::empty());
    }
    assert forall|i: int| 0 <= i < pairs.len() implies crate::record::pair_fits(#[trigger] pairs[i]) by {
        assert(pairs[i].1 == t.bootstrap[i]);
    }
    assert forall|k: int| 0 <= k < all.len() implies crate::record::field_fits(#[trigger] all[k]) by {
        if k == 1 {
            assert(all[1] == Field::Pairs(pairs));
        }
    }
}

} // verus!
