//! The companion protocol for files sent in numbered chunks, its messages
//! on the wire, and the events of a direct connection.

use vstd::prelude::*;
use crate::base32::base32_bytes;
use crate::base32::base32_text;
use crate::endpoint::EndpointId;
use crate::endpoint::is_endpoint_key;
use crate::iroh_live::EndpointAddress;
use crate::iroh_live::LiveTicket;
use crate::iroh_live::SocketAddress;
use crate::iroh_live::TicketModel;
use crate::iroh_live::fields_fit;
use crate::iroh_live::lemma_ticket_record_round_trip;
use crate::iroh_live::parse_ticket;
use crate::iroh_live::ticket_bytes;
use crate::live_streaming::TicketError;
use crate::moq_protocol::names::texts;
use crate::wire::fits;
use crate::wire::lemma_parse_put_blob;
use crate::wire::lemma_parse_put_text;
use crate::wire::lemma_parse_put_u32;
use crate::wire::lemma_parse_put_u64;
use crate::wire::lemma_parse_put_u8;
use crate::wire::parse_blob;
use crate::wire::parse_text;
use crate::wire::parse_u32;
use crate::wire::parse_u64;
use crate::wire::parse_u8;
use crate::wire::put_blob;
use crate::wire::put_text;
use crate::wire::put_u32;
use crate::wire::put_u64;
use crate::wire::put_u8;
use crate::wire::read_blob;
use crate::wire::read_text;
use crate::wire::read_u32;
use crate::wire::read_u64;
use crate::wire::read_u8;
use crate::wire::text_fits;
use crate::wire::write_blob;
use crate::wire::write_text;
use crate::wire::write_u32;
use crate::wire::write_u64;
use crate::wire::write_u8;

verus! {

/// The protocol identifier offered at session setup.
pub const STREAMING_ALPN: &'static str = "cyberfly/streaming/0";

/// The most bytes that are read from one stream for one message.
pub const MAX_MESSAGE_BYTES: usize = 1024 * 1024;

/// A message of the file protocol, as mathematical values.
pub enum MessageModel {
    RequestMetadata,
    Metadata {
        file_name: Seq<char>,
        file_size: u64,
        mime_type: Seq<char>,
        total_chunks: u32,
        duration_ms: Option<u64>,
    },
    RequestChunk { index: u32 },
    Chunk { index: u32, data: Seq<u8> },
    Presence { name: Seq<char> },
    Signal { data: Seq<u8> },
}

/// A message of the file protocol.
#[derive(Debug, Clone, PartialEq, Eq)]
pub enum DirectMessage {
    /// Asks the broadcaster for the file's metadata.
    RequestMetadata,
    Metadata {
        file_name: String,
        file_size: u64,
        mime_type: String,
        total_chunks: u32,
        /// Playing time in milliseconds.
        duration_ms: Option<u64>,
    },
    /// Asks for the chunk `index`.
    RequestChunk { index: u32 },
    Chunk { index: u32, data: Vec<u8> },
    Presence { name: String },
    Signal { data: Vec<u8> },
}

impl View for DirectMessage {
    type V = MessageModel;

    open spec fn view(&self) -> MessageModel {
        match self {
            DirectMessage::RequestMetadata => MessageModel::RequestMetadata,
            DirectMessage::Metadata { file_name, file_size, mime_type, total_chunks, duration_ms } => {
                MessageModel::Metadata {
                    file_name: file_name@,
                    file_size: *file_size,
                    mime_type: mime_type@,
                    total_chunks: *total_chunks,
                    duration_ms: *duration_ms,
                }
            },
            DirectMessage::RequestChunk { index } => MessageModel::RequestChunk { index: *index },
            DirectMessage::Chunk { index, data } => MessageModel::Chunk {
                index: *index,
                data: data@,
            },
            DirectMessage::Presence { name } => MessageModel::Presence { name: name@ },
            DirectMessage::Signal { data } => MessageModel::Signal { data: data@ },
        }
    }
}

/// An optional number on the wire: a zero byte for none, else a one and
/// the number.
pub open spec fn put_optional_u64(x: Option<u64>) -> Seq<u8> {
    match x {
        None => put_u8(0),
        Some(v) => put_u8(1) + put_u64(v),
    }
}

pub open spec fn parse_optional_u64(data: Seq<u8>) -> Option<(Option<u64>, Seq<u8>)> {
    match parse_u8(data) {
        Some((flag, rest)) => if flag == 0 {
            Some((None, rest))
        } else if flag == 1 {
            match parse_u64(rest) {
                Some((v, rest)) => Some((Some(v), rest)),
                None => None,
            }
        } else {
            None
        },
        None => None,
    }
}

/// A message on the wire: a byte that tells its kind, then its fields.
pub open spec fn message_bytes(m: MessageModel) -> Seq<u8> {
    match m {
        MessageModel::RequestMetadata => put_u8(0),
        MessageModel::Metadata { file_name, file_size, mime_type, total_chunks, duration_ms } => {
            put_u8(1) + put_text(file_name) + put_u64(file_size) + put_text(mime_type) + put_u32(
                total_chunks,
            ) + put_optional_u64(duration_ms)
        },
        MessageModel::RequestChunk { index } => put_u8(2) + put_u32(index),
        MessageModel::Chunk { index, data } => put_u8(3) + put_u32(index) + put_blob(data),
        MessageModel::Presence { name } => put_u8(4) + put_text(name),
        MessageModel::Signal { data } => put_u8(5) + put_blob(data),
    }
}

/// Every text and byte string of the message fits a four-byte length.
pub open spec fn message_fits(m: MessageModel) -> bool {
    match m {
        MessageModel::Metadata { file_name, mime_type, .. } => text_fits(file_name) && text_fits(
            mime_type,
        ),
        MessageModel::Chunk { data, .. } => data.len() <= u32::MAX,
        MessageModel::Presence { name } => text_fits(name),
        MessageModel::Signal { data } => data.len() <= u32::MAX,
        _ => true,
    }
}

/// The fields of a metadata message, and what follows them.
pub open spec fn parse_metadata(data: Seq<u8>) -> Option<(MessageModel, Seq<u8>)> {
    match parse_text(data) {
        None => None,
        Some((file_name, rest)) => match parse_u64(rest) {
            None => None,
            Some((file_size, rest)) => match parse_text(rest) {
                None => None,
                Some((mime_type, rest)) => match parse_u32(rest) {
                    None => None,
                    Some((total_chunks, rest)) => match parse_optional_u64(rest) {
                        None => None,
                        Some((duration_ms, rest)) => Some(
                            (
                                MessageModel::Metadata {
                                    file_name,
                                    file_size,
                                    mime_type,
                                    total_chunks,
                                    duration_ms,
                                },
                                rest,
                            ),
                        ),
                    },
                },
            },
        },
    }
}

/// The fields of the message of kind `kind`, and what follows them.
pub open spec fn parse_fields(kind: u8, data: Seq<u8>) -> Option<(MessageModel, Seq<u8>)> {
    if kind == 0 {
        Some((MessageModel::RequestMetadata, data))
    } else if kind == 1 {
        parse_metadata(data)
    } else if kind == 2 {
        match parse_u32(data) {
            Some((index, rest)) => Some((MessageModel::RequestChunk { index }, rest)),
            None => None,
        }
    } else if kind == 3 {
        match parse_u32(data) {
            Some((index, rest)) => match parse_blob(rest) {
                Some((bytes, rest)) => Some((MessageModel::Chunk { index, data: bytes }, rest)),
                None => None,
            },
            None => None,
        }
    } else if kind == 4 {
        match parse_text(data) {
            Some((name, rest)) => Some((MessageModel::Presence { name }, rest)),
            None => None,
        }
    } else if kind == 5 {
        match parse_blob(data) {
            Some((bytes, rest)) => Some((MessageModel::Signal { data: bytes }, rest)),
            None => None,
        }
    } else {
        None
    }
}

/// The message that bytes stand for. Nothing may follow the message.
pub open spec fn parse_message(data: Seq<u8>) -> Option<MessageModel> {
    match parse_u8(data) {
        None => None,
        Some((kind, rest)) => match parse_fields(kind, rest) {
            Some((m, rest)) => if rest.len() == 0 {
                Some(m)
            } else {
                None
            },
            None => None,
        },
    }
}

/// Reading what was written for `x` gives `x` and what follows it.
pub proof fn lemma_parse_put_optional_u64(x: Option<u64>, rest: Seq<u8>)
    ensures
        parse_optional_u64(put_optional_u64(x) + rest) == Some((x, rest)),
{
    match x {
        None => {
            lemma_parse_put_u8(0, rest);
        },
        Some(v) => {
            assert(put_optional_u64(x) + rest =~= put_u8(1) + (put_u64(v) + rest));
            lemma_parse_put_u8(1, put_u64(v) + rest);
            lemma_parse_put_u64(v, rest);
        },
    }
}

/// Bytes that are read back give the message they were written from.
pub proof fn lemma_message_round_trip(m: MessageModel)
    requires
        message_fits(m),
    ensures
        parse_message(message_bytes(m)) == Some(m),
{
    let empty = Seq::<u8>::empty();
    match m {
        MessageModel::RequestMetadata => {
            assert(message_bytes(m) =~= put_u8(0) + empty);
            lemma_parse_put_u8(0, empty);
        },
        MessageModel::Metadata { file_name, file_size, mime_type, total_chunks, duration_ms } => {
            let r5 = put_optional_u64(duration_ms) + empty;
            let r4 = put_u32(total_chunks) + r5;
            let r3 = put_text(mime_type) + r4;
            let r2 = put_u64(file_size) + r3;
            let r1 = put_text(file_name) + r2;
            assert(message_bytes(m) =~= put_u8(1) + r1);
            lemma_parse_put_u8(1, r1);
            lemma_parse_put_text(file_name, r2);
            lemma_parse_put_u64(file_size, r3);
            lemma_parse_put_text(mime_type, r4);
            lemma_parse_put_u32(total_chunks, r5);
            lemma_parse_put_optional_u64(duration_ms, empty);
        },
        MessageModel::RequestChunk { index } => {
            let r1 = put_u32(index) + empty;
            assert(message_bytes(m) =~= put_u8(2) + r1);
            lemma_parse_put_u8(2, r1);
            lemma_parse_put_u32(index, empty);
        },
        MessageModel::Chunk { index, data } => {
            let r2 = put_blob(data) + empty;
            let r1 = put_u32(index) + r2;
            assert(message_bytes(m) =~= put_u8(3) + r1);
            lemma_parse_put_u8(3, r1);
            lemma_parse_put_u32(index, r2);
            lemma_parse_put_blob(data, empty);
        },
        MessageModel::Presence { name } => {
            let r1 = put_text(name) + empty;
            assert(message_bytes(m) =~= put_u8(4) + r1);
            lemma_parse_put_u8(4, r1);
            lemma_parse_put_text(name, empty);
        },
        MessageModel::Signal { data } => {
            let r1 = put_blob(data) + empty;
            assert(message_bytes(m) =~= put_u8(5) + r1);
            lemma_parse_put_u8(5, r1);
            lemma_parse_put_blob(data, empty);
        },
    }
}

/// Why a message cannot be written or read.
#[derive(Debug, Clone, Copy, PartialEq, Eq, Structural)]
pub enum MessageError {
    /// A text or byte string is too long for its four-byte length.
    TooLarge,
    /// The bytes are no message.
    Malformed,
}

impl DirectMessage {
    /// Whether the message can be written.
    pub fn fits_wire(&self) -> (b: bool)
        ensures
            b == message_fits(self@),
    {
        match self {
            DirectMessage::Metadata { file_name, mime_type, .. } => fits(file_name.as_str()) && fits(
                mime_type.as_str(),
            ),
            DirectMessage::Chunk { data, .. } => data.len() <= u32::MAX as usize,
            DirectMessage::Presence { name } => fits(name.as_str()),
            DirectMessage::Signal { data } => data.len() <= u32::MAX as usize,
            _ => true,
        }
    }

    /// The bytes of the message. Read back, they give the message again.
    pub fn encode(&self) -> (r: Result<Vec<u8>, MessageError>)
        ensures
            match r {
                Ok(out) => message_fits(self@) && out@ == message_bytes(self@) && parse_message(
                    out@,
                ) == Some(self@),
                Err(e) => e == MessageError::TooLarge && !message_fits(self@),
            },
    {
        if !self.fits_wire() {
            return Err(MessageError::TooLarge);
        }
        let mut out: Vec<u8> = Vec::new();
        match self {
            DirectMessage::RequestMetadata => {
                write_u8(&mut out, 0);
            },
            DirectMessage::Metadata { file_name, file_size, mime_type, total_chunks, duration_ms } => {
                write_u8(&mut out, 1);
                write_text(&mut out, file_name.as_str());
                write_u64(&mut out, *file_size);
                write_text(&mut out, mime_type.as_str());
                write_u32(&mut out, *total_chunks);
                match duration_ms {
                    None => {
                        write_u8(&mut out, 0);
                    },
                    Some(v) => {
                        write_u8(&mut out, 1);
                        write_u64(&mut out, *v);
                    },
                }
            },
            DirectMessage::RequestChunk { index } => {
                write_u8(&mut out, 2);
                write_u32(&mut out, *index);
            },
            DirectMessage::Chunk { index, data } => {
                write_u8(&mut out, 3);
                write_u32(&mut out, *index);
                write_blob(&mut out, data.as_slice());
            },
            DirectMessage::Presence { name } => {
                write_u8(&mut out, 4);
                write_text(&mut out, name.as_str());
            },
            DirectMessage::Signal { data } => {
                write_u8(&mut out, 5);
                write_blob(&mut out, data.as_slice());
            },
        }
        proof {
            assert(out@ =~= message_bytes(self@));
            lemma_message_round_trip(self@);
        }
        Ok(out)
    }

    /// The message that `data` stands for.
    pub fn decode(data: &[u8]) -> (r: Result<Self, MessageError>)
        ensures
            match r {
                Ok(m) => parse_message(data@) == Some(m@),
                Err(e) => e == MessageError::Malformed && parse_message(data@) is None,
            },
    {
        proof {
            assert(data@.skip(0) =~= data@);
        }
        let (kind, at) = match read_u8(data, 0) {
            Some(r) => r,
            None => {
                return Err(MessageError::Malformed);
            },
        };
        let (message, at) = if kind == 0 {
            (DirectMessage::RequestMetadata, at)
        } else if kind == 1 {
            let (file_name, at) = match read_text(data, at) {
                Some(r) => r,
                None => {
                    return Err(MessageError::Malformed);
                },
            };
            let (file_size, at) = match read_u64(data, at) {
                Some(r) => r,
                None => {
                    return Err(MessageError::Malformed);
                },
            };
            let (mime_type, at) = match read_text(data, at) {
                Some(r) => r,
                None => {
                    return Err(MessageError::Malformed);
                },
            };
            let (total_chunks, at) = match read_u32(data, at) {
                Some(r) => r,
                None => {
                    return Err(MessageError::Malformed);
                },
            };
            let (flag, at) = match read_u8(data, at) {
                Some(r) => r,
                None => {
                    return Err(MessageError::Malformed);
                },
            };
            let (duration_ms, at) = if flag == 0 {
                (None, at)
            } else if flag == 1 {
                match read_u64(data, at) {
                    Some((v, at)) => (Some(v), at),
                    None => {
                        return Err(MessageError::Malformed);
                    },
                }
            } else {
                return Err(MessageError::Malformed);
            };
            (
                DirectMessage::Metadata { file_name, file_size, mime_type, total_chunks, duration_ms },
                at,
            )
        } else if kind == 2 {
            match read_u32(data, at) {
                Some((index, at)) => (DirectMessage::RequestChunk { index }, at),
                None => {
                    return Err(MessageError::Malformed);
                },
            }
        } else if kind == 3 {
            let (index, at) = match read_u32(data, at) {
                Some(r) => r,
                None => {
                    return Err(MessageError::Malformed);
                },
            };
            match read_blob(data, at) {
                Some((bytes, at)) => (
                    DirectMessage::Chunk { index, data: vstd::slice::slice_to_vec(bytes) },
                    at,
                ),
                None => {
                    return Err(MessageError::Malformed);
                },
            }
        } else if kind == 4 {
            match read_text(data, at) {
                Some((name, at)) => (DirectMessage::Presence { name }, at),
                None => {
                    return Err(MessageError::Malformed);
                },
            }
        } else if kind == 5 {
            match read_blob(data, at) {
                Some((bytes, at)) => (
                    DirectMessage::Signal { data: vstd::slice::slice_to_vec(bytes) },
                    at,
                ),
                None => {
                    return Err(MessageError::Malformed);
                },
            }
        } else {
            return Err(MessageError::Malformed);
        };
        if at != data.len() {
            return Err(MessageError::Malformed);
        }
        Ok(message)
    }
}

/// An event of a direct connection.
#[derive(Debug, Clone, PartialEq, Eq)]
pub enum DirectStreamEvent {
    PeerConnected { endpoint_id: String },
    PeerDisconnected { endpoint_id: String },
    Message { from: String, message: DirectMessage, timestamp: u64 },
    Error { message: String },
}

/// Number of chunks of `chunk_size` bytes that `len` bytes make: the last
/// chunk may be shorter.
pub open spec fn chunk_count(len: nat, chunk_size: nat) -> nat {
    if chunk_size == 0 {
        0
    } else {
        ((len + chunk_size - 1) / (chunk_size as int)) as nat
    }
}

/// The bytes of chunk `index` of `data`.
pub open spec fn chunk_of(data: Seq<u8>, chunk_size: nat, index: nat) -> Seq<u8> {
    let start = (index * chunk_size) as int;
    let end = if start + chunk_size <= data.len() {
        start + chunk_size
    } else {
        data.len() as int
    };
    data.subrange(start, end)
}

/// The first `count` chunks of `data`, one after the other.
pub open spec fn chunks_joined(data: Seq<u8>, chunk_size: nat, count: nat) -> Seq<u8>
    decreases count,
{
    if count == 0 {
        Seq::empty()
    } else {
        chunks_joined(data, chunk_size, (count - 1) as nat) + chunk_of(
            data,
            chunk_size,
            (count - 1) as nat,
        )
    }
}

/// The first `count` chunks of a file, joined, are the file's first bytes;
/// all of its chunks, joined, are the file.
pub proof fn lemma_chunks_join(data: Seq<u8>, chunk_size: nat, count: nat)
    requires
        chunk_size > 0,
        count <= chunk_count(data.len(), chunk_size),
    ensures
        chunks_joined(data, chunk_size, count) == data.take(
            if count * chunk_size <= data.len() {
                (count * chunk_size) as int
            } else {
                data.len() as int
            },
        ),
        count == chunk_count(data.len(), chunk_size) ==> chunks_joined(data, chunk_size, count)
            == data,
    decreases count,
{
    let total = chunk_count(data.len(), chunk_size);
    let c = chunk_size as int;
    let len = data.len() as int;
    vstd::arithmetic::div_mod::lemma_fundamental_div_mod(len + c - 1, c);
    vstd::arithmetic::div_mod::lemma_mod_bound(len + c - 1, c);
    assert(c * total == total * c) by (nonlinear_arith);
    // (total - 1) * c < len <= total * c
    assert((total - 1) * c == total * c - c) by (nonlinear_arith);
    if count == 0 {
        assert(0 * chunk_size == 0) by (nonlinear_arith);
        assert(chunks_joined(data, chunk_size, 0) =~= data.take(0));
        if total == 0 {
            assert(data.take(0) =~= data);
        }
    } else {
        lemma_chunks_join(data, chunk_size, (count - 1) as nat);
        assert((count - 1) * c == count * c - c) by (nonlinear_arith);
        assert((count - 1) * c <= (total - 1) * c) by (nonlinear_arith)
            requires
                count <= total,
                c > 0,
        ;
        let start = (count - 1) * c;
        let end = if count * c <= len {
            count * c
        } else {
            len
        };
        assert(data.take(start) + data.subrange(start, end) =~= data.take(end));
        if count == total {
            assert(data.take(len) =~= data);
        }
    }
}

/// A file that a broadcaster offers in chunks.
pub struct FileBroadcast {
    file_name: String,
    mime_type: String,
    data: Vec<u8>,
    chunk_size: usize,
    duration_ms: Option<u64>,
}

impl FileBroadcast {
    pub closed spec fn data(&self) -> Seq<u8> {
        self.data@
    }

    pub closed spec fn chunk_size(&self) -> nat {
        self.chunk_size as nat
    }

    pub closed spec fn file_name(&self) -> Seq<char> {
        self.file_name@
    }

    pub closed spec fn mime_type(&self) -> Seq<char> {
        self.mime_type@
    }

    pub closed spec fn duration_ms(&self) -> Option<u64> {
        self.duration_ms
    }

    /// The file has chunks of at least one byte, and no more of them than
    /// a chunk index counts.
    pub open spec fn wf(&self) -> bool {
        self.chunk_size() > 0 && chunk_count(self.data().len(), self.chunk_size()) <= u32::MAX
    }

    /// The metadata that the file answers with.
    pub open spec fn metadata(&self) -> MessageModel {
        MessageModel::Metadata {
            file_name: self.file_name(),
            file_size: self.data().len() as u64,
            mime_type: self.mime_type(),
            total_chunks: chunk_count(self.data().len(), self.chunk_size()) as u32,
            duration_ms: self.duration_ms(),
        }
    }

    /// What the broadcaster answers to `request`: the metadata, a chunk
    /// that the file has, or nothing.
    pub open spec fn answer(&self, request: MessageModel) -> Option<MessageModel> {
        match request {
            MessageModel::RequestMetadata => Some(self.metadata()),
            MessageModel::RequestChunk { index } => if index < chunk_count(
                self.data().len(),
                self.chunk_size(),
            ) {
                Some(
                    MessageModel::Chunk {
                        index,
                        data: chunk_of(self.data(), self.chunk_size(), index as nat),
                    },
                )
            } else {
                None
            },
            _ => None,
        }
    }

    /// A file offered in chunks of `chunk_size` bytes, where that size is
    /// not zero and the chunks are no more than a chunk index counts.
    pub fn new(file_name: &str, mime_type: &str, data: Vec<u8>, chunk_size: usize, duration_ms: Option<
        u64,
    >) -> (r: Option<Self>)
        ensures
            r is Some <==> (chunk_size > 0 && chunk_count(data@.len(), chunk_size as nat)
                <= u32::MAX),
            r matches Some(f) ==> f.wf() && f.data() == data@ && f.chunk_size() == chunk_size
                && f.file_name() == file_name@ && f.mime_type() == mime_type@ && f.duration_ms()
                == duration_ms,
    {
        if chunk_size == 0 {
            return None;
        }
        let total: u128 = (data.len() as u128 + chunk_size as u128 - 1) / (chunk_size as u128);
        if total > u32::MAX as u128 {
            return None;
        }
        Some(
            Self {
                file_name: file_name.to_owned(),
                mime_type: mime_type.to_owned(),
                data,
                chunk_size,
                duration_ms,
            },
        )
    }

    /// Number of chunks of the file.
    pub fn total_chunks(&self) -> (n: u32)
        requires
            self.wf(),
        ensures
            n == chunk_count(self.data().len(), self.chunk_size()),
    {
        let total: u128 = (self.data.len() as u128 + self.chunk_size as u128 - 1) / (
        self.chunk_size as u128);
        total as u32
    }

    /// The answer to `request`, if it gets one.
    pub fn respond(&self, request: &DirectMessage) -> (r: Option<DirectMessage>)
        requires
            self.wf(),
        ensures
            match r {
                Some(m) => self.answer(request@) == Some(m@),
                None => self.answer(request@) is None,
            },
    {
        match request {
            DirectMessage::RequestMetadata => Some(
                DirectMessage::Metadata {
                    file_name: self.file_name.clone(),
                    file_size: self.data.len() as u64,
                    mime_type: self.mime_type.clone(),
                    total_chunks: self.total_chunks(),
                    duration_ms: self.duration_ms,
                },
            ),
            DirectMessage::RequestChunk { index } => {
                let total = self.total_chunks();
                if *index >= total {
                    return None;
                }
                let ghost c = self.chunk_size as int;
                let ghost len = self.data@.len() as int;
                proof {
                    vstd::arithmetic::div_mod::lemma_fundamental_div_mod(len + c - 1, c);
                    vstd::arithmetic::div_mod::lemma_mod_bound(len + c - 1, c);
                    assert(c * (total as int) == total * c) by (nonlinear_arith);
                    assert((*index) * c <= (total - 1) * c) by (nonlinear_arith)
                        requires
                            *index <= total - 1,
                            c > 0,
                    ;
                    assert((total - 1) * c == total * c - c) by (nonlinear_arith);
                    assert((*index as int) * (self.chunk_size as int) < len);
                }
                let data_len = self.data.len();
                assert((*index as int) * (self.chunk_size as int) < data_len);
                let start: usize = (*index as usize) * self.chunk_size;
                let end: usize = if self.data.len() - start >= self.chunk_size {
                    start + self.chunk_size
                } else {
                    self.data.len()
                };
                let part = vstd::slice::slice_subrange(self.data.as_slice(), start, end);
                Some(DirectMessage::Chunk { index: *index, data: vstd::slice::slice_to_vec(part) })
            },
            _ => None,
        }
    }
}

/// The chunks of a file that a viewer has received so far.
pub struct FileDownload {
    total_chunks: u32,
    chunks: Vec<Option<Vec<u8>>>,
}

pub open spec fn chunk_models(v: Seq<Option<Vec<u8>>>) -> Seq<Option<Seq<u8>>> {
    v.map_values(
        |c: Option<Vec<u8>>|
            match c {
                Some(bytes) => Some(bytes@),
                None => None,
            },
    )
}

/// The received chunks up to `count`, joined; a missing chunk counts as
/// empty.
pub open spec fn received_joined(chunks: Seq<Option<Seq<u8>>>, count: nat) -> Seq<u8>
    decreases count,
{
    if count == 0 {
        Seq::empty()
    } else {
        received_joined(chunks, (count - 1) as nat) + match chunks[count - 1] {
            Some(bytes) => bytes,
            None => Seq::empty(),
        }
    }
}

impl FileDownload {
    /// The slot of each chunk: its bytes once it was received.
    pub closed spec fn chunks(&self) -> Seq<Option<Seq<u8>>> {
        chunk_models(self.chunks@)
    }

    /// A download that waits for `total_chunks` chunks.
    pub fn new(total_chunks: u32) -> (d: Self)
        ensures
            d.chunks().len() == total_chunks,
            forall|i: int| 0 <= i < total_chunks ==> d.chunks()[i] is None,
    {
        let mut chunks: Vec<Option<Vec<u8>>> = Vec::new();
        let mut i: u32 = 0;
        while i < total_chunks
            invariant
                0 <= i <= total_chunks,
                chunks@.len() == i,
                forall|k: int| 0 <= k < i ==> chunk_models(chunks@)[k] is None,
            decreases total_chunks - i,
        {
            let ghost before = chunks@;
            chunks.push(None);
            proof {
                assert(chunk_models(chunks@) =~= chunk_models(before).push(None));
            }
            i = i + 1;
        }
        Self { total_chunks, chunks }
    }

    /// Takes in the chunk `index`, in place of what was received for it
    /// before. A chunk that the file does not have is left out.
    pub fn on_chunk(&mut self, index: u32, data: Vec<u8>) -> (taken: bool)
        ensures
            taken == (index < old(self).chunks().len()),
            final(self).chunks() == if taken {
                old(self).chunks().update(index as int, Some(data@))
            } else {
                old(self).chunks()
            },
    {
        if (index as usize) < self.chunks.len() {
            let ghost before = self.chunks@;
            self.chunks.set(index as usize, Some(data));
            proof {
                assert(chunk_models(self.chunks@) =~= chunk_models(before).update(
                    index as int,
                    Some(data@),
                ));
            }
            true
        } else {
            false
        }
    }

    /// The first chunk that is missing.
    pub fn next_missing(&self) -> (r: Option<u32>)
        requires
            self.chunks().len() <= u32::MAX,
        ensures
            match r {
                Some(i) => i < self.chunks().len() && self.chunks()[i as int] is None && forall|
                    k: int,
                | 0 <= k < i ==> self.chunks()[k] is Some,
                None => forall|k: int| 0 <= k < self.chunks().len() ==> self.chunks()[k] is Some,
            },
    {
        let mut i: usize = 0;
        while i < self.chunks.len()
            invariant
                0 <= i <= self.chunks@.len(),
                self.chunks@.len() <= u32::MAX,
                forall|k: int| 0 <= k < i ==> self.chunks()[k] is Some,
            decreases self.chunks@.len() - i,
        {
            if self.chunks[i].is_none() {
                return Some(i as u32);
            }
            i = i + 1;
        }
        None
    }

    /// Whether every chunk was received.
    pub fn is_complete(&self) -> (b: bool)
        ensures
            b == forall|k: int| 0 <= k < self.chunks().len() ==> self.chunks()[k] is Some,
    {
        let mut i: usize = 0;
        while i < self.chunks.len()
            invariant
                0 <= i <= self.chunks@.len(),
                forall|k: int| 0 <= k < i ==> self.chunks()[k] is Some,
            decreases self.chunks@.len() - i,
        {
            if self.chunks[i].is_none() {
                assert(self.chunks()[i as int] is None);
                return false;
            }
            i = i + 1;
        }
        true
    }

    /// The received chunks one after the other, once all were received.
    pub fn assemble(&self) -> (r: Option<Vec<u8>>)
        ensures
            r is Some <==> forall|k: int| 0 <= k < self.chunks().len() ==> self.chunks()[k] is Some,
            r matches Some(bytes) ==> bytes@ == received_joined(
                self.chunks(),
                self.chunks().len(),
            ),
    {
        let mut out: Vec<u8> = Vec::new();
        let mut i: usize = 0;
        while i < self.chunks.len()
            invariant
                0 <= i <= self.chunks@.len(),
                forall|k: int| 0 <= k < i ==> self.chunks()[k] is Some,
                out@ == received_joined(self.chunks(), i as nat),
            decreases self.chunks@.len() - i,
        {
            match &self.chunks[i] {
                None => {
                    assert(self.chunks()[i as int] is None);
                    return None;
                },
                Some(bytes) => {
                    crate::wire::write_raw(&mut out, bytes.as_slice());
                },
            }
            i = i + 1;
        }
        Some(out)
    }
}

/// A download that holds every chunk of a file, as the broadcaster answers
/// them, assembles to the file.
pub proof fn lemma_download_is_file(data: Seq<u8>, chunk_size: nat, chunks: Seq<Option<Seq<u8>>>, count: nat)
    requires
        chunk_size > 0,
        count <= chunks.len(),
        forall|i: int| 0 <= i < count ==> chunks[i] == Some(chunk_of(data, chunk_size, i as nat)),
    ensures
        received_joined(chunks, count) == chunks_joined(data, chunk_size, count),
    decreases count,
{
    if count > 0 {
        lemma_download_is_file(data, chunk_size, chunks, (count - 1) as nat);
    }
}

/// What a ticket for a direct connection holds.
#[derive(Debug, Clone, PartialEq, Eq)]
pub struct DirectStreamTicket {
    pub endpoint_id: EndpointId,
    pub relay_url: Option<String>,
    pub direct_addrs: Vec<SocketAddress>,
}

/// The relay URLs of a direct ticket: its one URL, or none.
pub open spec fn relay_list(relay_url: Option<String>) -> Seq<Seq<char>> {
    match relay_url {
        Some(url) => seq![url@],
        None => Seq::empty(),
    }
}

impl View for DirectStreamTicket {
    type V = TicketModel;

    open spec fn view(&self) -> TicketModel {
        TicketModel {
            endpoint_id: self.endpoint_id@,
            broadcast_name: None,
            relay_urls: relay_list(self.relay_url),
            direct_addrs: self.direct_addrs@,
        }
    }
}

/// What a text stands for as a direct ticket: the base32 form of a record
/// without a name and with at most one relay URL.
pub open spec fn parse_direct_ticket(input: Seq<char>) -> Result<TicketModel, TicketError> {
    match base32_bytes(input) {
        None => Err(TicketError::InvalidEncoding),
        Some(bytes) => match parse_ticket(bytes) {
            None => Err(TicketError::InvalidRecord),
            Some(t) => if !is_endpoint_key(t.endpoint_id) {
                Err(TicketError::InvalidKey)
            } else if t.broadcast_name is Some || t.relay_urls.len() > 1 {
                Err(TicketError::InvalidRecord)
            } else {
                Ok(t)
            },
        },
    }
}

impl DirectStreamTicket {
    /// The ticket for the endpoint at `addr`: its first relay URL and all
    /// its direct addresses.
    pub fn new(addr: &EndpointAddress) -> (t: Self)
        ensures
            t.endpoint_id == addr.id,
            t.direct_addrs@ == addr.ip_addrs@,
            match t.relay_url {
                Some(url) => addr.relay_urls@.len() > 0 && url@ == addr.relay_urls@[0]@,
                None => addr.relay_urls@.len() == 0,
            },
    {
        let relay_url = if addr.relay_urls.len() > 0 {
            Some(addr.relay_urls[0].clone())
        } else {
            None
        };
        let mut direct_addrs: Vec<SocketAddress> = Vec::new();
        let mut i: usize = 0;
        while i < addr.ip_addrs.len()
            invariant
                0 <= i <= addr.ip_addrs@.len(),
                direct_addrs@ == addr.ip_addrs@.take(i as int),
            decreases addr.ip_addrs@.len() - i,
        {
            direct_addrs.push(addr.ip_addrs[i]);
            proof {
                assert(direct_addrs@ =~= addr.ip_addrs@.take(i + 1));
            }
            i = i + 1;
        }
        proof {
            assert(addr.ip_addrs@.take(addr.ip_addrs@.len() as int) =~= addr.ip_addrs@);
        }
        Self { endpoint_id: addr.id, relay_url, direct_addrs }
    }

    /// The ticket as a full ticket without a name.
    fn as_live_ticket(&self) -> (t: LiveTicket)
        ensures
            t@ == self@,
            t.endpoint_id == self.endpoint_id,
    {
        let mut relay_urls: Vec<String> = Vec::new();
        match &self.relay_url {
            Some(url) => {
                relay_urls.push(url.clone());
            },
            None => {},
        }
        let mut direct_addrs: Vec<SocketAddress> = Vec::new();
        let mut i: usize = 0;
        while i < self.direct_addrs.len()
            invariant
                0 <= i <= self.direct_addrs@.len(),
                direct_addrs@ == self.direct_addrs@.take(i as int),
            decreases self.direct_addrs@.len() - i,
        {
            direct_addrs.push(self.direct_addrs[i]);
            proof {
                assert(direct_addrs@ =~= self.direct_addrs@.take(i + 1));
            }
            i = i + 1;
        }
        proof {
            assert(self.direct_addrs@.take(self.direct_addrs@.len() as int) =~= self.direct_addrs@);
            assert(texts(relay_urls@) =~= relay_list(self.relay_url));
        }
        LiveTicket { endpoint_id: self.endpoint_id, broadcast_name: None, relay_urls, direct_addrs }
    }

    /// The ticket's string form, where it fits a record. Read back, it
    /// gives the ticket again.
    pub fn serialize(&self) -> (r: Option<String>)
        ensures
            r is Some <==> (fields_fit(self@) && ticket_bytes(self@).len() <= usize::MAX / 512),
            r matches Some(s) ==> s@ == base32_text(ticket_bytes(self@)) && parse_direct_ticket(s@)
                == Ok::<TicketModel, TicketError>(self@),
            r matches Some(s) ==> s@.len() <= usize::MAX / 32,
    {
        let ticket = self.as_live_ticket();
        if !ticket.fits_record() {
            return None;
        }
        let bytes = ticket.to_bytes();
        if bytes.len() > usize::MAX / 512 {
            return None;
        }
        let s = crate::base32::encode(bytes.as_slice());
        proof {
            use_type_invariant(&self.endpoint_id);
            lemma_ticket_record_round_trip(self@);
        }
        Some(s)
    }

    /// The ticket that `input` stands for.
    pub fn deserialize(input: &str) -> (r: Result<Self, TicketError>)
        requires
            input@.len() <= usize::MAX / 32,
        ensures
            match r {
                Ok(t) => parse_direct_ticket(input@) == Ok::<TicketModel, TicketError>(t@),
                Err(e) => parse_direct_ticket(input@) == Err::<TicketModel, TicketError>(e),
            },
    {
        let bytes = match crate::base32::decode(input) {
            Ok(bytes) => bytes,
            Err(_) => {
                return Err(TicketError::InvalidEncoding);
            },
        };
        match LiveTicket::from_bytes(bytes.as_slice()) {
            Err(e) => Err(e),
            Ok(ticket) => {
                proof {
                    use_type_invariant(&ticket.endpoint_id);
                }
                if ticket.broadcast_name.is_some() || ticket.relay_urls.len() > 1 {
                    return Err(TicketError::InvalidRecord);
                }
                let ghost model = ticket@;
                let mut relay_urls = ticket.relay_urls;
                let ghost before = relay_urls@;
                let relay_url = relay_urls.pop();
                proof {
                    assert(relay_list(relay_url) =~= texts(before));
                }
                Ok(
                    Self {
                        endpoint_id: ticket.endpoint_id,
                        relay_url,
                        direct_addrs: ticket.direct_addrs,
                    },
                )
            },
        }
    }

    /// The address of the ticket's endpoint.
    pub fn to_endpoint_addr(&self) -> (addr: EndpointAddress)
        ensures
            addr.id == self.endpoint_id,
            texts(addr.relay_urls@) == crate::iroh_live::usable_relays(self@.relay_urls),
            addr.ip_addrs@ == self@.direct_addrs,
    {
        self.as_live_ticket().to_endpoint_addr()
    }
}

} // verus!
