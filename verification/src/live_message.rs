//! The messages of a live broadcast: the file protocol's messages, the
//! catalog, and what a viewer asks of the broadcaster.

use vstd::prelude::*;
use crate::catalog_wire::catalog_bytes;
use crate::catalog_wire::catalog_fits;
use crate::catalog_wire::lemma_catalog_round_trip;
use crate::catalog_wire::parse_catalog;
use crate::catalog_wire::CatalogModel;
use crate::direct_streaming::lemma_message_round_trip;
use crate::direct_streaming::message_bytes;
use crate::direct_streaming::message_fits;
use crate::direct_streaming::parse_message;
use crate::direct_streaming::DirectMessage;
use crate::direct_streaming::MessageModel;
use crate::live_streaming::BroadcastCatalog;
use crate::record::blob_at;
use crate::record::fields;
use crate::record::fields_fit;
use crate::record::kinds_of;
use crate::record::lemma_fields_round_trip;
use crate::record::lemma_parsed_kinds;
use crate::record::lemma_typed;
use crate::record::parse_fields;
use crate::record::push_value;
use crate::record::put_fields;
use crate::record::read_values;
use crate::record::text_at;
use crate::record::u64_at;
use crate::record::u8_at;
use crate::record::values_fit;
use crate::record::write_values;
use crate::record::Field;
use crate::record::FieldKind;
use crate::record::Value;

verus! {

/// A message of a live broadcast.
#[derive(Debug, Clone)]
pub enum LiveMessage {
    /// A message of the file protocol.
    Direct(DirectMessage),
    /// The catalog, after a change or on request.
    Catalog(BroadcastCatalog),
    RequestCatalog,
    Subscribe { track_name: String },
    Unsubscribe { track_name: String },
    /// Asks for a `Pong` with the same time, to measure the round trip.
    Ping { timestamp: u64 },
    Pong { timestamp: u64 },
    QualityChange { quality: String },
}

/// What a message of a live broadcast holds, as mathematical values.
pub enum LiveModel {
    Direct(MessageModel),
    Catalog(CatalogModel),
    RequestCatalog,
    Subscribe { track_name: Seq<char> },
    Unsubscribe { track_name: Seq<char> },
    Ping { timestamp: u64 },
    Pong { timestamp: u64 },
    QualityChange { quality: Seq<char> },
}

impl View for LiveMessage {
    type V = LiveModel;

    open spec fn view(&self) -> LiveModel {
        match self {
            LiveMessage::Direct(m) => LiveModel::Direct(m@),
            LiveMessage::Catalog(c) => LiveModel::Catalog(c@),
            LiveMessage::RequestCatalog => LiveModel::RequestCatalog,
            LiveMessage::Subscribe { track_name } => LiveModel::Subscribe { track_name: track_name@ },
            LiveMessage::Unsubscribe { track_name } => LiveModel::Unsubscribe {
                track_name: track_name@,
            },
            LiveMessage::Ping { timestamp } => LiveModel::Ping { timestamp: *timestamp },
            LiveMessage::Pong { timestamp } => LiveModel::Pong { timestamp: *timestamp },
            LiveMessage::QualityChange { quality } => LiveModel::QualityChange { quality: quality@ },
        }
    }
}

/// Four fields from the number of a kind, bytes, a text and a time.
pub open spec fn four(kind: u8, inner: Seq<u8>, text: Seq<char>, number: u64) -> Seq<Field> {
    seq![Field::U8(kind), Field::Blob(inner), Field::Text(text), Field::U64(number)]
}

/// The four fields of a message: the number of its kind; the bytes of the
/// message or the catalog that it carries; the name that it holds; and its
/// time. What a kind does not have is left empty or 0.
pub open spec fn live_fields(m: LiveModel) -> Seq<Field> {
    match m {
        LiveModel::Direct(inner) => four(0, message_bytes(inner), Seq::empty(), 0),
        LiveModel::Catalog(c) => four(1, catalog_bytes(c), Seq::empty(), 0),
        LiveModel::RequestCatalog => four(2, Seq::empty(), Seq::empty(), 0),
        LiveModel::Subscribe { track_name } => four(3, Seq::empty(), track_name, 0),
        LiveModel::Unsubscribe { track_name } => four(4, Seq::empty(), track_name, 0),
        LiveModel::Ping { timestamp } => four(5, Seq::empty(), Seq::empty(), timestamp),
        LiveModel::Pong { timestamp } => four(6, Seq::empty(), Seq::empty(), timestamp),
        LiveModel::QualityChange { quality } => four(7, Seq::empty(), quality, 0),
    }
}

/// The types of the fields of a message.
pub open spec fn live_schema() -> Seq<FieldKind> {
    seq![FieldKind::U8, FieldKind::Blob, FieldKind::Text, FieldKind::U64]
}

/// The message that four fields stand for.
pub open spec fn live_of(all: Seq<Field>) -> Option<LiveModel> {
    let kind = all[0]->U8_0;
    let inner = all[1]->Blob_0;
    let text = all[2]->Text_0;
    let number = all[3]->U64_0;
    if kind == 0 {
        match parse_message(inner) {
            Some(m) => if text.len() == 0 && number == 0 {
                Some(LiveModel::Direct(m))
            } else {
                None
            },
            None => None,
        }
    } else if kind == 1 {
        match parse_catalog(inner) {
            Some(c) => if text.len() == 0 && number == 0 {
                Some(LiveModel::Catalog(c))
            } else {
                None
            },
            None => None,
        }
    } else if inner.len() != 0 {
        None
    } else if kind == 5 && text.len() == 0 {
        Some(LiveModel::Ping { timestamp: number })
    } else if kind == 6 && text.len() == 0 {
        Some(LiveModel::Pong { timestamp: number })
    } else if number != 0 {
        None
    } else if kind == 2 && text.len() == 0 {
        Some(LiveModel::RequestCatalog)
    } else if kind == 3 {
        Some(LiveModel::Subscribe { track_name: text })
    } else if kind == 4 {
        Some(LiveModel::Unsubscribe { track_name: text })
    } else if kind == 7 {
        Some(LiveModel::QualityChange { quality: text })
    } else {
        None
    }
}

/// The bytes of a message.
pub open spec fn live_bytes(m: LiveModel) -> Seq<u8> {
    put_fields(live_fields(m))
}

/// The message that bytes stand for. Nothing may follow the message.
pub open spec fn parse_live(data: Seq<u8>) -> Option<LiveModel> {
    match parse_fields(live_schema(), data) {
        Some((all, rest)) => if rest.len() == 0 {
            live_of(all)
        } else {
            None
        },
        None => None,
    }
}

/// Whether a message can be written: what it carries can be written, and
/// every length fits four bytes.
pub open spec fn live_fits(m: LiveModel) -> bool {
    &&& fields_fit(live_fields(m))
    &&& m matches LiveModel::Direct(inner) ==> message_fits(inner)
    &&& m matches LiveModel::Catalog(c) ==> catalog_fits(c)
}

/// A message that is read back is the message that was written.
pub proof fn lemma_live_round_trip(m: LiveModel)
    requires
        live_fits(m),
    ensures
        parse_live(live_bytes(m)) == Some(m),
{
    let all = live_fields(m);
    assert(kinds_of(all) =~= live_schema());
    lemma_fields_round_trip(all, Seq::<u8>::empty());
    assert(live_bytes(m) + Seq::<u8>::empty() =~= live_bytes(m));
    match m {
        LiveModel::Direct(inner) => {
            lemma_message_round_trip(inner);
        },
        LiveModel::Catalog(c) => {
            lemma_catalog_round_trip(c, Seq::<u8>::empty());
            assert(catalog_bytes(c) + Seq::<u8>::empty() =~= catalog_bytes(c));
        },
        _ => {},
    }
}

impl LiveMessage {
    /// The bytes of the message, where it can be written. Read back, they
    /// give the message again.
    pub fn encode(&self) -> (r: Option<Vec<u8>>)
        ensures
            r is Some <==> live_fits(self@),
            r matches Some(out) ==> out@ == live_bytes(self@) && parse_live(out@) == Some(self@),
    {
        let mut values: Vec<Value> = Vec::new();
        proof {
            assert(fields(values@) =~= Seq::<Field>::empty());
        }
        match self {
            LiveMessage::Direct(m) => {
                let inner = match m.encode() {
                    Ok(bytes) => bytes,
                    Err(_) => {
                        return None;
                    },
                };
                push_value(&mut values, Value::U8(0));
                push_value(&mut values, Value::Blob(inner));
                push_value(&mut values, Value::Text(String::new()));
                push_value(&mut values, Value::U64(0));
            },
            LiveMessage::Catalog(c) => {
                let inner = match c.encode() {
                    Some(bytes) => bytes,
                    None => {
                        return None;
                    },
                };
                push_value(&mut values, Value::U8(1));
                push_value(&mut values, Value::Blob(inner));
                push_value(&mut values, Value::Text(String::new()));
                push_value(&mut values, Value::U64(0));
            },
            LiveMessage::RequestCatalog => {
                push_value(&mut values, Value::U8(2));
                push_value(&mut values, Value::Blob(Vec::new()));
                push_value(&mut values, Value::Text(String::new()));
                push_value(&mut values, Value::U64(0));
            },
            LiveMessage::Subscribe { track_name } => {
                push_value(&mut values, Value::U8(3));
                push_value(&mut values, Value::Blob(Vec::new()));
                push_value(&mut values, Value::Text(track_name.clone()));
                push_value(&mut values, Value::U64(0));
            },
            LiveMessage::Unsubscribe { track_name } => {
                push_value(&mut values, Value::U8(4));
                push_value(&mut values, Value::Blob(Vec::new()));
                push_value(&mut values, Value::Text(track_name.clone()));
                push_value(&mut values, Value::U64(0));
            },
            LiveMessage::Ping { timestamp } => {
                push_value(&mut values, Value::U8(5));
                push_value(&mut values, Value::Blob(Vec::new()));
                push_value(&mut values, Value::Text(String::new()));
                push_value(&mut values, Value::U64(*timestamp));
            },
            LiveMessage::Pong { timestamp } => {
                push_value(&mut values, Value::U8(6));
                push_value(&mut values, Value::Blob(Vec::new()));
                push_value(&mut values, Value::Text(String::new()));
                push_value(&mut values, Value::U64(*timestamp));
            },
            LiveMessage::QualityChange { quality } => {
                push_value(&mut values, Value::U8(7));
                push_value(&mut values, Value::Blob(Vec::new()));
                push_value(&mut values, Value::Text(quality.clone()));
                push_value(&mut values, Value::U64(0));
            },
        }
        proof {
            assert(fields(values@) =~= live_fields(self@));
        }
        if !values_fit(&values) {
            return None;
        }
        let mut out: Vec<u8> = Vec::new();
        write_values(&mut out, &values);
        proof {
            assert(out@ =~= live_bytes(self@));
            lemma_live_round_trip(self@);
        }
        Some(out)
    }

    /// The message that `data` stands for.
    pub fn decode(data: &[u8]) -> (r: Option<Self>)
        ensures
            match parse_live(data@) {
                Some(m) => r matches Some(message) && message@ == m,
                None => r is None,
            },
    {
        let mut kinds: Vec<FieldKind> = Vec::new();
        kinds.push(FieldKind::U8);
        kinds.push(FieldKind::Blob);
        kinds.push(FieldKind::Text);
        kinds.push(FieldKind::U64);
        proof {
            assert(kinds@ =~= live_schema());
            assert(data@.skip(0) =~= data@);
            lemma_parsed_kinds(live_schema(), data@);
        }
        let (values, next) = match read_values(data, 0, &kinds) {
            Some(r) => r,
            None => {
                return None;
            },
        };
        if next != data.len() {
            return None;
        }
        proof {
            lemma_typed(fields(values@), live_schema());
        }
        let kind = u8_at(&values, 0);
        let inner = blob_at(&values, 1);
        let text = text_at(&values, 2);
        let number = u64_at(&values, 3);
        let no_text = text.as_str().unicode_len() == 0;
        if kind == 0 {
            match DirectMessage::decode(inner.as_slice()) {
                Ok(m) => if no_text && number == 0 {
                    Some(LiveMessage::Direct(m))
                } else {
                    None
                },
                Err(_) => None,
            }
        } else if kind == 1 {
            match BroadcastCatalog::decode(inner.as_slice()) {
                Some(c) => if no_text && number == 0 {
                    Some(LiveMessage::Catalog(c))
                } else {
                    None
                },
                None => None,
            }
        } else if inner.len() != 0 {
            None
        } else if kind == 5 && no_text {
            Some(LiveMessage::Ping { timestamp: number })
        } else if kind == 6 && no_text {
            Some(LiveMessage::Pong { timestamp: number })
        } else if number != 0 {
            None
        } else if kind == 2 && no_text {
            Some(LiveMessage::RequestCatalog)
        } else if kind == 3 {
            Some(LiveMessage::Subscribe { track_name: text })
        } else if kind == 4 {
            Some(LiveMessage::Unsubscribe { track_name: text })
        } else if kind == 7 {
            Some(LiveMessage::QualityChange { quality: text })
        } else {
            None
        }
    }
}

/// The signal that carries the catalog to the viewers of a broadcast: the
/// catalog as a message of the broadcast, sent as a signal of the file
/// protocol.
pub fn catalog_signal(catalog: BroadcastCatalog) -> (r: Option<DirectMessage>)
    ensures
        r is Some <==> live_fits(LiveModel::Catalog(catalog@)),
        r matches Some(m) ==> m@ == (MessageModel::Signal {
            data: live_bytes(LiveModel::Catalog(catalog@)),
        }),
{
    match LiveMessage::Catalog(catalog).encode() {
        Some(data) => Some(DirectMessage::Signal { data }),
        None => None,
    }
}

} // verus!
