//! The bytes of the control and data messages. A message travels as a
//! frame: one byte that names its kind, the length of its body in four
//! bytes, and the body, which holds the message's fields one after the
//! other. A reader that does not know a kind can step over its frame, and a
//! body may hold more than the fields that this reader knows.

use vstd::prelude::*;
use crate::moq_protocol::fetch::FetchRequest;
use crate::moq_protocol::messages::MoqMessage;
use crate::moq_protocol::names::texts;
use crate::moq_protocol::names::FullTrackName;
use crate::moq_protocol::names::Namespace;
use crate::moq_protocol::object::copy_bytes;
use crate::moq_protocol::object::copy_strings;
use crate::moq_protocol::object::extension_models;
use crate::moq_protocol::object::FilterType;
use crate::moq_protocol::object::GroupOrder;
use crate::moq_protocol::object::MoqObject;
use crate::moq_protocol::object::ObjectStatus;
use crate::moq_protocol::object::SubscriptionParams;
use crate::moq_protocol::object::TrackStatus;
use crate::moq_protocol::object::TrackStatusCode;
use crate::record::Field;
use crate::record::kinds_of;
use crate::record::kind_of;
use crate::record::blob_at;
use crate::record::copy_extensions;
use crate::record::copy_numbers;
use crate::record::lemma_typed;
use crate::record::numbers_at;
use crate::record::opt_text_at;
use crate::record::opt_u64_at;
use crate::record::pairs_at;
use crate::record::push_value;
use crate::record::text_at;
use crate::record::texts_at;
use crate::record::typed;
use crate::record::u32_at;
use crate::record::u64_at;
use crate::record::u8_at;
use crate::record::fields;
use crate::record::fields_fit;
use crate::record::lemma_fields_round_trip;
use crate::record::lemma_parsed_kinds;
use crate::record::parse_fields;
use crate::record::put_fields;
use crate::record::read_values;
use crate::record::values_fit;
use crate::record::write_values;
use crate::record::FieldKind;
use crate::record::Value;
use crate::wire::lemma_parse_put_blob;
use crate::wire::lemma_parse_put_u8;
use crate::wire::parse_blob;
use crate::wire::parse_u8;
use crate::wire::put_blob;
use crate::wire::put_u8;
use crate::wire::read_blob;
use crate::wire::read_u8;
use crate::wire::write_blob;
use crate::wire::write_u8;

verus! {

/// The kinds of messages.
#[derive(Debug, Clone, Copy, PartialEq, Eq, Structural)]
pub enum MessageKind {
    ClientSetup,
    ServerSetup,
    AnnounceNamespace,
    AnnounceNamespaceOk,
    AnnounceNamespaceError,
    UnannounceNamespace,
    SubscribeNamespace,
    SubscribeNamespaceOk,
    SubscribeNamespaceError,
    Subscribe,
    SubscribeOk,
    SubscribeError,
    SubscribeUpdate,
    Unsubscribe,
    SubscribeDone,
    Object,
    ObjectAck,
    Fetch,
    FetchOk,
    FetchError,
    FetchCancel,
    TrackStatusRequest,
    TrackStatusResponse,
    GoAway,
}

/// The byte that names a kind.
pub open spec fn tag_of(kind: MessageKind) -> u8 {
    match kind {
        MessageKind::ClientSetup => 0,
        MessageKind::ServerSetup => 1,
        MessageKind::AnnounceNamespace => 2,
        MessageKind::AnnounceNamespaceOk => 3,
        MessageKind::AnnounceNamespaceError => 4,
        MessageKind::UnannounceNamespace => 5,
        MessageKind::SubscribeNamespace => 6,
        MessageKind::SubscribeNamespaceOk => 7,
        MessageKind::SubscribeNamespaceError => 8,
        MessageKind::Subscribe => 9,
        MessageKind::SubscribeOk => 10,
        MessageKind::SubscribeError => 11,
        MessageKind::SubscribeUpdate => 12,
        MessageKind::Unsubscribe => 13,
        MessageKind::SubscribeDone => 14,
        MessageKind::Object => 15,
        MessageKind::ObjectAck => 16,
        MessageKind::Fetch => 17,
        MessageKind::FetchOk => 18,
        MessageKind::FetchError => 19,
        MessageKind::FetchCancel => 20,
        MessageKind::TrackStatusRequest => 21,
        MessageKind::TrackStatusResponse => 22,
        MessageKind::GoAway => 23,
    }
}

/// The kind that a byte names.
pub open spec fn kind_of_tag(tag: u8) -> Option<MessageKind> {
    if tag == 0 {
        Some(MessageKind::ClientSetup)
    } else if tag == 1 {
        Some(MessageKind::ServerSetup)
    } else if tag == 2 {
        Some(MessageKind::AnnounceNamespace)
    } else if tag == 3 {
        Some(MessageKind::AnnounceNamespaceOk)
    } else if tag == 4 {
        Some(MessageKind::AnnounceNamespaceError)
    } else if tag == 5 {
        Some(MessageKind::UnannounceNamespace)
    } else if tag == 6 {
        Some(MessageKind::SubscribeNamespace)
    } else if tag == 7 {
        Some(MessageKind::SubscribeNamespaceOk)
    } else if tag == 8 {
        Some(MessageKind::SubscribeNamespaceError)
    } else if tag == 9 {
        Some(MessageKind::Subscribe)
    } else if tag == 10 {
        Some(MessageKind::SubscribeOk)
    } else if tag == 11 {
        Some(MessageKind::SubscribeError)
    } else if tag == 12 {
        Some(MessageKind::SubscribeUpdate)
    } else if tag == 13 {
        Some(MessageKind::Unsubscribe)
    } else if tag == 14 {
        Some(MessageKind::SubscribeDone)
    } else if tag == 15 {
        Some(MessageKind::Object)
    } else if tag == 16 {
        Some(MessageKind::ObjectAck)
    } else if tag == 17 {
        Some(MessageKind::Fetch)
    } else if tag == 18 {
        Some(MessageKind::FetchOk)
    } else if tag == 19 {
        Some(MessageKind::FetchError)
    } else if tag == 20 {
        Some(MessageKind::FetchCancel)
    } else if tag == 21 {
        Some(MessageKind::TrackStatusRequest)
    } else if tag == 22 {
        Some(MessageKind::TrackStatusResponse)
    } else if tag == 23 {
        Some(MessageKind::GoAway)
    } else {
        None
    }
}

impl MessageKind {
    /// The byte that names the kind.
    pub fn tag(&self) -> (t: u8)
        ensures
            t == tag_of(*self),
            kind_of_tag(t) == Some(*self),
    {
        match self {
            MessageKind::ClientSetup => 0,
            MessageKind::ServerSetup => 1,
            MessageKind::AnnounceNamespace => 2,
            MessageKind::AnnounceNamespaceOk => 3,
            MessageKind::AnnounceNamespaceError => 4,
            MessageKind::UnannounceNamespace => 5,
            MessageKind::SubscribeNamespace => 6,
            MessageKind::SubscribeNamespaceOk => 7,
            MessageKind::SubscribeNamespaceError => 8,
            MessageKind::Subscribe => 9,
            MessageKind::SubscribeOk => 10,
            MessageKind::SubscribeError => 11,
            MessageKind::SubscribeUpdate => 12,
            MessageKind::Unsubscribe => 13,
            MessageKind::SubscribeDone => 14,
            MessageKind::Object => 15,
            MessageKind::ObjectAck => 16,
            MessageKind::Fetch => 17,
            MessageKind::FetchOk => 18,
            MessageKind::FetchError => 19,
            MessageKind::FetchCancel => 20,
            MessageKind::TrackStatusRequest => 21,
            MessageKind::TrackStatusResponse => 22,
            MessageKind::GoAway => 23,
        }
    }

    /// The kind that the byte `tag` names.
    pub fn from_tag(tag: u8) -> (k: Option<Self>)
        ensures
            k == kind_of_tag(tag),
    {
        match tag {
            0 => Some(MessageKind::ClientSetup),
            1 => Some(MessageKind::ServerSetup),
            2 => Some(MessageKind::AnnounceNamespace),
            3 => Some(MessageKind::AnnounceNamespaceOk),
            4 => Some(MessageKind::AnnounceNamespaceError),
            5 => Some(MessageKind::UnannounceNamespace),
            6 => Some(MessageKind::SubscribeNamespace),
            7 => Some(MessageKind::SubscribeNamespaceOk),
            8 => Some(MessageKind::SubscribeNamespaceError),
            9 => Some(MessageKind::Subscribe),
            10 => Some(MessageKind::SubscribeOk),
            11 => Some(MessageKind::SubscribeError),
            12 => Some(MessageKind::SubscribeUpdate),
            13 => Some(MessageKind::Unsubscribe),
            14 => Some(MessageKind::SubscribeDone),
            15 => Some(MessageKind::Object),
            16 => Some(MessageKind::ObjectAck),
            17 => Some(MessageKind::Fetch),
            18 => Some(MessageKind::FetchOk),
            19 => Some(MessageKind::FetchError),
            20 => Some(MessageKind::FetchCancel),
            21 => Some(MessageKind::TrackStatusRequest),
            22 => Some(MessageKind::TrackStatusResponse),
            23 => Some(MessageKind::GoAway),
            _ => None,
        }
    }
}

/// The number that stands for a group order.
pub open spec fn order_code(o: GroupOrder) -> u8 {
    match o {
        GroupOrder::Ascending => 0,
        GroupOrder::Descending => 1,
        GroupOrder::PublisherDefault => 2,
    }
}

/// The group order that a number stands for.
pub open spec fn order_of(code: u8) -> Option<GroupOrder> {
    if code == 0 {
        Some(GroupOrder::Ascending)
    } else if code == 1 {
        Some(GroupOrder::Descending)
    } else if code == 2 {
        Some(GroupOrder::PublisherDefault)
    } else {
        None
    }
}

/// The number that stands for the status of a track.
pub open spec fn track_code(s: TrackStatusCode) -> u8 {
    match s {
        TrackStatusCode::Active => 0,
        TrackStatusCode::NotFound => 1,
        TrackStatusCode::Paused => 2,
        TrackStatusCode::Ended => 3,
        TrackStatusCode::Unknown => 4,
    }
}

/// The status of a track that a number stands for.
pub open spec fn track_status_of(code: u8) -> Option<TrackStatusCode> {
    if code == 0 {
        Some(TrackStatusCode::Active)
    } else if code == 1 {
        Some(TrackStatusCode::NotFound)
    } else if code == 2 {
        Some(TrackStatusCode::Paused)
    } else if code == 3 {
        Some(TrackStatusCode::Ended)
    } else if code == 4 {
        Some(TrackStatusCode::Unknown)
    } else {
        None
    }
}

/// The number that stands for the status of an object.
pub open spec fn object_code(s: ObjectStatus) -> u8 {
    match s {
        ObjectStatus::Normal => 0,
        ObjectStatus::DoesNotExist => 1,
        ObjectStatus::EndOfGroup => 2,
        ObjectStatus::EndOfTrack => 3,
        ObjectStatus::EndOfSubgroup => 4,
    }
}

/// The status of an object that a number stands for.
pub open spec fn object_status_of(code: u8) -> Option<ObjectStatus> {
    if code == 0 {
        Some(ObjectStatus::Normal)
    } else if code == 1 {
        Some(ObjectStatus::DoesNotExist)
    } else if code == 2 {
        Some(ObjectStatus::EndOfGroup)
    } else if code == 3 {
        Some(ObjectStatus::EndOfTrack)
    } else if code == 4 {
        Some(ObjectStatus::EndOfSubgroup)
    } else {
        None
    }
}

/// The five fields of a filter: the number of its kind, its start group,
/// its start object, its end group and its end object. What a kind does
/// not have is written as 0 or as absent.
pub open spec fn filter_fields(f: FilterType) -> Seq<Field> {
    match f {
        FilterType::LatestGroup => seq![
            Field::U8(0),
            Field::U64(0),
            Field::U64(0),
            Field::U64(0),
            Field::OptU64(None),
        ],
        FilterType::LatestObject => seq![
            Field::U8(1),
            Field::U64(0),
            Field::U64(0),
            Field::U64(0),
            Field::OptU64(None),
        ],
        FilterType::NextGroup => seq![
            Field::U8(2),
            Field::U64(0),
            Field::U64(0),
            Field::U64(0),
            Field::OptU64(None),
        ],
        FilterType::AbsoluteStart { start_group, start_object } => seq![
            Field::U8(3),
            Field::U64(start_group),
            Field::U64(start_object),
            Field::U64(0),
            Field::OptU64(None),
        ],
        FilterType::AbsoluteRange { start_group, start_object, end_group, end_object } => seq![
            Field::U8(4),
            Field::U64(start_group),
            Field::U64(start_object),
            Field::U64(end_group),
            Field::OptU64(end_object),
        ],
    }
}

/// The filter that five fields stand for.
pub open spec fn filter_of(code: u8, a: u64, b: u64, c: u64, d: Option<u64>) -> Option<FilterType> {
    if code == 4 {
        Some(FilterType::AbsoluteRange { start_group: a, start_object: b, end_group: c, end_object: d })
    } else if c != 0 || d is Some {
        None
    } else if code == 3 {
        Some(FilterType::AbsoluteStart { start_group: a, start_object: b })
    } else if a != 0 || b != 0 {
        None
    } else if code == 0 {
        Some(FilterType::LatestGroup)
    } else if code == 1 {
        Some(FilterType::LatestObject)
    } else if code == 2 {
        Some(FilterType::NextGroup)
    } else {
        None
    }
}

/// The two fields of a track's name: the components of its namespace and
/// its own name.
pub open spec fn track_fields(t: FullTrackName) -> Seq<Field> {
    seq![Field::Texts(t.namespace@), Field::Text(t.track_name@)]
}

/// The eleven fields of what a subscriber asks for.
pub open spec fn params_fields(p: SubscriptionParams) -> Seq<Field> {
    track_fields(p.track) + filter_fields(p.filter) + seq![
        Field::U8(order_code(p.group_order)),
        Field::U8(p.subscriber_priority),
        Field::U64(p.delivery_timeout_ms),
        Field::OptU64(p.max_cache_duration_ms),
    ]
}

/// The seven fields of a track's status.
pub open spec fn status_fields(s: TrackStatus) -> Seq<Field> {
    track_fields(s.track) + seq![
        Field::U8(track_code(s.status)),
        Field::OptU64(s.latest_group_id),
        Field::OptU64(s.latest_object_id),
        Field::U8(order_code(s.group_order)),
        Field::U8(s.publisher_priority),
    ]
}

/// The nine fields of an object.
pub open spec fn object_fields(o: MoqObject) -> Seq<Field> {
    seq![
        Field::U64(o.group_id),
        Field::U64(o.subgroup_id),
        Field::U64(o.object_id),
        Field::U8(o.publisher_priority),
        Field::OptU64(o.expires_at),
        Field::U8(object_code(o.status)),
        Field::Pairs(extension_models(o.extensions@)),
        Field::Blob(o.payload@),
        Field::U64(o.created_at),
    ]
}

/// The eight fields of a fetch.
pub open spec fn fetch_fields(f: FetchRequest) -> Seq<Field> {
    track_fields(f.track) + seq![
        Field::U8(f.subscriber_priority),
        Field::U8(order_code(f.group_order)),
        Field::U64(f.start_group),
        Field::U64(f.start_object),
        Field::U64(f.end_group),
        Field::OptU64(f.end_object),
    ]
}

/// The kind of a message.
pub open spec fn kind_of_message(m: MoqMessage) -> MessageKind {
    match m {
        MoqMessage::ClientSetup { .. } => MessageKind::ClientSetup,
        MoqMessage::ServerSetup { .. } => MessageKind::ServerSetup,
        MoqMessage::AnnounceNamespace { .. } => MessageKind::AnnounceNamespace,
        MoqMessage::AnnounceNamespaceOk { .. } => MessageKind::AnnounceNamespaceOk,
        MoqMessage::AnnounceNamespaceError { .. } => MessageKind::AnnounceNamespaceError,
        MoqMessage::UnannounceNamespace { .. } => MessageKind::UnannounceNamespace,
        MoqMessage::SubscribeNamespace { .. } => MessageKind::SubscribeNamespace,
        MoqMessage::SubscribeNamespaceOk { .. } => MessageKind::SubscribeNamespaceOk,
        MoqMessage::SubscribeNamespaceError { .. } => MessageKind::SubscribeNamespaceError,
        MoqMessage::Subscribe { .. } => MessageKind::Subscribe,
        MoqMessage::SubscribeOk { .. } => MessageKind::SubscribeOk,
        MoqMessage::SubscribeError { .. } => MessageKind::SubscribeError,
        MoqMessage::SubscribeUpdate { .. } => MessageKind::SubscribeUpdate,
        MoqMessage::Unsubscribe { .. } => MessageKind::Unsubscribe,
        MoqMessage::SubscribeDone { .. } => MessageKind::SubscribeDone,
        MoqMessage::Object { .. } => MessageKind::Object,
        MoqMessage::ObjectAck { .. } => MessageKind::ObjectAck,
        MoqMessage::Fetch { .. } => MessageKind::Fetch,
        MoqMessage::FetchOk { .. } => MessageKind::FetchOk,
        MoqMessage::FetchError { .. } => MessageKind::FetchError,
        MoqMessage::FetchCancel { .. } => MessageKind::FetchCancel,
        MoqMessage::TrackStatusRequest { .. } => MessageKind::TrackStatusRequest,
        MoqMessage::TrackStatusResponse { .. } => MessageKind::TrackStatusResponse,
        MoqMessage::GoAway { .. } => MessageKind::GoAway,
    }
}

/// The fields of a message, in the order in which they are written.
pub open spec fn fields_of(m: MoqMessage) -> Seq<Field> {
    match m {
        MoqMessage::ClientSetup { supported_versions, params } => seq![
            Field::Numbers(supported_versions@),
            Field::Pairs(extension_models(params@)),
        ],
        MoqMessage::ServerSetup { selected_version, params } => seq![
            Field::U32(selected_version),
            Field::Pairs(extension_models(params@)),
        ],
        MoqMessage::AnnounceNamespace { namespace, tracks } => seq![
            Field::Texts(namespace@),
            Field::Texts(texts(tracks@)),
        ],
        MoqMessage::AnnounceNamespaceOk { namespace } => seq![Field::Texts(namespace@)],
        MoqMessage::AnnounceNamespaceError { namespace, error } => seq![
            Field::Texts(namespace@),
            Field::Text(error@),
        ],
        MoqMessage::UnannounceNamespace { namespace } => seq![Field::Texts(namespace@)],
        MoqMessage::SubscribeNamespace { namespace_prefix } => seq![Field::Texts(namespace_prefix@)],
        MoqMessage::SubscribeNamespaceOk { namespace_prefix } => seq![Field::Texts(namespace_prefix@)],
        MoqMessage::SubscribeNamespaceError { namespace_prefix, error } => seq![
            Field::Texts(namespace_prefix@),
            Field::Text(error@),
        ],
        MoqMessage::Subscribe { subscribe_id, params } => seq![Field::U64(subscribe_id)]
            + params_fields(params),
        MoqMessage::SubscribeOk { subscribe_id, status } => seq![Field::U64(subscribe_id)]
            + status_fields(status),
        MoqMessage::SubscribeError { subscribe_id, error } => seq![
            Field::U64(subscribe_id),
            Field::Text(error@),
        ],
        MoqMessage::SubscribeUpdate { subscribe_id, params } => seq![Field::U64(subscribe_id)]
            + params_fields(params),
        MoqMessage::Unsubscribe { subscribe_id } => seq![Field::U64(subscribe_id)],
        MoqMessage::SubscribeDone { subscribe_id, reason } => seq![
            Field::U64(subscribe_id),
            Field::Text(reason@),
        ],
        MoqMessage::Object { subscribe_id, object } => seq![Field::U64(subscribe_id)] + object_fields(
            object,
        ),
        MoqMessage::ObjectAck { subscribe_id, group_id, object_id } => seq![
            Field::U64(subscribe_id),
            Field::U64(group_id),
            Field::U64(object_id),
        ],
        MoqMessage::Fetch { fetch_id, request } => seq![Field::U64(fetch_id)] + fetch_fields(request),
        MoqMessage::FetchOk { fetch_id, status } => seq![Field::U64(fetch_id)] + status_fields(status),
        MoqMessage::FetchError { fetch_id, error } => seq![Field::U64(fetch_id), Field::Text(error@)],
        MoqMessage::FetchCancel { fetch_id } => seq![Field::U64(fetch_id)],
        MoqMessage::TrackStatusRequest { track } => track_fields(track),
        MoqMessage::TrackStatusResponse { status } => status_fields(status),
        MoqMessage::GoAway { new_uri } => seq![
            Field::OptText(
                match new_uri {
                    Some(uri) => Some(uri@),
                    None => None,
                },
            ),
        ],
    }
}

/// A message, as mathematical values: its kind and the values of its
/// fields.
pub struct Record {
    pub kind: MessageKind,
    pub fields: Seq<Field>,
}

impl View for MoqMessage {
    type V = Record;

    open spec fn view(&self) -> Record {
        Record { kind: kind_of_message(*self), fields: fields_of(*self) }
    }
}

/// The types of the two fields of a track's name.
pub open spec fn track_schema() -> Seq<FieldKind> {
    seq![FieldKind::Texts, FieldKind::Text]
}

/// The types of the eleven fields of what a subscriber asks for.
pub open spec fn params_schema() -> Seq<FieldKind> {
    seq![
        FieldKind::Texts,
        FieldKind::Text,
        FieldKind::U8,
        FieldKind::U64,
        FieldKind::U64,
        FieldKind::U64,
        FieldKind::OptU64,
        FieldKind::U8,
        FieldKind::U8,
        FieldKind::U64,
        FieldKind::OptU64,
    ]
}

/// The types of the seven fields of a track's status.
pub open spec fn status_schema() -> Seq<FieldKind> {
    seq![
        FieldKind::Texts,
        FieldKind::Text,
        FieldKind::U8,
        FieldKind::OptU64,
        FieldKind::OptU64,
        FieldKind::U8,
        FieldKind::U8,
    ]
}

/// The types of the nine fields of an object.
pub open spec fn object_schema() -> Seq<FieldKind> {
    seq![
        FieldKind::U64,
        FieldKind::U64,
        FieldKind::U64,
        FieldKind::U8,
        FieldKind::OptU64,
        FieldKind::U8,
        FieldKind::Pairs,
        FieldKind::Blob,
        FieldKind::U64,
    ]
}

/// The types of the eight fields of a fetch.
pub open spec fn fetch_schema() -> Seq<FieldKind> {
    seq![
        FieldKind::Texts,
        FieldKind::Text,
        FieldKind::U8,
        FieldKind::U8,
        FieldKind::U64,
        FieldKind::U64,
        FieldKind::U64,
        FieldKind::OptU64,
    ]
}

/// The types of the fields of each kind of message.
pub open spec fn schema(kind: MessageKind) -> Seq<FieldKind> {
    match kind {
        MessageKind::ClientSetup => seq![FieldKind::Numbers, FieldKind::Pairs],
        MessageKind::ServerSetup => seq![FieldKind::U32, FieldKind::Pairs],
        MessageKind::AnnounceNamespace => seq![FieldKind::Texts, FieldKind::Texts],
        MessageKind::AnnounceNamespaceOk => seq![FieldKind::Texts],
        MessageKind::AnnounceNamespaceError => seq![FieldKind::Texts, FieldKind::Text],
        MessageKind::UnannounceNamespace => seq![FieldKind::Texts],
        MessageKind::SubscribeNamespace => seq![FieldKind::Texts],
        MessageKind::SubscribeNamespaceOk => seq![FieldKind::Texts],
        MessageKind::SubscribeNamespaceError => seq![FieldKind::Texts, FieldKind::Text],
        MessageKind::Subscribe => seq![FieldKind::U64] + params_schema(),
        MessageKind::SubscribeOk => seq![FieldKind::U64] + status_schema(),
        MessageKind::SubscribeError => seq![FieldKind::U64, FieldKind::Text],
        MessageKind::SubscribeUpdate => seq![FieldKind::U64] + params_schema(),
        MessageKind::Unsubscribe => seq![FieldKind::U64],
        MessageKind::SubscribeDone => seq![FieldKind::U64, FieldKind::Text],
        MessageKind::Object => seq![FieldKind::U64] + object_schema(),
        MessageKind::ObjectAck => seq![FieldKind::U64, FieldKind::U64, FieldKind::U64],
        MessageKind::Fetch => seq![FieldKind::U64] + fetch_schema(),
        MessageKind::FetchOk => seq![FieldKind::U64] + status_schema(),
        MessageKind::FetchError => seq![FieldKind::U64, FieldKind::Text],
        MessageKind::FetchCancel => seq![FieldKind::U64],
        MessageKind::TrackStatusRequest => track_schema(),
        MessageKind::TrackStatusResponse => status_schema(),
        MessageKind::GoAway => seq![FieldKind::OptText],
    }
}

/// Whether the eleven fields from `at` on stand for what a subscriber asks
/// for: whether they hold a filter and a group order.
pub open spec fn params_ok(fields: Seq<Field>, at: int) -> bool {
    filter_of(
        fields[at + 2]->U8_0,
        fields[at + 3]->U64_0,
        fields[at + 4]->U64_0,
        fields[at + 5]->U64_0,
        fields[at + 6]->OptU64_0,
    ) is Some && order_of(fields[at + 7]->U8_0) is Some
}

/// Whether the seven fields from `at` on stand for a track's status:
/// whether they hold a status and a group order.
pub open spec fn status_ok(fields: Seq<Field>, at: int) -> bool {
    track_status_of(fields[at + 2]->U8_0) is Some && order_of(fields[at + 5]->U8_0) is Some
}

/// Whether the fields of a kind stand for a message: whether the numbers
/// that stand for a filter, an order or a status do so.
pub open spec fn well_formed(kind: MessageKind, fields: Seq<Field>) -> bool {
    match kind {
        MessageKind::Subscribe => params_ok(fields, 1),
        MessageKind::SubscribeUpdate => params_ok(fields, 1),
        MessageKind::SubscribeOk => status_ok(fields, 1),
        MessageKind::FetchOk => status_ok(fields, 1),
        MessageKind::TrackStatusResponse => status_ok(fields, 0),
        MessageKind::Object => object_status_of(fields[6]->U8_0) is Some,
        MessageKind::Fetch => order_of(fields[4]->U8_0) is Some,
        _ => true,
    }
}

/// The fields of a filter have their types and stand for the filter.
pub proof fn lemma_filter_fields(f: FilterType)
    ensures
        filter_fields(f).len() == 5,
        filter_fields(f)[0] is U8,
        filter_fields(f)[1] is U64,
        filter_fields(f)[2] is U64,
        filter_fields(f)[3] is U64,
        filter_fields(f)[4] is OptU64,
        filter_of(
            filter_fields(f)[0]->U8_0,
            filter_fields(f)[1]->U64_0,
            filter_fields(f)[2]->U64_0,
            filter_fields(f)[3]->U64_0,
            filter_fields(f)[4]->OptU64_0,
        ) == Some(f),
{
}

/// The fields of what a subscriber asks for have their types and stand
/// for it.
pub proof fn lemma_params_fields(p: SubscriptionParams)
    ensures
        kinds_of(params_fields(p)) == params_schema(),
        params_ok(params_fields(p), 0),
        filter_of(
            params_fields(p)[2]->U8_0,
            params_fields(p)[3]->U64_0,
            params_fields(p)[4]->U64_0,
            params_fields(p)[5]->U64_0,
            params_fields(p)[6]->OptU64_0,
        ) == Some(p.filter),
        order_of(params_fields(p)[7]->U8_0) == Some(p.group_order),
{
    lemma_filter_fields(p.filter);
    let f = params_fields(p);
    let ff = filter_fields(p.filter);
    assert(f.len() == 11);
    assert(f[2] == ff[0]);
    assert(f[3] == ff[1]);
    assert(f[4] == ff[2]);
    assert(f[5] == ff[3]);
    assert(f[6] == ff[4]);
    assert(f[7] == Field::U8(order_code(p.group_order)));
    assert(kinds_of(f) =~= params_schema());
}

/// The fields of a track's status have their types and stand for it.
pub proof fn lemma_status_fields(s: TrackStatus)
    ensures
        kinds_of(status_fields(s)) == status_schema(),
        status_ok(status_fields(s), 0),
        track_status_of(status_fields(s)[2]->U8_0) == Some(s.status),
        order_of(status_fields(s)[5]->U8_0) == Some(s.group_order),
{
    let f = status_fields(s);
    assert(f.len() == 7);
    assert(f[2] == Field::U8(track_code(s.status)));
    assert(f[5] == Field::U8(order_code(s.group_order)));
    assert(kinds_of(f) =~= status_schema());
}

/// The fields of an object have their types and stand for it.
pub proof fn lemma_object_fields(o: MoqObject)
    ensures
        kinds_of(object_fields(o)) == object_schema(),
        object_status_of(object_fields(o)[5]->U8_0) == Some(o.status),
{
    assert(kinds_of(object_fields(o)) =~= object_schema());
}

/// The fields of a fetch have their types and stand for it.
pub proof fn lemma_fetch_fields(f: FetchRequest)
    ensures
        kinds_of(fetch_fields(f)) == fetch_schema(),
        order_of(fetch_fields(f)[3]->U8_0) == Some(f.group_order),
{
    let fs = fetch_fields(f);
    assert(fs.len() == 8);
    assert(fs[3] == Field::U8(order_code(f.group_order)));
    assert(kinds_of(fs) =~= fetch_schema());
}

/// The types of fields behind a first field.
proof fn lemma_kinds_behind(first: Field, others: Seq<Field>)
    ensures
        kinds_of(seq![first] + others) == seq![kind_of(first)] + kinds_of(others),
{
    assert(kinds_of(seq![first] + others) =~= seq![kind_of(first)] + kinds_of(others));
}

/// The fields of a message have the types of its kind and stand for a
/// message.
pub proof fn lemma_message_is_well_formed(m: MoqMessage)
    ensures
        kinds_of(fields_of(m)) == schema(kind_of_message(m)),
        well_formed(kind_of_message(m), fields_of(m)),
{
    let fields = fields_of(m);
    match m {
        MoqMessage::Subscribe { subscribe_id, params } => {
            lemma_params_fields(params);
            lemma_kinds_behind(Field::U64(subscribe_id), params_fields(params));
            let f = params_fields(params);
            assert(fields[3] == f[2] && fields[4] == f[3] && fields[5] == f[4] && fields[6] == f[5]
                && fields[7] == f[6] && fields[8] == f[7]);
        },
        MoqMessage::SubscribeUpdate { subscribe_id, params } => {
            lemma_params_fields(params);
            lemma_kinds_behind(Field::U64(subscribe_id), params_fields(params));
            let f = params_fields(params);
            assert(fields[3] == f[2] && fields[4] == f[3] && fields[5] == f[4] && fields[6] == f[5]
                && fields[7] == f[6] && fields[8] == f[7]);
        },
        MoqMessage::SubscribeOk { subscribe_id, status } => {
            lemma_status_fields(status);
            lemma_kinds_behind(Field::U64(subscribe_id), status_fields(status));
            let f = status_fields(status);
            assert(fields[3] == f[2] && fields[6] == f[5]);
        },
        MoqMessage::FetchOk { fetch_id, status } => {
            lemma_status_fields(status);
            lemma_kinds_behind(Field::U64(fetch_id), status_fields(status));
            let f = status_fields(status);
            assert(fields[3] == f[2] && fields[6] == f[5]);
        },
        MoqMessage::TrackStatusResponse { status } => {
            lemma_status_fields(status);
        },
        MoqMessage::Object { subscribe_id, object } => {
            lemma_object_fields(object);
            lemma_kinds_behind(Field::U64(subscribe_id), object_fields(object));
            assert(fields[6] == object_fields(object)[5]);
        },
        MoqMessage::Fetch { fetch_id, request } => {
            lemma_fetch_fields(request);
            lemma_kinds_behind(Field::U64(fetch_id), fetch_fields(request));
            assert(fields[4] == fetch_fields(request)[3]);
        },
        _ => {
            assert(kinds_of(fields) =~= schema(kind_of_message(m)));
        },
    }
}

fn order_byte(o: GroupOrder) -> (code: u8)
    ensures
        code == order_code(o),
        order_of(code) == Some(o),
{
    match o {
        GroupOrder::Ascending => 0,
        GroupOrder::Descending => 1,
        GroupOrder::PublisherDefault => 2,
    }
}

fn order_from(code: u8) -> (o: Option<GroupOrder>)
    ensures
        o == order_of(code),
        o matches Some(order) ==> order_code(order) == code,
{
    match code {
        0 => Some(GroupOrder::Ascending),
        1 => Some(GroupOrder::Descending),
        2 => Some(GroupOrder::PublisherDefault),
        _ => None,
    }
}

fn track_byte(s: TrackStatusCode) -> (code: u8)
    ensures
        code == track_code(s),
        track_status_of(code) == Some(s),
{
    match s {
        TrackStatusCode::Active => 0,
        TrackStatusCode::NotFound => 1,
        TrackStatusCode::Paused => 2,
        TrackStatusCode::Ended => 3,
        TrackStatusCode::Unknown => 4,
    }
}

fn track_status_from(code: u8) -> (s: Option<TrackStatusCode>)
    ensures
        s == track_status_of(code),
        s matches Some(status) ==> track_code(status) == code,
{
    match code {
        0 => Some(TrackStatusCode::Active),
        1 => Some(TrackStatusCode::NotFound),
        2 => Some(TrackStatusCode::Paused),
        3 => Some(TrackStatusCode::Ended),
        4 => Some(TrackStatusCode::Unknown),
        _ => None,
    }
}

fn object_byte(s: ObjectStatus) -> (code: u8)
    ensures
        code == object_code(s),
        object_status_of(code) == Some(s),
{
    match s {
        ObjectStatus::Normal => 0,
        ObjectStatus::DoesNotExist => 1,
        ObjectStatus::EndOfGroup => 2,
        ObjectStatus::EndOfTrack => 3,
        ObjectStatus::EndOfSubgroup => 4,
    }
}

fn object_status_from(code: u8) -> (s: Option<ObjectStatus>)
    ensures
        s == object_status_of(code),
        s matches Some(status) ==> object_code(status) == code,
{
    match code {
        0 => Some(ObjectStatus::Normal),
        1 => Some(ObjectStatus::DoesNotExist),
        2 => Some(ObjectStatus::EndOfGroup),
        3 => Some(ObjectStatus::EndOfTrack),
        4 => Some(ObjectStatus::EndOfSubgroup),
        _ => None,
    }
}

fn filter_from(code: u8, a: u64, b: u64, c: u64, d: Option<u64>) -> (f: Option<FilterType>)
    ensures
        f == filter_of(code, a, b, c, d),
        f matches Some(filter) ==> filter_fields(filter) == seq![
            Field::U8(code),
            Field::U64(a),
            Field::U64(b),
            Field::U64(c),
            Field::OptU64(d),
        ],
{
    if code == 4 {
        Some(FilterType::AbsoluteRange { start_group: a, start_object: b, end_group: c, end_object: d })
    } else if c != 0 || d.is_some() {
        None
    } else if code == 3 {
        Some(FilterType::AbsoluteStart { start_group: a, start_object: b })
    } else if a != 0 || b != 0 {
        None
    } else if code == 0 {
        Some(FilterType::LatestGroup)
    } else if code == 1 {
        Some(FilterType::LatestObject)
    } else if code == 2 {
        Some(FilterType::NextGroup)
    } else {
        None
    }
}

fn push_track(values: &mut Vec<Value>, t: &FullTrackName)
    ensures
        fields(final(values)@) == fields(old(values)@) + track_fields(*t),
{
    push_value(values, Value::Texts(copy_strings(&t.namespace.components)));
    push_value(values, Value::Text(t.track_name.clone()));
    proof {
        assert(fields(values@) =~= fields(old(values)@) + track_fields(*t));
    }
}

fn push_filter(values: &mut Vec<Value>, f: FilterType)
    ensures
        fields(final(values)@) == fields(old(values)@) + filter_fields(f),
{
    let (code, a, b, c, d): (u8, u64, u64, u64, Option<u64>) = match f {
        FilterType::LatestGroup => (0, 0, 0, 0, None),
        FilterType::LatestObject => (1, 0, 0, 0, None),
        FilterType::NextGroup => (2, 0, 0, 0, None),
        FilterType::AbsoluteStart { start_group, start_object } => (3, start_group, start_object, 0, None),
        FilterType::AbsoluteRange { start_group, start_object, end_group, end_object } => (
            4,
            start_group,
            start_object,
            end_group,
            end_object,
        ),
    };
    push_value(values, Value::U8(code));
    push_value(values, Value::U64(a));
    push_value(values, Value::U64(b));
    push_value(values, Value::U64(c));
    push_value(values, Value::OptU64(d));
    proof {
        assert(fields(values@) =~= fields(old(values)@) + filter_fields(f));
    }
}

fn push_params(values: &mut Vec<Value>, p: &SubscriptionParams)
    ensures
        fields(final(values)@) == fields(old(values)@) + params_fields(*p),
{
    push_track(values, &p.track);
    push_filter(values, p.filter);
    push_value(values, Value::U8(order_byte(p.group_order)));
    push_value(values, Value::U8(p.subscriber_priority));
    push_value(values, Value::U64(p.delivery_timeout_ms));
    push_value(values, Value::OptU64(p.max_cache_duration_ms));
    proof {
        assert(fields(values@) =~= fields(old(values)@) + params_fields(*p));
    }
}

fn push_status(values: &mut Vec<Value>, s: &TrackStatus)
    ensures
        fields(final(values)@) == fields(old(values)@) + status_fields(*s),
{
    push_track(values, &s.track);
    push_value(values, Value::U8(track_byte(s.status)));
    push_value(values, Value::OptU64(s.latest_group_id));
    push_value(values, Value::OptU64(s.latest_object_id));
    push_value(values, Value::U8(order_byte(s.group_order)));
    push_value(values, Value::U8(s.publisher_priority));
    proof {
        assert(fields(values@) =~= fields(old(values)@) + status_fields(*s));
    }
}

fn push_object(values: &mut Vec<Value>, o: &MoqObject)
    ensures
        fields(final(values)@) == fields(old(values)@) + object_fields(*o),
{
    push_value(values, Value::U64(o.group_id));
    push_value(values, Value::U64(o.subgroup_id));
    push_value(values, Value::U64(o.object_id));
    push_value(values, Value::U8(o.publisher_priority));
    push_value(values, Value::OptU64(o.expires_at));
    push_value(values, Value::U8(object_byte(o.status)));
    push_value(values, Value::Pairs(copy_extensions(&o.extensions)));
    push_value(values, Value::Blob(copy_bytes(&o.payload)));
    push_value(values, Value::U64(o.created_at));
    proof {
        assert(fields(values@) =~= fields(old(values)@) + object_fields(*o));
    }
}

fn push_fetch(values: &mut Vec<Value>, f: &FetchRequest)
    ensures
        fields(final(values)@) == fields(old(values)@) + fetch_fields(*f),
{
    push_track(values, &f.track);
    push_value(values, Value::U8(f.subscriber_priority));
    push_value(values, Value::U8(order_byte(f.group_order)));
    push_value(values, Value::U64(f.start_group));
    push_value(values, Value::U64(f.start_object));
    push_value(values, Value::U64(f.end_group));
    push_value(values, Value::OptU64(f.end_object));
    proof {
        assert(fields(values@) =~= fields(old(values)@) + fetch_fields(*f));
    }
}

impl MoqMessage {
    /// The kind of the message.
    pub fn kind(&self) -> (k: MessageKind)
        ensures
            k == self@.kind,
    {
        match self {
            MoqMessage::ClientSetup { .. } => MessageKind::ClientSetup,
            MoqMessage::ServerSetup { .. } => MessageKind::ServerSetup,
            MoqMessage::AnnounceNamespace { .. } => MessageKind::AnnounceNamespace,
            MoqMessage::AnnounceNamespaceOk { .. } => MessageKind::AnnounceNamespaceOk,
            MoqMessage::AnnounceNamespaceError { .. } => MessageKind::AnnounceNamespaceError,
            MoqMessage::UnannounceNamespace { .. } => MessageKind::UnannounceNamespace,
            MoqMessage::SubscribeNamespace { .. } => MessageKind::SubscribeNamespace,
            MoqMessage::SubscribeNamespaceOk { .. } => MessageKind::SubscribeNamespaceOk,
            MoqMessage::SubscribeNamespaceError { .. } => MessageKind::SubscribeNamespaceError,
            MoqMessage::Subscribe { .. } => MessageKind::Subscribe,
            MoqMessage::SubscribeOk { .. } => MessageKind::SubscribeOk,
            MoqMessage::SubscribeError { .. } => MessageKind::SubscribeError,
            MoqMessage::SubscribeUpdate { .. } => MessageKind::SubscribeUpdate,
            MoqMessage::Unsubscribe { .. } => MessageKind::Unsubscribe,
            MoqMessage::SubscribeDone { .. } => MessageKind::SubscribeDone,
            MoqMessage::Object { .. } => MessageKind::Object,
            MoqMessage::ObjectAck { .. } => MessageKind::ObjectAck,
            MoqMessage::Fetch { .. } => MessageKind::Fetch,
            MoqMessage::FetchOk { .. } => MessageKind::FetchOk,
            MoqMessage::FetchError { .. } => MessageKind::FetchError,
            MoqMessage::FetchCancel { .. } => MessageKind::FetchCancel,
            MoqMessage::TrackStatusRequest { .. } => MessageKind::TrackStatusRequest,
            MoqMessage::TrackStatusResponse { .. } => MessageKind::TrackStatusResponse,
            MoqMessage::GoAway { .. } => MessageKind::GoAway,
        }
    }

    /// The values of the message's fields, in the order in which they are
    /// written.
    pub fn to_values(&self) -> (values: Vec<Value>)
        ensures
            fields(values@) == self@.fields,
    {
        let mut values: Vec<Value> = Vec::new();
        proof {
            assert(fields(values@) =~= Seq::<Field>::empty());
        }
        match self {
            MoqMessage::ClientSetup { supported_versions, params } => {
                push_value(&mut values, Value::Numbers(copy_numbers(supported_versions)));
                push_value(&mut values, Value::Pairs(copy_extensions(params)));
            },
            MoqMessage::ServerSetup { selected_version, params } => {
                push_value(&mut values, Value::U32(*selected_version));
                push_value(&mut values, Value::Pairs(copy_extensions(params)));
            },
            MoqMessage::AnnounceNamespace { namespace, tracks } => {
                push_value(&mut values, Value::Texts(copy_strings(&namespace.components)));
                push_value(&mut values, Value::Texts(copy_strings(tracks)));
            },
            MoqMessage::AnnounceNamespaceOk { namespace } => {
                push_value(&mut values, Value::Texts(copy_strings(&namespace.components)));
            },
            MoqMessage::AnnounceNamespaceError { namespace, error } => {
                push_value(&mut values, Value::Texts(copy_strings(&namespace.components)));
                push_value(&mut values, Value::Text(error.clone()));
            },
            MoqMessage::UnannounceNamespace { namespace } => {
                push_value(&mut values, Value::Texts(copy_strings(&namespace.components)));
            },
            MoqMessage::SubscribeNamespace { namespace_prefix } => {
                push_value(&mut values, Value::Texts(copy_strings(&namespace_prefix.components)));
            },
            MoqMessage::SubscribeNamespaceOk { namespace_prefix } => {
                push_value(&mut values, Value::Texts(copy_strings(&namespace_prefix.components)));
            },
            MoqMessage::SubscribeNamespaceError { namespace_prefix, error } => {
                push_value(&mut values, Value::Texts(copy_strings(&namespace_prefix.components)));
                push_value(&mut values, Value::Text(error.clone()));
            },
            MoqMessage::Subscribe { subscribe_id, params } => {
                push_value(&mut values, Value::U64(*subscribe_id));
                push_params(&mut values, params);
            },
            MoqMessage::SubscribeOk { subscribe_id, status } => {
                push_value(&mut values, Value::U64(*subscribe_id));
                push_status(&mut values, status);
            },
            MoqMessage::SubscribeError { subscribe_id, error } => {
                push_value(&mut values, Value::U64(*subscribe_id));
                push_value(&mut values, Value::Text(error.clone()));
            },
            MoqMessage::SubscribeUpdate { subscribe_id, params } => {
                push_value(&mut values, Value::U64(*subscribe_id));
                push_params(&mut values, params);
            },
            MoqMessage::Unsubscribe { subscribe_id } => {
                push_value(&mut values, Value::U64(*subscribe_id));
            },
            MoqMessage::SubscribeDone { subscribe_id, reason } => {
                push_value(&mut values, Value::U64(*subscribe_id));
                push_value(&mut values, Value::Text(reason.clone()));
            },
            MoqMessage::Object { subscribe_id, object } => {
                push_value(&mut values, Value::U64(*subscribe_id));
                push_object(&mut values, object);
            },
            MoqMessage::ObjectAck { subscribe_id, group_id, object_id } => {
                push_value(&mut values, Value::U64(*subscribe_id));
                push_value(&mut values, Value::U64(*group_id));
                push_value(&mut values, Value::U64(*object_id));
            },
            MoqMessage::Fetch { fetch_id, request } => {
                push_value(&mut values, Value::U64(*fetch_id));
                push_fetch(&mut values, request);
            },
            MoqMessage::FetchOk { fetch_id, status } => {
                push_value(&mut values, Value::U64(*fetch_id));
                push_status(&mut values, status);
            },
            MoqMessage::FetchError { fetch_id, error } => {
                push_value(&mut values, Value::U64(*fetch_id));
                push_value(&mut values, Value::Text(error.clone()));
            },
            MoqMessage::FetchCancel { fetch_id } => {
                push_value(&mut values, Value::U64(*fetch_id));
            },
            MoqMessage::TrackStatusRequest { track } => {
                push_track(&mut values, track);
            },
            MoqMessage::TrackStatusResponse { status } => {
                push_status(&mut values, status);
            },
            MoqMessage::GoAway { new_uri } => {
                let uri = match new_uri {
                    Some(uri) => Some(uri.clone()),
                    None => None,
                };
                push_value(&mut values, Value::OptText(uri));
            },
        }
        proof {
            assert(fields(values@) =~= fields_of(*self));
        }
        values
    }
}

fn track_at(values: &Vec<Value>, at: usize) -> (t: FullTrackName)
    requires
        typed(fields(values@), at as int, track_schema()),
    ensures
        track_fields(t) == fields(values@).subrange(at as int, at + 2),
{
    let n = values.len();
    proof {
        let all = fields(values@);
        assert(track_schema().len() == 2);
        assert(at + 2 <= n);
        assert(all.len() == values@.len());
        assert(kind_of(all[at + 0]) == track_schema()[0]);
        assert(kind_of(all[at + 1]) == track_schema()[1]);
    }
    let namespace = Namespace { components: texts_at(values, at) };
    let track_name = text_at(values, at + 1);
    let t = FullTrackName { namespace, track_name };
    proof {
        assert(track_fields(t) =~= fields(values@).subrange(at as int, at + 2));
    }
    t
}

fn params_at(values: &Vec<Value>, at: usize) -> (r: Option<SubscriptionParams>)
    requires
        typed(fields(values@), at as int, params_schema()),
    ensures
        match r {
            Some(p) => params_ok(fields(values@), at as int) && params_fields(p) == fields(
                values@,
            ).subrange(at as int, at + 11),
            None => !params_ok(fields(values@), at as int),
        },
{
    let ghost all = fields(values@);
    let n = values.len();
    proof {
        assert(params_schema().len() == 11);
        assert(all.len() == values@.len());
        assert(at + 11 <= n);
        assert(kind_of(all[at + 0]) == params_schema()[0]);
        assert(kind_of(all[at + 1]) == params_schema()[1]);
        assert(kind_of(all[at + 2]) == params_schema()[2]);
        assert(kind_of(all[at + 3]) == params_schema()[3]);
        assert(kind_of(all[at + 4]) == params_schema()[4]);
        assert(kind_of(all[at + 5]) == params_schema()[5]);
        assert(kind_of(all[at + 6]) == params_schema()[6]);
        assert(kind_of(all[at + 7]) == params_schema()[7]);
        assert(kind_of(all[at + 8]) == params_schema()[8]);
        assert(kind_of(all[at + 9]) == params_schema()[9]);
        assert(kind_of(all[at + 10]) == params_schema()[10]);
        assert(typed(all, at as int, track_schema())) by {
            assert forall|k: int| 0 <= k < 2 implies kind_of(#[trigger] all[at + k]) == track_schema()[k] by {
                assert(params_schema()[k] == track_schema()[k]);
            }
        }
    }
    let track = track_at(values, at);
    let filter = match filter_from(
        u8_at(values, at + 2),
        u64_at(values, at + 3),
        u64_at(values, at + 4),
        u64_at(values, at + 5),
        opt_u64_at(values, at + 6),
    ) {
        Some(f) => f,
        None => {
            return None;
        },
    };
    let group_order = match order_from(u8_at(values, at + 7)) {
        Some(o) => o,
        None => {
            return None;
        },
    };
    let p = SubscriptionParams {
        track,
        filter,
        group_order,
        subscriber_priority: u8_at(values, at + 8),
        delivery_timeout_ms: u64_at(values, at + 9),
        max_cache_duration_ms: opt_u64_at(values, at + 10),
    };
    proof {
        let want = all.subrange(at as int, at + 11);
        let got = params_fields(p);
        let t = all.subrange(at as int, at + 2);
        assert(got.len() == 11);
        assert(got[0] == t[0] && got[1] == t[1]);
        assert(got =~= want);
    }
    Some(p)
}

fn status_at(values: &Vec<Value>, at: usize) -> (r: Option<TrackStatus>)
    requires
        typed(fields(values@), at as int, status_schema()),
    ensures
        match r {
            Some(s) => status_ok(fields(values@), at as int) && status_fields(s) == fields(
                values@,
            ).subrange(at as int, at + 7),
            None => !status_ok(fields(values@), at as int),
        },
{
    let ghost all = fields(values@);
    let n = values.len();
    proof {
        assert(status_schema().len() == 7);
        assert(all.len() == values@.len());
        assert(at + 7 <= n);
        assert(kind_of(all[at + 0]) == status_schema()[0]);
        assert(kind_of(all[at + 1]) == status_schema()[1]);
        assert(kind_of(all[at + 2]) == status_schema()[2]);
        assert(kind_of(all[at + 3]) == status_schema()[3]);
        assert(kind_of(all[at + 4]) == status_schema()[4]);
        assert(kind_of(all[at + 5]) == status_schema()[5]);
        assert(kind_of(all[at + 6]) == status_schema()[6]);
        assert(typed(all, at as int, track_schema())) by {
            assert forall|k: int| 0 <= k < 2 implies kind_of(#[trigger] all[at + k]) == track_schema()[k] by {
                assert(status_schema()[k] == track_schema()[k]);
            }
        }
    }
    let track = track_at(values, at);
    let status = match track_status_from(u8_at(values, at + 2)) {
        Some(s) => s,
        None => {
            return None;
        },
    };
    let group_order = match order_from(u8_at(values, at + 5)) {
        Some(o) => o,
        None => {
            return None;
        },
    };
    let s = TrackStatus {
        track,
        status,
        latest_group_id: opt_u64_at(values, at + 3),
        latest_object_id: opt_u64_at(values, at + 4),
        group_order,
        publisher_priority: u8_at(values, at + 6),
    };
    proof {
        let want = all.subrange(at as int, at + 7);
        let got = status_fields(s);
        let t = all.subrange(at as int, at + 2);
        assert(got.len() == 7);
        assert(got[0] == t[0] && got[1] == t[1]);
        assert(got =~= want);
    }
    Some(s)
}

fn object_at(values: &Vec<Value>, at: usize) -> (r: Option<MoqObject>)
    requires
        typed(fields(values@), at as int, object_schema()),
    ensures
        match r {
            Some(o) => object_status_of(fields(values@)[at + 5]->U8_0) is Some && object_fields(o)
                == fields(values@).subrange(at as int, at + 9),
            None => object_status_of(fields(values@)[at + 5]->U8_0) is None,
        },
{
    let ghost all = fields(values@);
    let n = values.len();
    proof {
        assert(object_schema().len() == 9);
        assert(all.len() == values@.len());
        assert(at + 9 <= n);
        assert(kind_of(all[at + 0]) == object_schema()[0]);
        assert(kind_of(all[at + 1]) == object_schema()[1]);
        assert(kind_of(all[at + 2]) == object_schema()[2]);
        assert(kind_of(all[at + 3]) == object_schema()[3]);
        assert(kind_of(all[at + 4]) == object_schema()[4]);
        assert(kind_of(all[at + 5]) == object_schema()[5]);
        assert(kind_of(all[at + 6]) == object_schema()[6]);
        assert(kind_of(all[at + 7]) == object_schema()[7]);
        assert(kind_of(all[at + 8]) == object_schema()[8]);
    }
    let status = match object_status_from(u8_at(values, at + 5)) {
        Some(s) => s,
        None => {
            return None;
        },
    };
    let o = MoqObject {
        group_id: u64_at(values, at),
        subgroup_id: u64_at(values, at + 1),
        object_id: u64_at(values, at + 2),
        publisher_priority: u8_at(values, at + 3),
        expires_at: opt_u64_at(values, at + 4),
        status,
        extensions: pairs_at(values, at + 6),
        payload: blob_at(values, at + 7),
        created_at: u64_at(values, at + 8),
    };
    proof {
        assert(object_fields(o) =~= all.subrange(at as int, at + 9));
    }
    Some(o)
}

fn fetch_at(values: &Vec<Value>, at: usize) -> (r: Option<FetchRequest>)
    requires
        typed(fields(values@), at as int, fetch_schema()),
    ensures
        match r {
            Some(f) => order_of(fields(values@)[at + 3]->U8_0) is Some && fetch_fields(f) == fields(
                values@,
            ).subrange(at as int, at + 8),
            None => order_of(fields(values@)[at + 3]->U8_0) is None,
        },
{
    let ghost all = fields(values@);
    let n = values.len();
    proof {
        assert(fetch_schema().len() == 8);
        assert(all.len() == values@.len());
        assert(at + 8 <= n);
        assert(kind_of(all[at + 0]) == fetch_schema()[0]);
        assert(kind_of(all[at + 1]) == fetch_schema()[1]);
        assert(kind_of(all[at + 2]) == fetch_schema()[2]);
        assert(kind_of(all[at + 3]) == fetch_schema()[3]);
        assert(kind_of(all[at + 4]) == fetch_schema()[4]);
        assert(kind_of(all[at + 5]) == fetch_schema()[5]);
        assert(kind_of(all[at + 6]) == fetch_schema()[6]);
        assert(kind_of(all[at + 7]) == fetch_schema()[7]);
        assert(typed(all, at as int, track_schema())) by {
            assert forall|k: int| 0 <= k < 2 implies kind_of(#[trigger] all[at + k]) == track_schema()[k] by {
                assert(fetch_schema()[k] == track_schema()[k]);
            }
        }
    }
    let track = track_at(values, at);
    let group_order = match order_from(u8_at(values, at + 3)) {
        Some(o) => o,
        None => {
            return None;
        },
    };
    let f = FetchRequest {
        track,
        subscriber_priority: u8_at(values, at + 2),
        group_order,
        start_group: u64_at(values, at + 4),
        start_object: u64_at(values, at + 5),
        end_group: u64_at(values, at + 6),
        end_object: opt_u64_at(values, at + 7),
    };
    proof {
        let want = all.subrange(at as int, at + 8);
        let got = fetch_fields(f);
        let t = all.subrange(at as int, at + 2);
        assert(got.len() == 8);
        assert(got[0] == t[0] && got[1] == t[1]);
        assert(got =~= want);
    }
    Some(f)
}

/// Fields whose types are a first type and the types `kinds` have the
/// types `kinds` from the second field on.
proof fn lemma_typed_behind(all: Seq<Field>, first: FieldKind, kinds: Seq<FieldKind>)
    requires
        kinds_of(all) == seq![first] + kinds,
    ensures
        all.len() == 1 + kinds.len(),
        kind_of(all[0]) == first,
        typed(all, 1, kinds),
{
    lemma_typed(all, seq![first] + kinds);
    assert((seq![first] + kinds)[0] == first);
    assert forall|k: int| 0 <= k < kinds.len() implies kind_of(#[trigger] all[1 + k]) == kinds[k] by {
        assert((seq![first] + kinds)[1 + k] == kinds[k]);
    }
}

impl MoqMessage {
    /// The message of kind `kind` whose fields hold `values`, where they
    /// stand for one.
    pub fn from_values(kind: MessageKind, values: &Vec<Value>) -> (r: Option<MoqMessage>)
        requires
            kinds_of(fields(values@)) == schema(kind),
        ensures
            match r {
                Some(m) => well_formed(kind, fields(values@)) && m@ == (Record {
                    kind,
                    fields: fields(values@),
                }),
                None => !well_formed(kind, fields(values@)),
            },
    {
        let ghost all = fields(values@);
        let n = values.len();
        proof {
            lemma_typed(all, schema(kind));
        }
        match kind {
            MessageKind::ClientSetup => {
                let m = MoqMessage::ClientSetup {
                    supported_versions: numbers_at(values, 0),
                    params: pairs_at(values, 1),
                };
                proof {
                    assert(fields_of(m) =~= all);
                }
                Some(m)
            },
            MessageKind::ServerSetup => {
                let m = MoqMessage::ServerSetup {
                    selected_version: u32_at(values, 0),
                    params: pairs_at(values, 1),
                };
                proof {
                    assert(fields_of(m) =~= all);
                }
                Some(m)
            },
            MessageKind::AnnounceNamespace => {
                let m = MoqMessage::AnnounceNamespace {
                    namespace: Namespace { components: texts_at(values, 0) },
                    tracks: texts_at(values, 1),
                };
                proof {
                    assert(fields_of(m) =~= all);
                }
                Some(m)
            },
            MessageKind::AnnounceNamespaceOk => {
                let m = MoqMessage::AnnounceNamespaceOk {
                    namespace: Namespace { components: texts_at(values, 0) },
                };
                proof {
                    assert(fields_of(m) =~= all);
                }
                Some(m)
            },
            MessageKind::AnnounceNamespaceError => {
                let m = MoqMessage::AnnounceNamespaceError {
                    namespace: Namespace { components: texts_at(values, 0) },
                    error: text_at(values, 1),
                };
                proof {
                    assert(fields_of(m) =~= all);
                }
                Some(m)
            },
            MessageKind::UnannounceNamespace => {
                let m = MoqMessage::UnannounceNamespace {
                    namespace: Namespace { components: texts_at(values, 0) },
                };
                proof {
                    assert(fields_of(m) =~= all);
                }
                Some(m)
            },
            MessageKind::SubscribeNamespace => {
                let m = MoqMessage::SubscribeNamespace {
                    namespace_prefix: Namespace { components: texts_at(values, 0) },
                };
                proof {
                    assert(fields_of(m) =~= all);
                }
                Some(m)
            },
            MessageKind::SubscribeNamespaceOk => {
                let m = MoqMessage::SubscribeNamespaceOk {
                    namespace_prefix: Namespace { components: texts_at(values, 0) },
                };
                proof {
                    assert(fields_of(m) =~= all);
                }
                Some(m)
            },
            MessageKind::SubscribeNamespaceError => {
                let m = MoqMessage::SubscribeNamespaceError {
                    namespace_prefix: Namespace { components: texts_at(values, 0) },
                    error: text_at(values, 1),
                };
                proof {
                    assert(fields_of(m) =~= all);
                }
                Some(m)
            },
            MessageKind::Subscribe => {
                proof {
                    lemma_typed_behind(all, FieldKind::U64, params_schema());
                }
                let subscribe_id = u64_at(values, 0);
                match params_at(values, 1) {
                    Some(params) => {
                        let m = MoqMessage::Subscribe { subscribe_id, params };
                        proof {
                            assert(fields_of(m) =~= all);
                        }
                        Some(m)
                    },
                    None => None,
                }
            },
            MessageKind::SubscribeOk => {
                proof {
                    lemma_typed_behind(all, FieldKind::U64, status_schema());
                }
                let subscribe_id = u64_at(values, 0);
                match status_at(values, 1) {
                    Some(status) => {
                        let m = MoqMessage::SubscribeOk { subscribe_id, status };
                        proof {
                            assert(fields_of(m) =~= all);
                        }
                        Some(m)
                    },
                    None => None,
                }
            },
            MessageKind::SubscribeError => {
                let m = MoqMessage::SubscribeError {
                    subscribe_id: u64_at(values, 0),
                    error: text_at(values, 1),
                };
                proof {
                    assert(fields_of(m) =~= all);
                }
                Some(m)
            },
            MessageKind::SubscribeUpdate => {
                proof {
                    lemma_typed_behind(all, FieldKind::U64, params_schema());
                }
                let subscribe_id = u64_at(values, 0);
                match params_at(values, 1) {
                    Some(params) => {
                        let m = MoqMessage::SubscribeUpdate { subscribe_id, params };
                        proof {
                            assert(fields_of(m) =~= all);
                        }
                        Some(m)
                    },
                    None => None,
                }
            },
            MessageKind::Unsubscribe => {
                let m = MoqMessage::Unsubscribe { subscribe_id: u64_at(values, 0) };
                proof {
                    assert(fields_of(m) =~= all);
                }
                Some(m)
            },
            MessageKind::SubscribeDone => {
                let m = MoqMessage::SubscribeDone {
                    subscribe_id: u64_at(values, 0),
                    reason: text_at(values, 1),
                };
                proof {
                    assert(fields_of(m) =~= all);
                }
                Some(m)
            },
            MessageKind::Object => {
                proof {
                    lemma_typed_behind(all, FieldKind::U64, object_schema());
                }
                let subscribe_id = u64_at(values, 0);
                match object_at(values, 1) {
                    Some(object) => {
                        let m = MoqMessage::Object { subscribe_id, object };
                        proof {
                            assert(fields_of(m) =~= all);
                        }
                        Some(m)
                    },
                    None => None,
                }
            },
            MessageKind::ObjectAck => {
                let m = MoqMessage::ObjectAck {
                    subscribe_id: u64_at(values, 0),
                    group_id: u64_at(values, 1),
                    object_id: u64_at(values, 2),
                };
                proof {
                    assert(fields_of(m) =~= all);
                }
                Some(m)
            },
            MessageKind::Fetch => {
                proof {
                    lemma_typed_behind(all, FieldKind::U64, fetch_schema());
                }
                let fetch_id = u64_at(values, 0);
                match fetch_at(values, 1) {
                    Some(request) => {
                        let m = MoqMessage::Fetch { fetch_id, request };
                        proof {
                            assert(fields_of(m) =~= all);
                        }
                        Some(m)
                    },
                    None => None,
                }
            },
            MessageKind::FetchOk => {
                proof {
                    lemma_typed_behind(all, FieldKind::U64, status_schema());
                }
                let fetch_id = u64_at(values, 0);
                match status_at(values, 1) {
                    Some(status) => {
                        let m = MoqMessage::FetchOk { fetch_id, status };
                        proof {
                            assert(fields_of(m) =~= all);
                        }
                        Some(m)
                    },
                    None => None,
                }
            },
            MessageKind::FetchError => {
                let m = MoqMessage::FetchError { fetch_id: u64_at(values, 0), error: text_at(values, 1) };
                proof {
                    assert(fields_of(m) =~= all);
                }
                Some(m)
            },
            MessageKind::FetchCancel => {
                let m = MoqMessage::FetchCancel { fetch_id: u64_at(values, 0) };
                proof {
                    assert(fields_of(m) =~= all);
                }
                Some(m)
            },
            MessageKind::TrackStatusRequest => {
                proof {
                    assert(typed(all, 0, track_schema()));
                }
                let m = MoqMessage::TrackStatusRequest { track: track_at(values, 0) };
                proof {
                    assert(fields_of(m) =~= all);
                }
                Some(m)
            },
            MessageKind::TrackStatusResponse => {
                proof {
                    assert(typed(all, 0, status_schema()));
                }
                match status_at(values, 0) {
                    Some(status) => {
                        let m = MoqMessage::TrackStatusResponse { status };
                        proof {
                            assert(fields_of(m) =~= all);
                        }
                        Some(m)
                    },
                    None => None,
                }
            },
            MessageKind::GoAway => {
                let m = MoqMessage::GoAway { new_uri: opt_text_at(values, 0) };
                proof {
                    assert(fields_of(m) =~= all);
                }
                Some(m)
            },
        }
    }
}

/// Whether a message can be written: every length in it, and the length
/// of its body, fits four bytes.
pub open spec fn record_fits(r: Record) -> bool {
    fields_fit(r.fields) && put_fields(r.fields).len() <= u32::MAX
}

/// The frame of a message: the byte that names its kind, the length of
/// its body in four bytes, and the body, which holds its fields.
pub open spec fn message_bytes(r: Record) -> Seq<u8> {
    put_u8(tag_of(r.kind)) + put_blob(put_fields(r.fields))
}

/// The message that a frame stands for: the byte names a kind, the body
/// begins with the fields of that kind, and they stand for a message. What
/// the body holds behind them is passed over.
pub open spec fn message_of(tag: u8, body: Seq<u8>) -> Option<Record> {
    match kind_of_tag(tag) {
        None => None,
        Some(kind) => match parse_fields(schema(kind), body) {
            None => None,
            Some((all, _)) => if well_formed(kind, all) {
                Some(Record { kind, fields: all })
            } else {
                None
            },
        },
    }
}

/// What bytes begin with: nothing where they do not hold a whole frame
/// yet; else the message that the first frame stands for, if it stands for
/// one, and what follows the frame.
pub open spec fn parse_message(data: Seq<u8>) -> Option<(Option<Record>, Seq<u8>)> {
    match parse_u8(data) {
        None => None,
        Some((tag, rest)) => match parse_blob(rest) {
            None => None,
            Some((body, rest)) => Some((message_of(tag, body), rest)),
        },
    }
}

/// A message that is read back is the message that was written, and what
/// followed its frame follows it.
pub proof fn lemma_message_round_trip(m: MoqMessage, rest: Seq<u8>)
    requires
        record_fits(m@),
    ensures
        parse_message(message_bytes(m@) + rest) == Some((Some(m@), rest)),
{
    let r = m@;
    let body = put_fields(r.fields);
    let r1 = put_blob(body) + rest;
    assert(message_bytes(r) + rest =~= put_u8(tag_of(r.kind)) + r1);
    lemma_parse_put_u8(tag_of(r.kind), r1);
    lemma_parse_put_blob(body, rest);
    lemma_message_is_well_formed(m);
    lemma_fields_round_trip(r.fields, Seq::<u8>::empty());
    assert(body + Seq::<u8>::empty() =~= body);
}

/// Why no message was read.
#[derive(Debug, Clone, Copy, PartialEq, Eq, Structural)]
pub enum FrameError {
    /// The bytes do not hold a whole frame yet.
    Incomplete,
    /// The frame, which ends before `next`, stands for no message that this
    /// reader knows.
    Unreadable { next: usize },
}

fn schema_of(kind: MessageKind) -> (kinds: Vec<FieldKind>)
    ensures
        kinds@ == schema(kind),
{
    let mut k: Vec<FieldKind> = Vec::new();
    match kind {
        MessageKind::ClientSetup => {
            k.push(FieldKind::Numbers);
            k.push(FieldKind::Pairs);
        },
        MessageKind::ServerSetup => {
            k.push(FieldKind::U32);
            k.push(FieldKind::Pairs);
        },
        MessageKind::AnnounceNamespace => {
            k.push(FieldKind::Texts);
            k.push(FieldKind::Texts);
        },
        MessageKind::AnnounceNamespaceOk => {
            k.push(FieldKind::Texts);
        },
        MessageKind::AnnounceNamespaceError => {
            k.push(FieldKind::Texts);
            k.push(FieldKind::Text);
        },
        MessageKind::UnannounceNamespace => {
            k.push(FieldKind::Texts);
        },
        MessageKind::SubscribeNamespace => {
            k.push(FieldKind::Texts);
        },
        MessageKind::SubscribeNamespaceOk => {
            k.push(FieldKind::Texts);
        },
        MessageKind::SubscribeNamespaceError => {
            k.push(FieldKind::Texts);
            k.push(FieldKind::Text);
        },
        MessageKind::Subscribe => {
            k.push(FieldKind::U64);
            push_params_schema(&mut k);
        },
        MessageKind::SubscribeOk => {
            k.push(FieldKind::U64);
            push_status_schema(&mut k);
        },
        MessageKind::SubscribeError => {
            k.push(FieldKind::U64);
            k.push(FieldKind::Text);
        },
        MessageKind::SubscribeUpdate => {
            k.push(FieldKind::U64);
            push_params_schema(&mut k);
        },
        MessageKind::Unsubscribe => {
            k.push(FieldKind::U64);
        },
        MessageKind::SubscribeDone => {
            k.push(FieldKind::U64);
            k.push(FieldKind::Text);
        },
        MessageKind::Object => {
            k.push(FieldKind::U64);
            k.push(FieldKind::U64);
            k.push(FieldKind::U64);
            k.push(FieldKind::U64);
            k.push(FieldKind::U8);
            k.push(FieldKind::OptU64);
            k.push(FieldKind::U8);
            k.push(FieldKind::Pairs);
            k.push(FieldKind::Blob);
            k.push(FieldKind::U64);
        },
        MessageKind::ObjectAck => {
            k.push(FieldKind::U64);
            k.push(FieldKind::U64);
            k.push(FieldKind::U64);
        },
        MessageKind::Fetch => {
            k.push(FieldKind::U64);
            k.push(FieldKind::Texts);
            k.push(FieldKind::Text);
            k.push(FieldKind::U8);
            k.push(FieldKind::U8);
            k.push(FieldKind::U64);
            k.push(FieldKind::U64);
            k.push(FieldKind::U64);
            k.push(FieldKind::OptU64);
        },
        MessageKind::FetchOk => {
            k.push(FieldKind::U64);
            push_status_schema(&mut k);
        },
        MessageKind::FetchError => {
            k.push(FieldKind::U64);
            k.push(FieldKind::Text);
        },
        MessageKind::FetchCancel => {
            k.push(FieldKind::U64);
        },
        MessageKind::TrackStatusRequest => {
            k.push(FieldKind::Texts);
            k.push(FieldKind::Text);
        },
        MessageKind::TrackStatusResponse => {
            push_status_schema(&mut k);
        },
        MessageKind::GoAway => {
            k.push(FieldKind::OptText);
        },
    }
    proof {
        assert(k@ =~= schema(kind));
    }
    k
}

fn push_params_schema(k: &mut Vec<FieldKind>)
    ensures
        final(k)@ == old(k)@ + params_schema(),
{
    k.push(FieldKind::Texts);
    k.push(FieldKind::Text);
    k.push(FieldKind::U8);
    k.push(FieldKind::U64);
    k.push(FieldKind::U64);
    k.push(FieldKind::U64);
    k.push(FieldKind::OptU64);
    k.push(FieldKind::U8);
    k.push(FieldKind::U8);
    k.push(FieldKind::U64);
    k.push(FieldKind::OptU64);
    proof {
        assert(k@ =~= old(k)@ + params_schema());
    }
}

fn push_status_schema(k: &mut Vec<FieldKind>)
    ensures
        final(k)@ == old(k)@ + status_schema(),
{
    k.push(FieldKind::Texts);
    k.push(FieldKind::Text);
    k.push(FieldKind::U8);
    k.push(FieldKind::OptU64);
    k.push(FieldKind::OptU64);
    k.push(FieldKind::U8);
    k.push(FieldKind::U8);
    proof {
        assert(k@ =~= old(k)@ + status_schema());
    }
}

impl MoqMessage {
    /// The frame of the message, where the message can be written. Read
    /// back, the frame gives the message again.
    pub fn encode(&self) -> (r: Option<Vec<u8>>)
        ensures
            r is Some <==> record_fits(self@),
            r matches Some(out) ==> out@ == message_bytes(self@) && parse_message(out@) == Some(
                (Some(self@), Seq::<u8>::empty()),
            ),
    {
        let values = self.to_values();
        if !values_fit(&values) {
            return None;
        }
        let mut body: Vec<u8> = Vec::new();
        write_values(&mut body, &values);
        proof {
            assert(body@ =~= put_fields(self@.fields));
        }
        if body.len() > u32::MAX as usize {
            return None;
        }
        let mut out: Vec<u8> = Vec::new();
        write_u8(&mut out, self.kind().tag());
        write_blob(&mut out, body.as_slice());
        proof {
            assert(out@ =~= message_bytes(self@));
            lemma_message_round_trip(*self, Seq::<u8>::empty());
            assert(message_bytes(self@) + Seq::<u8>::empty() =~= message_bytes(self@));
        }
        Some(out)
    }

    /// The message that the first frame of `data` stands for, and where the
    /// next frame begins.
    pub fn decode(data: &[u8]) -> (r: Result<(MoqMessage, usize), FrameError>)
        ensures
            match parse_message(data@) {
                None => r == Err::<(MoqMessage, usize), FrameError>(FrameError::Incomplete),
                Some((None, rest)) => r matches Err(FrameError::Unreadable { next }) && next
                    <= data@.len() && data@.skip(next as int) == rest,
                Some((Some(record), rest)) => r matches Ok((m, next)) && m@ == record && next
                    <= data@.len() && data@.skip(next as int) == rest,
            },
    {
        proof {
            assert(data@.skip(0) =~= data@);
        }
        let (tag, at) = match read_u8(data, 0) {
            Some(r) => r,
            None => {
                return Err(FrameError::Incomplete);
            },
        };
        let (body, next) = match read_blob(data, at) {
            Some(r) => r,
            None => {
                return Err(FrameError::Incomplete);
            },
        };
        let kind = match MessageKind::from_tag(tag) {
            Some(k) => k,
            None => {
                return Err(FrameError::Unreadable { next });
            },
        };
        let kinds = schema_of(kind);
        proof {
            assert(body@.skip(0) =~= body@);
            lemma_parsed_kinds(schema(kind), body@);
        }
        let values = match read_values(body, 0, &kinds) {
            Some((values, _)) => values,
            None => {
                return Err(FrameError::Unreadable { next });
            },
        };
        match MoqMessage::from_values(kind, &values) {
            Some(m) => Ok((m, next)),
            None => Err(FrameError::Unreadable { next }),
        }
    }
}

} // verus!
