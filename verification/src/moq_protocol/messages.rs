//! The control messages of a session, the header of a group's stream, and
//! what a publisher answers to a subscription.

use vstd::prelude::*;
use crate::moq_protocol::fetch::FetchRequest;
use crate::moq_protocol::names::FullTrackName;
use crate::moq_protocol::names::Namespace;
use crate::moq_protocol::namespace_manager::NamespaceManager;
use crate::moq_protocol::namespace_manager::covered;
use crate::moq_protocol::object::Extension;
use crate::moq_protocol::object::FilterType;
use crate::moq_protocol::object::GroupId;
use crate::moq_protocol::object::MoqObject;
use crate::moq_protocol::object::ObjectId;
use crate::moq_protocol::object::SubscriptionParams;
use crate::moq_protocol::object::TrackStatus;
use crate::moq_protocol::track_store::TrackModel;
use crate::moq_protocol::track_store::TrackStore;
use crate::wire::lemma_parse_put_u64;
use crate::wire::lemma_parse_put_u8;
use crate::wire::parse_u64;
use crate::wire::parse_u8;
use crate::wire::put_u64;
use crate::wire::put_u8;
use crate::wire::read_u64;
use crate::wire::read_u8;
use crate::wire::write_u64;
use crate::wire::write_u8;

verus! {

/// A control or data message of a session.
#[derive(Debug, Clone)]
pub enum MoqMessage {
    ClientSetup { supported_versions: Vec<u32>, params: Vec<Extension> },
    ServerSetup { selected_version: u32, params: Vec<Extension> },
    AnnounceNamespace { namespace: Namespace, tracks: Vec<String> },
    AnnounceNamespaceOk { namespace: Namespace },
    AnnounceNamespaceError { namespace: Namespace, error: String },
    UnannounceNamespace { namespace: Namespace },
    SubscribeNamespace { namespace_prefix: Namespace },
    SubscribeNamespaceOk { namespace_prefix: Namespace },
    SubscribeNamespaceError { namespace_prefix: Namespace, error: String },
    Subscribe { subscribe_id: u64, params: SubscriptionParams },
    SubscribeOk { subscribe_id: u64, status: TrackStatus },
    SubscribeError { subscribe_id: u64, error: String },
    SubscribeUpdate { subscribe_id: u64, params: SubscriptionParams },
    Unsubscribe { subscribe_id: u64 },
    SubscribeDone { subscribe_id: u64, reason: String },
    Object { subscribe_id: u64, object: MoqObject },
    ObjectAck { subscribe_id: u64, group_id: GroupId, object_id: ObjectId },
    Fetch { fetch_id: u64, request: FetchRequest },
    FetchOk { fetch_id: u64, status: TrackStatus },
    FetchError { fetch_id: u64, error: String },
    FetchCancel { fetch_id: u64 },
    TrackStatusRequest { track: FullTrackName },
    TrackStatusResponse { status: TrackStatus },
    GoAway { new_uri: Option<String> },
}

impl MoqMessage {
    /// Whether the message travels on a unidirectional stream: objects do,
    /// every control message travels on a bidirectional one.
    pub fn is_data(&self) -> (b: bool)
        ensures
            b == (*self is Object),
    {
        match self {
            MoqMessage::Object { .. } => true,
            _ => false,
        }
    }
}

/// What the stream of a group begins with.
#[derive(Debug, Clone, Copy, PartialEq, Eq, Structural)]
pub struct GroupStreamHeader {
    pub subscribe_id: u64,
    pub group_id: u64,
    pub subgroup_id: u64,
    pub publisher_priority: u8,
}

/// Bytes of a header.
pub const GROUP_HEADER_LEN: usize = 25;

/// The bytes of a header: the three ids and the priority.
pub open spec fn header_bytes(h: GroupStreamHeader) -> Seq<u8> {
    put_u64(h.subscribe_id) + put_u64(h.group_id) + put_u64(h.subgroup_id) + put_u8(
        h.publisher_priority,
    )
}

/// The header that bytes begin with, and what follows it.
pub open spec fn parse_header(data: Seq<u8>) -> Option<(GroupStreamHeader, Seq<u8>)> {
    match parse_u64(data) {
        None => None,
        Some((subscribe_id, rest)) => match parse_u64(rest) {
            None => None,
            Some((group_id, rest)) => match parse_u64(rest) {
                None => None,
                Some((subgroup_id, rest)) => match parse_u8(rest) {
                    None => None,
                    Some((publisher_priority, rest)) => Some(
                        (
                            GroupStreamHeader {
                                subscribe_id,
                                group_id,
                                subgroup_id,
                                publisher_priority,
                            },
                            rest,
                        ),
                    ),
                },
            },
        },
    }
}

/// A header that is read back is the header that was written, and what
/// followed it follows it.
pub proof fn lemma_header_round_trip(h: GroupStreamHeader, rest: Seq<u8>)
    ensures
        parse_header(header_bytes(h) + rest) == Some((h, rest)),
        header_bytes(h).len() == GROUP_HEADER_LEN,
{
    let r3 = put_u8(h.publisher_priority) + rest;
    let r2 = put_u64(h.subgroup_id) + r3;
    let r1 = put_u64(h.group_id) + r2;
    assert(header_bytes(h) + rest =~= put_u64(h.subscribe_id) + r1);
    lemma_parse_put_u64(h.subscribe_id, r1);
    lemma_parse_put_u64(h.group_id, r2);
    lemma_parse_put_u64(h.subgroup_id, r3);
    lemma_parse_put_u8(h.publisher_priority, rest);
    lemma_parse_put_u64(h.subscribe_id, Seq::empty());
    lemma_parse_put_u64(h.group_id, Seq::empty());
    lemma_parse_put_u64(h.subgroup_id, Seq::empty());
}

impl GroupStreamHeader {
    /// The bytes of the header.
    pub fn to_bytes(&self) -> (out: Vec<u8>)
        ensures
            out@ == header_bytes(*self),
            out@.len() == GROUP_HEADER_LEN,
    {
        let mut out: Vec<u8> = Vec::new();
        write_u64(&mut out, self.subscribe_id);
        write_u64(&mut out, self.group_id);
        write_u64(&mut out, self.subgroup_id);
        write_u8(&mut out, self.publisher_priority);
        proof {
            assert(out@ =~= header_bytes(*self));
            lemma_header_round_trip(*self, Seq::empty());
        }
        out
    }

    /// The header at the start of `data` and the position behind it.
    pub fn read(data: &[u8]) -> (r: Option<(Self, usize)>)
        ensures
            match r {
                Some((h, next)) => next == GROUP_HEADER_LEN && next <= data@.len() && parse_header(
                    data@,
                ) == Some((h, data@.skip(next as int))),
                None => parse_header(data@) is None,
            },
    {
        proof {
            assert(data@.skip(0) =~= data@);
        }
        let (subscribe_id, at) = match read_u64(data, 0) {
            Some(r) => r,
            None => {
                return None;
            },
        };
        let (group_id, at) = match read_u64(data, at) {
            Some(r) => r,
            None => {
                return None;
            },
        };
        let (subgroup_id, at) = match read_u64(data, at) {
            Some(r) => r,
            None => {
                return None;
            },
        };
        match read_u8(data, at) {
            Some((publisher_priority, next)) => Some(
                (GroupStreamHeader { subscribe_id, group_id, subgroup_id, publisher_priority }, next),
            ),
            None => None,
        }
    }
}

/// Why a subscription is refused.
#[derive(Debug, Clone, Copy, PartialEq, Eq, Structural)]
pub enum SubscribeErrorCode {
    /// The range ends before it starts.
    InvalidRange,
    /// No announced namespace covers the track.
    Unauthorized,
    /// The publisher does not have the track.
    TrackNotFound,
    /// The range lies entirely below the retained groups.
    OutOfRange,
}

/// The range of the filter ends before it starts.
pub open spec fn range_inverted(filter: FilterType) -> bool {
    filter matches FilterType::AbsoluteRange { start_group, start_object, end_group, end_object }
        && (end_group < start_group || (end_group == start_group && end_object is Some
        && end_object->0 < start_object))
}

/// The range of the filter lies entirely below the retained groups of the
/// track.
pub open spec fn range_below_window(t: TrackModel, filter: FilterType) -> bool {
    filter matches FilterType::AbsoluteRange { end_group, .. } && t.groups.len() > 0 && end_group
        < t.groups[0].group_id
}

/// What a subscription is answered with: the first reason to refuse it
/// that holds, or nothing where it is accepted.
pub open spec fn refusal(
    announced: Seq<crate::moq_protocol::namespace_manager::AnnouncementModel>,
    track: Option<TrackModel>,
    namespace: Seq<Seq<char>>,
    filter: FilterType,
) -> Option<SubscribeErrorCode> {
    if range_inverted(filter) {
        Some(SubscribeErrorCode::InvalidRange)
    } else if !covered(announced, namespace) {
        Some(SubscribeErrorCode::Unauthorized)
    } else {
        match track {
            None => Some(SubscribeErrorCode::TrackNotFound),
            Some(t) => if range_below_window(t, filter) {
                Some(SubscribeErrorCode::OutOfRange)
            } else {
                None
            },
        }
    }
}

/// Decides on the subscription `params`: it is accepted with the track's
/// status, or refused with a reason. Nothing changes either way.
pub fn admit_subscribe(store: &TrackStore, manager: &NamespaceManager, params: &SubscriptionParams) -> (r: Result<
    TrackStatus,
    SubscribeErrorCode,
>)
    ensures
        match refusal(
            manager.published(),
            store.track(params.track.path()),
            params.track.namespace@,
            params.filter,
        ) {
            Some(code) => r == Err::<TrackStatus, SubscribeErrorCode>(code),
            None => r is Ok && r->Ok_0@ == store.track(params.track.path())->0.status,
        },
{
    match params.filter {
        FilterType::AbsoluteRange { start_group, start_object, end_group, end_object } => {
            let inverted = end_group < start_group || (end_group == start_group && match end_object {
                Some(last) => last < start_object,
                None => false,
            });
            if inverted {
                return Err(SubscribeErrorCode::InvalidRange);
            }
        },
        _ => {},
    }
    if !manager.covers(&params.track.namespace) {
        return Err(SubscribeErrorCode::Unauthorized);
    }
    let status = match store.get_track_status(&params.track) {
        Some(status) => status,
        None => {
            return Err(SubscribeErrorCode::TrackNotFound);
        },
    };
    match params.filter {
        FilterType::AbsoluteRange { end_group, .. } => {
            match store.first_retained_group(&params.track) {
                Some(first) => {
                    if end_group < first {
                        return Err(SubscribeErrorCode::OutOfRange);
                    }
                },
                None => {},
            }
        },
        _ => {},
    }
    Ok(status)
}

} // verus!
