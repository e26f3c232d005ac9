//! The track hierarchy as the host application sees it: plain copies of
//! statuses, objects and announcements, and the host's commands on a track
//! store, a scheduler and a namespace manager that the host owns.

use vstd::prelude::*;
use vstd::std_specs::convert::FromSpecImpl;
use crate::moq_protocol::names::join_path;
use crate::moq_protocol::names::last_slash;
use crate::moq_protocol::names::namespace_prefix;
use crate::moq_protocol::names::split_path;
use crate::moq_protocol::names::texts;
use crate::moq_protocol::names::track_path;
use crate::moq_protocol::namespace_manager::announced;
use crate::moq_protocol::namespace_manager::announcement_for;
use crate::moq_protocol::namespace_manager::announcement_models;
use crate::moq_protocol::namespace_manager::under_prefix;
use crate::moq_protocol::namespace_manager::AnnouncementModel;
use crate::moq_protocol::object::copy_bytes;
use crate::moq_protocol::object::copy_strings;
use crate::moq_protocol::object::fresh_object;
use crate::moq_protocol::object::object_models;
use crate::moq_protocol::object::ObjectModel;
use crate::moq_protocol::object::TrackStatusModel;
use crate::moq_protocol::object::DEFAULT_PRIORITY;
use crate::moq_protocol::scheduler::at_most;
use crate::moq_protocol::scheduler::delivery_of;
use crate::moq_protocol::scheduler::dequeued;
use crate::moq_protocol::scheduler::enqueued;
use crate::moq_protocol::track_store::accepts;
use crate::moq_protocol::track_store::all_objects;
use crate::moq_protocol::track_store::appended;
use crate::moq_protocol::track_store::fresh_track;
use crate::moq_protocol::track_store::group_position;
use crate::moq_protocol::track_store::started;
use crate::moq_protocol::track_store::selected;
use crate::moq_protocol::FetchRequest;
use crate::moq_protocol::FilterType;
use crate::moq_protocol::FullTrackName;
use crate::moq_protocol::GroupOrder;
use crate::moq_protocol::MoqObject;
use crate::moq_protocol::Namespace;
use crate::moq_protocol::NamespaceAnnouncement;
use crate::moq_protocol::NamespaceManager;
use crate::moq_protocol::ObjectStatus;
use crate::moq_protocol::PriorityScheduler;
use crate::moq_protocol::SubscriptionParams;
use crate::moq_protocol::TrackStatus;
use crate::moq_protocol::TrackStatusCode;
use crate::moq_protocol::TrackStore;

verus! {

/// Milliseconds that the host's track store keeps a group.
pub const HOST_RETENTION_MS: u64 = 300_000;

/// Groups that the host's track store keeps of one track.
pub const HOST_MAX_GROUPS: usize = 100;

/// Deliveries that the host's scheduler holds.
pub const HOST_QUEUE_SIZE: usize = 1000;

/// Subscriber priority of a live subscription.
pub const LIVE_PRIORITY: u8 = 64;

/// Order of groups, as the host names it.
#[derive(Debug, Clone, Copy, PartialEq, Eq, Structural)]
pub enum FlutterGroupOrder {
    Ascending,
    Descending,
    PublisherDefault,
}

/// What `GroupOrder::from` makes of a `FlutterGroupOrder`.
pub open spec fn group_order_of(o: FlutterGroupOrder) -> GroupOrder {
    match o {
        FlutterGroupOrder::Ascending => GroupOrder::Ascending,
        FlutterGroupOrder::Descending => GroupOrder::Descending,
        FlutterGroupOrder::PublisherDefault => GroupOrder::PublisherDefault,
    }
}

impl From<FlutterGroupOrder> for GroupOrder {
    fn from(o: FlutterGroupOrder) -> (r: Self) {
        match o {
            FlutterGroupOrder::Ascending => GroupOrder::Ascending,
            FlutterGroupOrder::Descending => GroupOrder::Descending,
            FlutterGroupOrder::PublisherDefault => GroupOrder::PublisherDefault,
        }
    }
}

impl FromSpecImpl<FlutterGroupOrder> for GroupOrder {
    open spec fn obeys_from_spec() -> bool {
        true
    }

    open spec fn from_spec(o: FlutterGroupOrder) -> Self {
        group_order_of(o)
    }
}

/// What `FlutterGroupOrder::from` makes of a `GroupOrder`.
pub open spec fn flutter_group_order(o: GroupOrder) -> FlutterGroupOrder {
    match o {
        GroupOrder::Ascending => FlutterGroupOrder::Ascending,
        GroupOrder::Descending => FlutterGroupOrder::Descending,
        GroupOrder::PublisherDefault => FlutterGroupOrder::PublisherDefault,
    }
}

impl From<GroupOrder> for FlutterGroupOrder {
    fn from(o: GroupOrder) -> (r: Self) {
        match o {
            GroupOrder::Ascending => FlutterGroupOrder::Ascending,
            GroupOrder::Descending => FlutterGroupOrder::Descending,
            GroupOrder::PublisherDefault => FlutterGroupOrder::PublisherDefault,
        }
    }
}

impl FromSpecImpl<GroupOrder> for FlutterGroupOrder {
    open spec fn obeys_from_spec() -> bool {
        true
    }

    open spec fn from_spec(o: GroupOrder) -> Self {
        flutter_group_order(o)
    }
}

/// Subscription filter, as the host names it.
#[derive(Debug, Clone, Copy, PartialEq, Eq, Structural)]
pub enum FlutterFilterType {
    LatestGroup,
    LatestObject,
    NextGroup,
    AbsoluteStart { start_group: u64, start_object: u64 },
    AbsoluteRange { start_group: u64, start_object: u64, end_group: u64, end_object: Option<u64> },
}

/// What `FilterType::from` makes of a `FlutterFilterType`.
pub open spec fn filter_type_of(f: FlutterFilterType) -> FilterType {
    match f {
        FlutterFilterType::LatestGroup => FilterType::LatestGroup,
        FlutterFilterType::LatestObject => FilterType::LatestObject,
        FlutterFilterType::NextGroup => FilterType::NextGroup,
        FlutterFilterType::AbsoluteStart { start_group, start_object } => FilterType::AbsoluteStart {
            start_group,
            start_object,
        },
        FlutterFilterType::AbsoluteRange { start_group, start_object, end_group, end_object } => {
            FilterType::AbsoluteRange { start_group, start_object, end_group, end_object }
        },
    }
}

impl From<FlutterFilterType> for FilterType {
    fn from(f: FlutterFilterType) -> (r: Self) {
        match f {
            FlutterFilterType::LatestGroup => FilterType::LatestGroup,
            FlutterFilterType::LatestObject => FilterType::LatestObject,
            FlutterFilterType::NextGroup => FilterType::NextGroup,
            FlutterFilterType::AbsoluteStart { start_group, start_object } => FilterType::AbsoluteStart {
                start_group,
                start_object,
            },
            FlutterFilterType::AbsoluteRange { start_group, start_object, end_group, end_object } => {
                FilterType::AbsoluteRange { start_group, start_object, end_group, end_object }
            },
        }
    }
}

impl FromSpecImpl<FlutterFilterType> for FilterType {
    open spec fn obeys_from_spec() -> bool {
        true
    }

    open spec fn from_spec(f: FlutterFilterType) -> Self {
        filter_type_of(f)
    }
}

/// Status of an object, as the host names it.
#[derive(Debug, Clone, Copy, PartialEq, Eq, Structural)]
pub enum FlutterObjectStatus {
    Normal,
    DoesNotExist,
    EndOfGroup,
    EndOfTrack,
    EndOfSubgroup,
}

/// What `FlutterObjectStatus::from` makes of an `ObjectStatus`.
pub open spec fn flutter_object_status(s: ObjectStatus) -> FlutterObjectStatus {
    match s {
        ObjectStatus::Normal => FlutterObjectStatus::Normal,
        ObjectStatus::DoesNotExist => FlutterObjectStatus::DoesNotExist,
        ObjectStatus::EndOfGroup => FlutterObjectStatus::EndOfGroup,
        ObjectStatus::EndOfTrack => FlutterObjectStatus::EndOfTrack,
        ObjectStatus::EndOfSubgroup => FlutterObjectStatus::EndOfSubgroup,
    }
}

impl From<ObjectStatus> for FlutterObjectStatus {
    fn from(s: ObjectStatus) -> (r: Self) {
        match s {
            ObjectStatus::Normal => FlutterObjectStatus::Normal,
            ObjectStatus::DoesNotExist => FlutterObjectStatus::DoesNotExist,
            ObjectStatus::EndOfGroup => FlutterObjectStatus::EndOfGroup,
            ObjectStatus::EndOfTrack => FlutterObjectStatus::EndOfTrack,
            ObjectStatus::EndOfSubgroup => FlutterObjectStatus::EndOfSubgroup,
        }
    }
}

impl FromSpecImpl<ObjectStatus> for FlutterObjectStatus {
    open spec fn obeys_from_spec() -> bool {
        true
    }

    open spec fn from_spec(s: ObjectStatus) -> Self {
        flutter_object_status(s)
    }
}

/// Status of a track, as the host names it.
#[derive(Debug, Clone, Copy, PartialEq, Eq, Structural)]
pub enum FlutterTrackStatusCode {
    Active,
    NotFound,
    Paused,
    Ended,
    Unknown,
}

/// What `FlutterTrackStatusCode::from` makes of a `TrackStatusCode`.
pub open spec fn flutter_status_code(s: TrackStatusCode) -> FlutterTrackStatusCode {
    match s {
        TrackStatusCode::Active => FlutterTrackStatusCode::Active,
        TrackStatusCode::NotFound => FlutterTrackStatusCode::NotFound,
        TrackStatusCode::Paused => FlutterTrackStatusCode::Paused,
        TrackStatusCode::Ended => FlutterTrackStatusCode::Ended,
        TrackStatusCode::Unknown => FlutterTrackStatusCode::Unknown,
    }
}

impl From<TrackStatusCode> for FlutterTrackStatusCode {
    fn from(s: TrackStatusCode) -> (r: Self) {
        match s {
            TrackStatusCode::Active => FlutterTrackStatusCode::Active,
            TrackStatusCode::NotFound => FlutterTrackStatusCode::NotFound,
            TrackStatusCode::Paused => FlutterTrackStatusCode::Paused,
            TrackStatusCode::Ended => FlutterTrackStatusCode::Ended,
            TrackStatusCode::Unknown => FlutterTrackStatusCode::Unknown,
        }
    }
}

impl FromSpecImpl<TrackStatusCode> for FlutterTrackStatusCode {
    open spec fn obeys_from_spec() -> bool {
        true
    }

    open spec fn from_spec(s: TrackStatusCode) -> Self {
        flutter_status_code(s)
    }
}

/// The status of a track, with the track named by its path.
#[derive(Debug, Clone)]
pub struct FlutterTrackStatus {
    pub track_path: String,
    pub status: FlutterTrackStatusCode,
    pub latest_group_id: Option<u64>,
    pub latest_object_id: Option<u64>,
    pub group_order: FlutterGroupOrder,
    pub publisher_priority: u8,
}

impl FlutterTrackStatus {
    /// Whether these are the values of the status `s`.
    pub open spec fn shows(&self, s: TrackStatusModel) -> bool {
        &&& self.track_path@ == track_path(s.namespace, s.track_name)
        &&& self.status == flutter_status_code(s.status)
        &&& self.latest_group_id == s.latest_group_id
        &&& self.latest_object_id == s.latest_object_id
        &&& self.group_order == flutter_group_order(s.group_order)
        &&& self.publisher_priority == s.publisher_priority
    }

    /// The host's copy of a status.
    pub fn from_status(s: &TrackStatus) -> (r: Self)
        ensures
            r.shows(s@),
    {
        FlutterTrackStatus {
            track_path: s.track.to_path(),
            status: FlutterTrackStatusCode::from(s.status),
            latest_group_id: s.latest_group_id,
            latest_object_id: s.latest_object_id,
            group_order: FlutterGroupOrder::from(s.group_order),
            publisher_priority: s.publisher_priority,
        }
    }
}

/// An object, with the answer to whether it had expired when the copy was
/// made.
#[derive(Debug, Clone)]
pub struct FlutterMoqObject {
    pub group_id: u64,
    pub subgroup_id: u64,
    pub object_id: u64,
    pub publisher_priority: u8,
    pub expires_at: Option<u64>,
    pub status: FlutterObjectStatus,
    pub payload: Vec<u8>,
    pub created_at: u64,
    pub is_expired: bool,
}

impl FlutterMoqObject {
    /// Whether these are the values of the object `o`, seen at `now`.
    pub open spec fn shows(&self, o: ObjectModel, now: u64) -> bool {
        &&& self.group_id == o.group_id
        &&& self.subgroup_id == o.subgroup_id
        &&& self.object_id == o.object_id
        &&& self.publisher_priority == o.publisher_priority
        &&& self.expires_at == o.expires_at
        &&& self.status == flutter_object_status(o.status)
        &&& self.payload@ == o.payload
        &&& self.created_at == o.created_at
        &&& self.is_expired == o.expired_at(now)
    }

    /// The host's copy of an object, seen at `now`.
    pub fn from_object(o: &MoqObject, now: u64) -> (r: Self)
        ensures
            r.shows(o@, now),
    {
        FlutterMoqObject {
            group_id: o.group_id,
            subgroup_id: o.subgroup_id,
            object_id: o.object_id,
            publisher_priority: o.publisher_priority,
            expires_at: o.expires_at,
            status: FlutterObjectStatus::from(o.status),
            payload: copy_bytes(&o.payload),
            created_at: o.created_at,
            is_expired: o.is_expired_at(now),
        }
    }
}

/// Whether `copies` are the objects `objects` in their order, seen at `now`.
pub open spec fn show_objects(copies: Seq<FlutterMoqObject>, objects: Seq<ObjectModel>, now: u64) -> bool {
    copies.len() == objects.len() && forall|i: int|
        0 <= i < copies.len() ==> (#[trigger] copies[i]).shows(objects[i], now)
}

/// The host's copies of `objects`, seen at `now`.
pub fn copy_objects(objects: &Vec<MoqObject>, now: u64) -> (r: Vec<FlutterMoqObject>)
    ensures
        show_objects(r@, object_models(objects@), now),
{
    let mut r: Vec<FlutterMoqObject> = Vec::new();
    let mut i: usize = 0;
    while i < objects.len()
        invariant
            0 <= i <= objects@.len(),
            r@.len() == i,
            forall|k: int| 0 <= k < i ==> (#[trigger] r@[k]).shows(objects@[k]@, now),
        decreases objects@.len() - i,
    {
        r.push(FlutterMoqObject::from_object(&objects[i], now));
        i = i + 1;
    }
    r
}

/// An announcement, with the namespace named by its path.
#[derive(Debug, Clone)]
pub struct FlutterNamespaceAnnouncement {
    pub namespace_path: String,
    pub tracks: Vec<String>,
    pub accepts_publishing: bool,
}

impl FlutterNamespaceAnnouncement {
    /// Whether these are the values of the announcement `a`.
    pub open spec fn shows(&self, a: AnnouncementModel) -> bool {
        &&& self.namespace_path@ == join_path(a.namespace)
        &&& texts(self.tracks@) == a.tracks
        &&& self.accepts_publishing == a.accepts_publishing
    }

    /// The host's copy of an announcement.
    pub fn from_announcement(a: &NamespaceAnnouncement) -> (r: Self)
        ensures
            r.shows(a@),
    {
        FlutterNamespaceAnnouncement {
            namespace_path: a.namespace.to_string_path(),
            tracks: copy_strings(&a.tracks),
            accepts_publishing: a.accepts_publishing,
        }
    }
}

/// Whether `copies` are the announcements `all` in their order.
pub open spec fn show_announcements(
    copies: Seq<FlutterNamespaceAnnouncement>,
    all: Seq<AnnouncementModel>,
) -> bool {
    copies.len() == all.len() && forall|i: int| 0 <= i < copies.len() ==> (#[trigger] copies[i]).shows(all[i])
}

fn copy_announcements(all: &Vec<NamespaceAnnouncement>) -> (r: Vec<FlutterNamespaceAnnouncement>)
    ensures
        show_announcements(r@, announcement_models(all@)),
{
    let mut r: Vec<FlutterNamespaceAnnouncement> = Vec::new();
    let mut i: usize = 0;
    while i < all.len()
        invariant
            0 <= i <= all@.len(),
            r@.len() == i,
            forall|k: int| 0 <= k < i ==> (#[trigger] r@[k]).shows(all@[k]@),
        decreases all@.len() - i,
    {
        r.push(FlutterNamespaceAnnouncement::from_announcement(&all[i]));
        i = i + 1;
    }
    r
}

/// The track store that a host starts with.
pub fn host_track_store() -> (s: TrackStore)
    ensures
        s.wf(),
        s.max_groups() == HOST_MAX_GROUPS,
        s.max_age_ms() == HOST_RETENTION_MS,
        forall|p: Seq<char>| s.track(p) is None,
{
    TrackStore::new(HOST_RETENTION_MS, HOST_MAX_GROUPS)
}

/// The scheduler that a host starts with.
pub fn host_scheduler() -> (s: PriorityScheduler)
    ensures
        s.wf(),
        s.capacity() == HOST_QUEUE_SIZE,
        s.queue().len() == 0,
{
    PriorityScheduler::new(HOST_QUEUE_SIZE)
}

/// Namespace and name of the track that a path names: the name is what
/// follows the last slash, the namespace what stands before it.
pub open spec fn track_of_path(path: Seq<char>) -> (Seq<Seq<char>>, Seq<char>) {
    if last_slash(path) < 0 {
        (Seq::empty(), path)
    } else {
        (split_path(path.take(last_slash(path))), path.skip(last_slash(path) + 1))
    }
}

/// The key under which a store holds the track that `path` names.
pub open spec fn key_of_path(path: Seq<char>) -> Seq<char> {
    track_path(track_of_path(path).0, track_of_path(path).1)
}

fn parse_track(track_path: &str) -> (t: FullTrackName)
    ensures
        t.namespace@ == track_of_path(track_path@).0,
        t.track_name@ == track_of_path(track_path@).1,
        t.path() == key_of_path(track_path@),
{
    let t = FullTrackName::from_path(track_path);
    proof {
        if last_slash(track_path@) < 0 {
            assert(t.namespace@ =~= Seq::<Seq<char>>::empty());
        }
    }
    t
}

/// The status of the track that `track_path` names, which is created where
/// the store does not hold it yet.
pub fn moq_create_track(store: &mut TrackStore, track_path: &str) -> (r: FlutterTrackStatus)
    requires
        old(store).wf(),
    ensures
        final(store).wf(),
        final(store).same_but(old(store), key_of_path(track_path@)),
        old(store).track(key_of_path(track_path@)) is Some ==> final(store).track(key_of_path(track_path@))
            == old(store).track(key_of_path(track_path@)),
        old(store).track(key_of_path(track_path@)) is None ==> final(store).track(key_of_path(track_path@))
            == Some(
            fresh_track(
                track_of_path(track_path@).0,
                track_of_path(track_path@).1,
            ),
        ),
        r.shows(final(store).track(key_of_path(track_path@))->0.status),
{
    let track = parse_track(track_path);
    let status = store.get_or_create_track(&track);
    FlutterTrackStatus::from_status(&status)
}

/// The status of the track that `track_path` names, where the store holds
/// it.
pub fn moq_get_track_status(store: &TrackStore, track_path: &str) -> (r: Option<FlutterTrackStatus>)
    ensures
        r is Some == store.track(key_of_path(track_path@)) is Some,
        r matches Some(s) ==> s.shows(store.track(key_of_path(track_path@))->0.status),
{
    let track = parse_track(track_path);
    match store.get_track_status(&track) {
        Some(status) => Some(FlutterTrackStatus::from_status(&status)),
        None => None,
    }
}

/// The object `o` as the host asked for it: with the priority `priority`
/// where one is given, and expiring `ttl_ms` after it was made where a time
/// to live is given.
pub open spec fn adjusted(o: ObjectModel, priority: Option<u8>, ttl_ms: Option<u64>) -> ObjectModel {
    ObjectModel {
        publisher_priority: match priority {
            Some(p) => p,
            None => o.publisher_priority,
        },
        expires_at: match ttl_ms {
            Some(ttl) => Some((o.created_at + ttl) as u64),
            None => o.expires_at,
        },
        ..o
    }
}

/// Sets priority and time to live of a copy that goes to the host.
pub fn adjust(obj: MoqObject, priority: Option<u8>, ttl_ms: Option<u64>) -> (r: MoqObject)
    requires
        ttl_ms matches Some(ttl) ==> obj.created_at + ttl <= u64::MAX,
    ensures
        r@ == adjusted(obj@, priority, ttl_ms),
{
    let mut obj = obj;
    if let Some(p) = priority {
        obj.publisher_priority = p;
    }
    if let Some(ttl) = ttl_ms {
        obj.expires_at = Some(obj.created_at + ttl);
    }
    obj
}

/// Starts the next group of the track that `track_path` names, at `now`,
/// and gives its id; 0 of a track that the store does not hold.
pub fn moq_start_group(store: &mut TrackStore, track_path: &str, now: u64) -> (gid: u64)
    requires
        old(store).wf(),
        old(store).track(key_of_path(track_path@)) matches Some(t) ==> t.next_group_id < u64::MAX,
    ensures
        final(store).wf(),
        final(store).same_but(old(store), key_of_path(track_path@)),
        old(store).track(key_of_path(track_path@)) is None ==> gid == 0 && final(store).track(
            key_of_path(track_path@),
        ) is None,
        old(store).track(key_of_path(track_path@)) matches Some(t) ==> gid == t.next_group_id
            && final(store).track(key_of_path(track_path@)) == Some(
            started(t, now, old(store).max_age_ms(), old(store).max_groups()),
        ),
{
    let track = parse_track(track_path);
    store.start_group_at(&track, now)
}

/// Appends a fresh object, made at `now`, to an open group of the track
/// that `track_path` names. The stored object has the default priority and
/// no expiry; the copy that is handed back has the priority and the time
/// to live that were asked for. Nothing is stored, and nothing handed
/// back, where the store does not hold the track or the group is closed.
pub fn moq_add_object(
    store: &mut TrackStore,
    track_path: &str,
    group_id: u64,
    subgroup_id: u64,
    payload: Vec<u8>,
    priority: Option<u8>,
    ttl_ms: Option<u64>,
    now: u64,
) -> (r: Option<FlutterMoqObject>)
    requires
        old(store).wf(),
        ttl_ms matches Some(ttl) ==> now + ttl <= u64::MAX,
    ensures
        final(store).wf(),
        final(store).same_but(old(store), key_of_path(track_path@)),
        r is Some <==> (old(store).track(key_of_path(track_path@)) matches Some(t) && accepts(t, group_id)),
        r is None ==> final(store).track(key_of_path(track_path@)) == old(store).track(
            key_of_path(track_path@),
        ),
        r matches Some(copy) ==> {
            let t = old(store).track(key_of_path(track_path@))->0;
            let stored = fresh_object(
                group_id,
                subgroup_id,
                t.groups[group_position(t.groups, group_id)].objects.len() as u64,
                payload@,
                now,
            );
            &&& final(store).track(key_of_path(track_path@)) == Some(appended(t, stored))
            &&& copy.shows(adjusted(stored, priority, ttl_ms), now)
        },
{
    let track = parse_track(track_path);
    match store.add_object_at(&track, group_id, subgroup_id, payload, now) {
        Some(obj) => {
            let obj = adjust(obj, priority, ttl_ms);
            Some(FlutterMoqObject::from_object(&obj, now))
        },
        None => None,
    }
}

/// What the store answers, at `now`, to a subscription to the track that
/// `track_path` names: copies of the objects that the filter selects, in
/// the order asked for; nothing of a track that the store does not hold.
pub fn moq_subscribe(
    store: &TrackStore,
    track_path: &str,
    filter: FlutterFilterType,
    group_order: FlutterGroupOrder,
    subscriber_priority: u8,
    now: u64,
) -> (r: Vec<FlutterMoqObject>)
    ensures
        store.track(key_of_path(track_path@)) is None ==> r@.len() == 0,
        store.track(key_of_path(track_path@)) matches Some(t) ==> show_objects(
            r@,
            selected(all_objects(t.groups), filter_type_of(filter), group_order_of(group_order), now),
            now,
        ),
{
    let track = parse_track(track_path);
    let params = SubscriptionParams::new(track).with_filter(FilterType::from(filter)).with_order(
        GroupOrder::from(group_order),
    ).with_priority(subscriber_priority);
    let objects = store.get_objects_at(&params, now);
    copy_objects(&objects, now)
}

/// The latest group of a track, in ascending order.
pub fn moq_subscribe_latest_group(store: &TrackStore, track_path: &str, now: u64) -> (r: Vec<
    FlutterMoqObject,
>)
    ensures
        store.track(key_of_path(track_path@)) is None ==> r@.len() == 0,
        store.track(key_of_path(track_path@)) matches Some(t) ==> show_objects(
            r@,
            selected(all_objects(t.groups), FilterType::LatestGroup, GroupOrder::Ascending, now),
            now,
        ),
{
    moq_subscribe(
        store,
        track_path,
        FlutterFilterType::LatestGroup,
        FlutterGroupOrder::Ascending,
        DEFAULT_PRIORITY,
        now,
    )
}

/// What a live subscription to a track is answered: what `NextGroup`
/// selects.
pub fn moq_subscribe_live(store: &TrackStore, track_path: &str, now: u64) -> (r: Vec<FlutterMoqObject>)
    ensures
        store.track(key_of_path(track_path@)) is None ==> r@.len() == 0,
        store.track(key_of_path(track_path@)) matches Some(t) ==> show_objects(
            r@,
            selected(all_objects(t.groups), FilterType::NextGroup, GroupOrder::Ascending, now),
            now,
        ),
{
    moq_subscribe(
        store,
        track_path,
        FlutterFilterType::NextGroup,
        FlutterGroupOrder::Ascending,
        LIVE_PRIORITY,
        now,
    )
}

/// The objects of a track in a range of positions, in ascending order.
pub fn moq_subscribe_range(
    store: &TrackStore,
    track_path: &str,
    start_group: u64,
    start_object: u64,
    end_group: u64,
    end_object: Option<u64>,
    now: u64,
) -> (r: Vec<FlutterMoqObject>)
    ensures
        store.track(key_of_path(track_path@)) is None ==> r@.len() == 0,
        store.track(key_of_path(track_path@)) matches Some(t) ==> show_objects(
            r@,
            selected(
                all_objects(t.groups),
                FilterType::AbsoluteRange { start_group, start_object, end_group, end_object },
                GroupOrder::Ascending,
                now,
            ),
            now,
        ),
{
    moq_subscribe(
        store,
        track_path,
        FlutterFilterType::AbsoluteRange { start_group, start_object, end_group, end_object },
        FlutterGroupOrder::Ascending,
        DEFAULT_PRIORITY,
        now,
    )
}

/// What a fetch of a range of positions is answered: the same objects as a
/// subscription to the range.
pub fn moq_fetch(
    store: &TrackStore,
    track_path: &str,
    start_group: u64,
    start_object: u64,
    end_group: u64,
    end_object: Option<u64>,
    priority: Option<u8>,
    now: u64,
) -> (r: Vec<FlutterMoqObject>)
    ensures
        store.track(key_of_path(track_path@)) is None ==> r@.len() == 0,
        store.track(key_of_path(track_path@)) matches Some(t) ==> show_objects(
            r@,
            selected(
                all_objects(t.groups),
                FilterType::AbsoluteRange { start_group, start_object, end_group, end_object },
                GroupOrder::Ascending,
                now,
            ),
            now,
        ),
{
    let track = parse_track(track_path);
    let request = FetchRequest::new(track, start_group, start_object, end_group, end_object).with_priority(
        match priority {
            Some(p) => p,
            None => DEFAULT_PRIORITY,
        },
    );
    let params = request.to_subscription_params();
    proof {
        assert(params.track.path() == key_of_path(track_path@));
    }
    let objects = store.get_objects_at(&params, now);
    copy_objects(&objects, now)
}

/// The object that the host's enqueue command makes.
pub open spec fn host_object(
    group_id: u64,
    subgroup_id: u64,
    object_id: u64,
    payload: Seq<u8>,
    publisher_priority: u8,
    ttl_ms: Option<u64>,
    now: u64,
) -> ObjectModel {
    ObjectModel {
        publisher_priority,
        expires_at: match ttl_ms {
            Some(ttl) => Some((now + ttl) as u64),
            None => None,
        },
        ..fresh_object(group_id, subgroup_id, object_id, payload, now)
    }
}

/// Makes an object at `now` and hands it to the scheduler.
pub fn moq_enqueue_object(
    scheduler: &mut PriorityScheduler,
    group_id: u64,
    subgroup_id: u64,
    object_id: u64,
    payload: Vec<u8>,
    publisher_priority: u8,
    subscriber_priority: u8,
    ttl_ms: Option<u64>,
    now: u64,
)
    requires
        old(scheduler).wf(),
        ttl_ms matches Some(ttl) ==> now + ttl <= u64::MAX,
    ensures
        final(scheduler).wf(),
        final(scheduler).capacity() == old(scheduler).capacity(),
        final(scheduler).queue() == enqueued(
            old(scheduler).queue(),
            delivery_of(
                host_object(group_id, subgroup_id, object_id, payload@, publisher_priority, ttl_ms, now),
                subscriber_priority,
            ),
            old(scheduler).capacity(),
        ),
{
    let mut obj = MoqObject::new_at(group_id, subgroup_id, object_id, payload, now).with_priority(
        publisher_priority,
    );
    if let Some(ttl) = ttl_ms {
        obj = obj.with_ttl(ttl);
    }
    scheduler.enqueue(obj, subscriber_priority);
}

/// The next delivery that has not expired at `now`, as the host sees it.
pub fn moq_dequeue_object(scheduler: &mut PriorityScheduler, now: u64) -> (r: Option<FlutterMoqObject>)
    requires
        old(scheduler).wf(),
    ensures
        final(scheduler).wf(),
        final(scheduler).capacity() == old(scheduler).capacity(),
        final(scheduler).queue() == dequeued(old(scheduler).queue(), now).1,
        match dequeued(old(scheduler).queue(), now).0 {
            Some(o) => r is Some && r->0.shows(o, now) && !r->0.is_expired,
            None => r is None,
        },
{
    match scheduler.dequeue_at(now) {
        Some(o) => Some(FlutterMoqObject::from_object(&o, now)),
        None => None,
    }
}

/// Number of pending deliveries, as far as 32 bits count.
pub fn moq_get_queue_length(scheduler: &PriorityScheduler) -> (n: u32)
    ensures
        scheduler.queue().len() <= u32::MAX ==> n == scheduler.queue().len(),
        scheduler.queue().len() > u32::MAX ==> n == u32::MAX,
{
    clamp(scheduler.queue_len())
}

fn clamp(n: usize) -> (r: u32)
    ensures
        n <= u32::MAX ==> r == n,
        n > u32::MAX ==> r == u32::MAX,
{
    if n > u32::MAX as usize {
        u32::MAX
    } else {
        n as u32
    }
}

/// Drops every delivery whose effective priority is above `threshold` and
/// says how many left, as far as 32 bits count.
pub fn moq_drop_low_priority(scheduler: &mut PriorityScheduler, threshold: u8) -> (dropped: u32)
    requires
        old(scheduler).wf(),
    ensures
        final(scheduler).wf(),
        final(scheduler).capacity() == old(scheduler).capacity(),
        final(scheduler).queue() == at_most(old(scheduler).queue(), threshold),
        old(scheduler).queue().len() - final(scheduler).queue().len() <= u32::MAX ==> dropped == old(
            scheduler,
        ).queue().len() - final(scheduler).queue().len(),
        old(scheduler).queue().len() - final(scheduler).queue().len() > u32::MAX ==> dropped == u32::MAX,
{
    clamp(scheduler.drop_low_priority(threshold))
}

/// Stores an announcement of the namespace that `namespace_path` names.
pub fn moq_announce_namespace(
    manager: &mut NamespaceManager,
    namespace_path: &str,
    tracks: Vec<String>,
    accepts_publishing: bool,
)
    ensures
        final(manager).published() == announced(
            old(manager).published(),
            AnnouncementModel {
                namespace: split_path(namespace_path@),
                tracks: texts(tracks@),
                accepts_publishing,
                auth_token: None,
            },
        ),
{
    let announcement = NamespaceAnnouncement {
        namespace: Namespace::from_str(namespace_path),
        tracks,
        accepts_publishing,
        auth_token: None,
    };
    manager.announce(announcement);
}

/// The announcements whose namespace has the namespace that
/// `namespace_prefix` names as a prefix.
pub fn moq_subscribe_namespace(manager: &NamespaceManager, namespace_prefix: &str) -> (r: Vec<
    FlutterNamespaceAnnouncement,
>)
    ensures
        show_announcements(r@, under_prefix(manager.published(), split_path(namespace_prefix@))),
{
    let prefix = Namespace::from_str(namespace_prefix);
    let found = manager.subscribe(prefix);
    copy_announcements(&found)
}

/// Every stored announcement.
pub fn moq_list_namespaces(manager: &NamespaceManager) -> (r: Vec<FlutterNamespaceAnnouncement>)
    ensures
        show_announcements(r@, manager.published()),
{
    let found = manager.list_published();
    copy_announcements(&found)
}

/// The announcement stored for the namespace that `namespace_path` names.
pub fn moq_get_namespace(manager: &NamespaceManager, namespace_path: &str) -> (r: Option<
    FlutterNamespaceAnnouncement,
>)
    ensures
        match announcement_for(manager.published(), join_path(split_path(namespace_path@))) {
            Some(a) => r is Some && r->0.shows(a),
            None => r is None,
        },
{
    let namespace = Namespace::from_str(namespace_path);
    match manager.get_announcement(&namespace) {
        Some(a) => Some(FlutterNamespaceAnnouncement::from_announcement(&a)),
        None => None,
    }
}

/// The names of the filters.
pub fn moq_get_filter_types() -> (names: Vec<String>)
    ensures
        texts(names@) == seq![
            "LatestGroup"@,
            "LatestObject"@,
            "NextGroup"@,
            "AbsoluteStart"@,
            "AbsoluteRange"@,
        ],
{
    let mut names: Vec<String> = Vec::new();
    names.push("LatestGroup".to_owned());
    names.push("LatestObject".to_owned());
    names.push("NextGroup".to_owned());
    names.push("AbsoluteStart".to_owned());
    names.push("AbsoluteRange".to_owned());
    proof {
        assert(texts(names@) =~= seq![
            "LatestGroup"@,
            "LatestObject"@,
            "NextGroup"@,
            "AbsoluteStart"@,
            "AbsoluteRange"@,
        ]);
    }
    names
}

/// The names of the group orders.
pub fn moq_get_group_orders() -> (names: Vec<String>)
    ensures
        texts(names@) == seq!["Ascending"@, "Descending"@, "PublisherDefault"@],
{
    let mut names: Vec<String> = Vec::new();
    names.push("Ascending".to_owned());
    names.push("Descending".to_owned());
    names.push("PublisherDefault".to_owned());
    proof {
        assert(texts(names@) =~= seq!["Ascending"@, "Descending"@, "PublisherDefault"@]);
    }
    names
}

/// The most urgent priority, the least urgent and the default.
pub fn moq_get_priority_info() -> (r: (u8, u8, u8))
    ensures
        r == (0u8, 255u8, DEFAULT_PRIORITY),
{
    (0, 255, DEFAULT_PRIORITY)
}

/// The path of the namespace and the name of the track that a path names.
pub fn moq_parse_track_path(track_path: &str) -> (r: (String, String))
    ensures
        r.0@ == join_path(track_of_path(track_path@).0),
        r.1@ == track_of_path(track_path@).1,
{
    let track = parse_track(track_path);
    (track.namespace.to_string_path(), track.track_name)
}

/// The path of the track `track_name` in the namespace that `namespace`
/// names.
pub fn moq_create_track_path(namespace: &str, track_name: &str) -> (p: String)
    ensures
        p@ == track_path(split_path(namespace@), track_name@),
{
    let ns = Namespace::from_str(namespace);
    let track = FullTrackName::new(ns, track_name);
    track.to_path()
}

/// Whether the namespace that `prefix` names is a prefix of the one that
/// `full_path` names.
pub fn moq_namespace_is_prefix(prefix: &str, full_path: &str) -> (b: bool)
    ensures
        b == namespace_prefix(split_path(prefix@), split_path(full_path@)),
{
    let prefix_ns = Namespace::from_str(prefix);
    let full_ns = Namespace::from_str(full_path);
    prefix_ns.is_prefix_of(&full_ns)
}

/// The marker object of a kind, made at `now`: an empty object with the
/// highest object id in subgroup 0 of the group.
pub open spec fn marker(group_id: u64, status: ObjectStatus, now: u64) -> ObjectModel {
    ObjectModel { status, ..fresh_object(group_id, 0, u64::MAX, Seq::empty(), now) }
}

/// The marker that ends the group `group_id`, made at `now`.
pub fn moq_create_end_of_group(group_id: u64, now: u64) -> (r: FlutterMoqObject)
    ensures
        r.shows(marker(group_id, ObjectStatus::EndOfGroup, now), now),
{
    let mut obj = MoqObject::new_at(group_id, 0, u64::MAX, Vec::new(), now);
    obj.status = ObjectStatus::EndOfGroup;
    FlutterMoqObject::from_object(&obj, now)
}

/// The marker that ends a track in the group `group_id`, made at `now`.
pub fn moq_create_end_of_track(group_id: u64, now: u64) -> (r: FlutterMoqObject)
    ensures
        r.shows(marker(group_id, ObjectStatus::EndOfTrack, now), now),
{
    let mut obj = MoqObject::new_at(group_id, 0, u64::MAX, Vec::new(), now);
    obj.status = ObjectStatus::EndOfTrack;
    FlutterMoqObject::from_object(&obj, now)
}

/// Counts of the host's scheduler and namespace manager.
#[derive(Debug, Clone, Copy, PartialEq, Eq, Structural)]
pub struct FlutterMoqStats {
    pub scheduler_queue_length: u32,
    pub namespace_count: u32,
}

/// Pending deliveries and stored announcements, as far as 32 bits count.
pub fn moq_get_stats(scheduler: &PriorityScheduler, manager: &NamespaceManager) -> (r: FlutterMoqStats)
    ensures
        scheduler.queue().len() <= u32::MAX ==> r.scheduler_queue_length == scheduler.queue().len(),
        scheduler.queue().len() > u32::MAX ==> r.scheduler_queue_length == u32::MAX,
        manager.published().len() <= u32::MAX ==> r.namespace_count == manager.published().len(),
        manager.published().len() > u32::MAX ==> r.namespace_count == u32::MAX,
{
    let all = manager.list_published();
    FlutterMoqStats {
        scheduler_queue_length: clamp(scheduler.queue_len()),
        namespace_count: clamp(all.len()),
    }
}

} // verus!
