//! Objects, groups, subscription parameters and track status.

use vstd::prelude::*;
use crate::clock::now_millis;
use crate::moq_protocol::names::FullTrackName;
use crate::moq_protocol::names::Namespace;
use crate::moq_protocol::names::texts;

verus! {

pub type ObjectId = u64;

pub type GroupId = u64;

pub type SubgroupId = u64;

/// Priority given to an object that names none.
pub const DEFAULT_PRIORITY: u8 = 128;

/// Delivery status of an object.
#[derive(Debug, Clone, Copy, PartialEq, Eq, Structural)]
pub enum ObjectStatus {
    Normal,
    DoesNotExist,
    EndOfGroup,
    EndOfTrack,
    EndOfSubgroup,
}

/// One extension of an object: a key and its bytes.
#[derive(Debug, Clone)]
pub struct Extension {
    pub key: String,
    pub value: Vec<u8>,
}

/// What an object holds, as mathematical values.
pub struct ObjectModel {
    pub group_id: u64,
    pub subgroup_id: u64,
    pub object_id: u64,
    pub publisher_priority: u8,
    pub expires_at: Option<u64>,
    pub status: ObjectStatus,
    pub extensions: Seq<(Seq<char>, Seq<u8>)>,
    pub payload: Seq<u8>,
    pub created_at: u64,
}

impl ObjectModel {
    /// Whether the object's time to live has run out at `now`.
    pub open spec fn expired_at(self, now: u64) -> bool {
        self.expires_at matches Some(e) && e < now
    }
}

/// The unit of delivery.
#[derive(Debug, Clone)]
pub struct MoqObject {
    pub group_id: GroupId,
    pub subgroup_id: SubgroupId,
    pub object_id: ObjectId,
    /// 0 to 255, lower is more urgent.
    pub publisher_priority: u8,
    /// Milliseconds since the Unix epoch after which the object may be dropped.
    pub expires_at: Option<u64>,
    pub status: ObjectStatus,
    /// Custom metadata; no key stands twice.
    pub extensions: Vec<Extension>,
    pub payload: Vec<u8>,
    /// Milliseconds since the Unix epoch.
    pub created_at: u64,
}

pub open spec fn extension_models(v: Seq<Extension>) -> Seq<(Seq<char>, Seq<u8>)> {
    v.map_values(|e: Extension| (e.key@, e.value@))
}

/// Index of the first extension with key `key`, or the list's length.
pub open spec fn extension_index(exts: Seq<(Seq<char>, Seq<u8>)>, key: Seq<char>) -> int
    decreases exts.len(),
{
    if exts.len() == 0 {
        0
    } else if exts[0].0 == key {
        0
    } else {
        1 + extension_index(exts.skip(1), key)
    }
}

/// The extensions after `key` was set to `value`: replaced in place where the
/// key stood already, else added at the end.
pub open spec fn extension_set(
    exts: Seq<(Seq<char>, Seq<u8>)>,
    key: Seq<char>,
    value: Seq<u8>,
) -> Seq<(Seq<char>, Seq<u8>)> {
    let i = extension_index(exts, key);
    if i < exts.len() {
        exts.update(i, (key, value))
    } else {
        exts.push((key, value))
    }
}

/// The index of the extension `key` lies within the extensions or just
/// behind them; no extension before it has that key, and the one at it, if
/// there is one, has it.
pub proof fn lemma_extension_index(exts: Seq<(Seq<char>, Seq<u8>)>, key: Seq<char>)
    ensures
        0 <= extension_index(exts, key) <= exts.len(),
        forall|k: int| 0 <= k < extension_index(exts, key) ==> exts[k].0 != key,
        extension_index(exts, key) < exts.len() ==> exts[extension_index(exts, key)].0 == key,
    decreases exts.len(),
{
    if exts.len() == 0 || exts[0].0 == key {
    } else {
        let t = exts.skip(1);
        lemma_extension_index(t, key);
        assert forall|k: int| 0 <= k < extension_index(exts, key) implies exts[k].0 != key by {
            if k > 0 {
                assert(t[k - 1] == exts[k]);
            }
        }
        if extension_index(t, key) < t.len() {
            assert(t[extension_index(t, key)] == exts[extension_index(t, key) + 1]);
        }
    }
}

/// The index of the extension `key` is `i` where no extension before `i`
/// has that key and the one at `i`, if there is one, has it.
pub proof fn lemma_extension_index_is(exts: Seq<(Seq<char>, Seq<u8>)>, key: Seq<char>, i: int)
    requires
        0 <= i <= exts.len(),
        forall|k: int| 0 <= k < i ==> exts[k].0 != key,
        i < exts.len() ==> exts[i].0 == key,
    ensures
        extension_index(exts, key) == i,
    decreases exts.len(),
{
    if exts.len() == 0 || exts[0].0 == key {
    } else {
        let t = exts.skip(1);
        assert forall|k: int| 0 <= k < i - 1 implies t[k].0 != key by {
            assert(t[k] == exts[k + 1]);
        }
        if i - 1 < t.len() {
            assert(t[i - 1] == exts[i]);
        }
        lemma_extension_index_is(t, key, i - 1);
    }
}

impl View for MoqObject {
    type V = ObjectModel;

    open spec fn view(&self) -> ObjectModel {
        ObjectModel {
            group_id: self.group_id,
            subgroup_id: self.subgroup_id,
            object_id: self.object_id,
            publisher_priority: self.publisher_priority,
            expires_at: self.expires_at,
            status: self.status,
            extensions: extension_models(self.extensions@),
            payload: self.payload@,
            created_at: self.created_at,
        }
    }
}

/// The models of a run of objects.
pub open spec fn object_models(v: Seq<MoqObject>) -> Seq<ObjectModel> {
    v.map_values(|o: MoqObject| o@)
}

/// A fresh normal object made at `created_at`.
pub open spec fn fresh_object(
    group_id: u64,
    subgroup_id: u64,
    object_id: u64,
    payload: Seq<u8>,
    created_at: u64,
) -> ObjectModel {
    ObjectModel {
        group_id,
        subgroup_id,
        object_id,
        publisher_priority: DEFAULT_PRIORITY,
        expires_at: None,
        status: ObjectStatus::Normal,
        extensions: Seq::empty(),
        payload,
        created_at,
    }
}

/// A copy of `v` with the same bytes.
pub fn copy_bytes(v: &Vec<u8>) -> (r: Vec<u8>)
    ensures
        r@ == v@,
{
    let mut r: Vec<u8> = Vec::new();
    let mut i: usize = 0;
    while i < v.len()
        invariant
            0 <= i <= v.len(),
            r@ == v@.take(i as int),
        decreases v.len() - i,
    {
        r.push(v[i]);
        proof {
            assert(v@.take(i + 1) =~= v@.take(i as int).push(v@[i as int]));
        }
        i = i + 1;
    }
    proof {
        assert(v@.take(v.len() as int) =~= v@);
    }
    r
}

impl MoqObject {
    /// A normal object with the default priority and no expiry, made at
    /// `created_at`.
    pub fn new_at(
        group_id: GroupId,
        subgroup_id: SubgroupId,
        object_id: ObjectId,
        payload: Vec<u8>,
        created_at: u64,
    ) -> (o: Self)
        ensures
            o@ == fresh_object(group_id, subgroup_id, object_id, payload@, created_at),
            o.payload == payload,
    {
        let o = Self {
            group_id,
            subgroup_id,
            object_id,
            publisher_priority: DEFAULT_PRIORITY,
            expires_at: None,
            status: ObjectStatus::Normal,
            extensions: Vec::new(),
            payload,
            created_at,
        };
        proof {
            assert(extension_models(o.extensions@) =~= Seq::empty());
        }
        o
    }

    /// A normal object with the default priority and no expiry, stamped with
    /// the clock's reading.
    pub fn new(group_id: GroupId, subgroup_id: SubgroupId, object_id: ObjectId, payload: Vec<u8>) -> (o: Self)
        ensures
            o@ == fresh_object(group_id, subgroup_id, object_id, payload@, o.created_at),
    {
        let now = now_millis();
        Self::new_at(group_id, subgroup_id, object_id, payload, now)
    }

    pub fn with_priority(self, priority: u8) -> (o: Self)
        ensures
            o@ == (ObjectModel { publisher_priority: priority, ..self@ }),
    {
        let mut o = self;
        o.publisher_priority = priority;
        o
    }

    /// Lets the object expire `ttl_ms` milliseconds after it was made.
    pub fn with_ttl(self, ttl_ms: u64) -> (o: Self)
        requires
            self.created_at + ttl_ms <= u64::MAX,
        ensures
            o@ == (ObjectModel { expires_at: Some((self.created_at + ttl_ms) as u64), ..self@ }),
    {
        let mut o = self;
        o.expires_at = Some(o.created_at + ttl_ms);
        o
    }

    /// Sets the extension `key` to `value`.
    pub fn with_extension(self, key: &str, value: Vec<u8>) -> (o: Self)
        ensures
            o@ == (ObjectModel {
                extensions: extension_set(self@.extensions, key@, value@),
                ..self@
            }),
    {
        let mut o = self;
        let wanted = key.to_owned();
        let n = o.extensions.len();
        let mut i: usize = 0;
        while i < n
            invariant
                n == o.extensions@.len(),
                0 <= i <= n,
                o == self,
                wanted@ == key@,
                forall|k: int| 0 <= k < i ==> extension_models(o.extensions@)[k].0 != key@,
            decreases n - i,
        {
            if o.extensions[i].key == wanted {
                proof {
                    lemma_extension_index_is(extension_models(o.extensions@), key@, i as int);
                }
                let ghost before = o.extensions@;
                let entry = Extension { key: wanted, value };
                o.extensions.set(i, entry);
                proof {
                    assert(extension_models(o.extensions@) =~= extension_models(before).update(
                        i as int,
                        (key@, value@),
                    ));
                }
                return o;
            }
            i = i + 1;
        }
        proof {
            lemma_extension_index_is(extension_models(o.extensions@), key@, n as int);
        }
        let ghost before = o.extensions@;
        let entry = Extension { key: wanted, value };
        o.extensions.push(entry);
        proof {
            assert(extension_models(o.extensions@) =~= extension_models(before).push((key@, value@)));
        }
        o
    }

    /// Whether the object's time to live has run out at `now`: it has one and
    /// it lies before `now`.
    pub fn is_expired_at(&self, now: u64) -> (b: bool)
        ensures
            b == self@.expired_at(now),
    {
        match self.expires_at {
            Some(expires) => now > expires,
            None => false,
        }
    }

    /// Whether the object's time to live has run out by the clock's reading.
    pub fn is_expired(&self) -> (b: bool)
        ensures
            self.expires_at is None ==> !b,
            exists|now: u64| b == self@.expired_at(now),
    {
        let now = now_millis();
        let b = self.is_expired_at(now);
        assert(b == self@.expired_at(now));
        b
    }

    /// Length of the payload in bytes.
    pub fn size(&self) -> (n: usize)
        ensures
            n == self@.payload.len(),
    {
        self.payload.len()
    }

    /// A copy of the object that holds the same values.
    pub fn duplicate(&self) -> (o: Self)
        ensures
            o@ == self@,
    {
        let mut extensions: Vec<Extension> = Vec::new();
        let mut i: usize = 0;
        while i < self.extensions.len()
            invariant
                0 <= i <= self.extensions.len(),
                extension_models(extensions@) == extension_models(self.extensions@).take(i as int),
            decreases self.extensions.len() - i,
        {
            let e = &self.extensions[i];
            let copy = Extension { key: e.key.clone(), value: copy_bytes(&e.value) };
            proof {
                let all = extension_models(self.extensions@);
                assert(all.take(i + 1) =~= all.take(i as int).push(all[i as int]));
                assert(extension_models(extensions@.push(copy)) =~= extension_models(
                    extensions@,
                ).push((copy.key@, copy.value@)));
            }
            extensions.push(copy);
            i = i + 1;
        }
        proof {
            assert(extension_models(self.extensions@).take(self.extensions.len() as int)
                =~= extension_models(self.extensions@));
        }
        Self {
            group_id: self.group_id,
            subgroup_id: self.subgroup_id,
            object_id: self.object_id,
            publisher_priority: self.publisher_priority,
            expires_at: self.expires_at,
            status: self.status,
            extensions,
            payload: copy_bytes(&self.payload),
            created_at: self.created_at,
        }
    }
}

/// Copies of the objects of `v`, in order.
pub fn duplicate_objects(v: &Vec<MoqObject>) -> (r: Vec<MoqObject>)
    ensures
        object_models(r@) == object_models(v@),
{
    let mut r: Vec<MoqObject> = Vec::new();
    let mut i: usize = 0;
    while i < v.len()
        invariant
            0 <= i <= v.len(),
            object_models(r@) == object_models(v@).take(i as int),
        decreases v.len() - i,
    {
        let o = v[i].duplicate();
        proof {
            let all = object_models(v@);
            assert(all.take(i + 1) =~= all.take(i as int).push(all[i as int]));
            assert(object_models(r@.push(o)) =~= object_models(r@).push(o@));
        }
        r.push(o);
        i = i + 1;
    }
    proof {
        assert(object_models(v@).take(v.len() as int) =~= object_models(v@));
    }
    r
}

/// What a group holds, as mathematical values.
pub struct GroupModel {
    pub group_id: u64,
    pub objects: Seq<ObjectModel>,
    pub is_complete: bool,
    pub created_at: u64,
}

/// Sum of the payload lengths of `objects`.
pub open spec fn total_payload(objects: Seq<ObjectModel>) -> nat
    decreases objects.len(),
{
    if objects.len() == 0 {
        0
    } else {
        total_payload(objects.drop_last()) + objects.last().payload.len()
    }
}

/// The objects of `objects` that travel in subgroup `subgroup_id`, in order.
pub open spec fn subgroup_objects(objects: Seq<ObjectModel>, subgroup_id: u64) -> Seq<ObjectModel> {
    objects.filter(|o: ObjectModel| o.subgroup_id == subgroup_id)
}

/// The objects of one group of a track. Every object stands in the order in
/// which it was added; a subgroup is the run of objects that name it.
#[derive(Debug, Clone)]
pub struct MoqGroup {
    pub group_id: GroupId,
    pub objects: Vec<MoqObject>,
    pub is_complete: bool,
    /// Milliseconds since the Unix epoch.
    pub created_at: u64,
}

impl View for MoqGroup {
    type V = GroupModel;

    open spec fn view(&self) -> GroupModel {
        GroupModel {
            group_id: self.group_id,
            objects: object_models(self.objects@),
            is_complete: self.is_complete,
            created_at: self.created_at,
        }
    }
}

impl MoqGroup {
    /// An open group without objects, made at `created_at`.
    pub fn new_at(group_id: GroupId, created_at: u64) -> (g: Self)
        ensures
            g@ == (GroupModel { group_id, objects: Seq::empty(), is_complete: false, created_at }),
    {
        let g = Self { group_id, objects: Vec::new(), is_complete: false, created_at };
        proof {
            assert(object_models(g.objects@) =~= Seq::empty());
        }
        g
    }

    /// An open group without objects, stamped with the clock's reading.
    pub fn new(group_id: GroupId) -> (g: Self)
        ensures
            g@ == (GroupModel {
                group_id,
                objects: Seq::empty(),
                is_complete: false,
                created_at: g.created_at,
            }),
    {
        let now = now_millis();
        Self::new_at(group_id, now)
    }

    /// Appends `obj` to the lane of its subgroup. A complete group takes no
    /// object: its objects stay as they are.
    pub fn add_object(&mut self, obj: MoqObject)
        ensures
            final(self)@ == if old(self)@.is_complete {
                old(self)@
            } else {
                GroupModel { objects: old(self)@.objects.push(obj@), ..old(self)@ }
            },
    {
        if self.is_complete {
            return ;
        }
        let ghost before = self.objects@;
        self.objects.push(obj);
        proof {
            assert(object_models(self.objects@) =~= object_models(before).push(obj@));
        }
    }

    pub fn mark_complete(&mut self)
        ensures
            final(self)@ == (GroupModel { is_complete: true, ..old(self)@ }),
    {
        self.is_complete = true;
    }

    /// Number of objects over all subgroups.
    pub fn object_count(&self) -> (n: usize)
        ensures
            n == self@.objects.len(),
    {
        self.objects.len()
    }

    /// Sum of the payload lengths over all subgroups.
    pub fn total_size(&self) -> (n: usize)
        requires
            total_payload(self@.objects) <= usize::MAX,
        ensures
            n == total_payload(self@.objects),
    {
        let mut n: usize = 0;
        let mut i: usize = 0;
        while i < self.objects.len()
            invariant
                0 <= i <= self.objects.len(),
                n == total_payload(self@.objects.take(i as int)),
                total_payload(self@.objects) <= usize::MAX,
            decreases self.objects.len() - i,
        {
            proof {
                let all = self@.objects;
                assert(all.take(i + 1).drop_last() =~= all.take(i as int));
                assert(all.take(i + 1).last() == self.objects@[i as int]@);
                lemma_total_payload_take(all, i + 1);
            }
            n = n + self.objects[i].size();
            i = i + 1;
        }
        proof {
            assert(self@.objects.take(self.objects.len() as int) =~= self@.objects);
        }
        n
    }

    /// Copies of the objects that travel in subgroup `subgroup_id`, in order.
    pub fn subgroup(&self, subgroup_id: SubgroupId) -> (r: Vec<MoqObject>)
        ensures
            object_models(r@) == subgroup_objects(self@.objects, subgroup_id),
    {
        let ghost pred = |o: ObjectModel| o.subgroup_id == subgroup_id;
        let mut r: Vec<MoqObject> = Vec::new();
        let mut i: usize = 0;
        proof {
            assert(self@.objects.take(0) =~= Seq::empty());
            assert(object_models(r@) =~= Seq::empty());
            Seq::<ObjectModel>::empty().lemma_all_neg_filter_empty(pred);
        }
        while i < self.objects.len()
            invariant
                0 <= i <= self.objects.len(),
                pred == (|o: ObjectModel| o.subgroup_id == subgroup_id),
                object_models(r@) == self@.objects.take(i as int).filter(pred),
            decreases self.objects.len() - i,
        {
            proof {
                let all = self@.objects;
                assert(all.take(i + 1) =~= all.take(i as int).push(all[i as int]));
                all.take(i as int).lemma_filter_push(all[i as int], pred);
            }
            if self.objects[i].subgroup_id == subgroup_id {
                let o = self.objects[i].duplicate();
                proof {
                    assert(object_models(r@.push(o)) =~= object_models(r@).push(o@));
                }
                r.push(o);
            }
            i = i + 1;
        }
        proof {
            assert(self@.objects.take(self.objects.len() as int) =~= self@.objects);
        }
        r
    }
}

/// The payload total of a prefix is no more than that of the whole.
pub proof fn lemma_total_payload_take(objects: Seq<ObjectModel>, k: int)
    requires
        0 <= k <= objects.len(),
    ensures
        total_payload(objects.take(k)) <= total_payload(objects),
    decreases objects.len() - k,
{
    if k < objects.len() {
        lemma_total_payload_take(objects, k + 1);
        assert(objects.take(k + 1).drop_last() =~= objects.take(k));
    } else {
        assert(objects.take(k) =~= objects);
    }
}

/// The order in which a subscriber wants groups delivered.
#[derive(Debug, Clone, Copy, PartialEq, Eq, Structural)]
pub enum GroupOrder {
    /// Oldest first.
    Ascending,
    /// Newest first.
    Descending,
    /// As the publisher delivers: oldest first.
    PublisherDefault,
}

/// Where a subscription starts and, for a range, where it ends.
#[derive(Debug, Clone, Copy, PartialEq, Eq, Structural)]
pub enum FilterType {
    LatestGroup,
    LatestObject,
    NextGroup,
    AbsoluteStart { start_group: GroupId, start_object: ObjectId },
    AbsoluteRange {
        start_group: GroupId,
        start_object: ObjectId,
        end_group: GroupId,
        end_object: Option<ObjectId>,
    },
}

/// What a subscriber asks for.
#[derive(Debug, Clone)]
pub struct SubscriptionParams {
    pub track: FullTrackName,
    pub filter: FilterType,
    pub group_order: GroupOrder,
    /// 0 to 255, lower is more urgent.
    pub subscriber_priority: u8,
    /// 0 stands for no timeout.
    pub delivery_timeout_ms: u64,
    pub max_cache_duration_ms: Option<u64>,
}

impl SubscriptionParams {
    /// Latest group, ascending, default priority, no timeout.
    pub fn new(track: FullTrackName) -> (p: Self)
        ensures
            p.track == track,
            p.filter == FilterType::LatestGroup,
            p.group_order == GroupOrder::Ascending,
            p.subscriber_priority == DEFAULT_PRIORITY,
            p.delivery_timeout_ms == 0,
            p.max_cache_duration_ms is None,
    {
        Self {
            track,
            filter: FilterType::LatestGroup,
            group_order: GroupOrder::Ascending,
            subscriber_priority: DEFAULT_PRIORITY,
            delivery_timeout_ms: 0,
            max_cache_duration_ms: None,
        }
    }

    pub fn with_filter(self, filter: FilterType) -> (p: Self)
        ensures
            p == (Self { filter, ..self }),
    {
        let mut p = self;
        p.filter = filter;
        p
    }

    pub fn with_order(self, order: GroupOrder) -> (p: Self)
        ensures
            p == (Self { group_order: order, ..self }),
    {
        let mut p = self;
        p.group_order = order;
        p
    }

    pub fn with_priority(self, priority: u8) -> (p: Self)
        ensures
            p == (Self { subscriber_priority: priority, ..self }),
    {
        let mut p = self;
        p.subscriber_priority = priority;
        p
    }

    pub fn with_timeout(self, timeout_ms: u64) -> (p: Self)
        ensures
            p == (Self { delivery_timeout_ms: timeout_ms, ..self }),
    {
        let mut p = self;
        p.delivery_timeout_ms = timeout_ms;
        p
    }

    /// The priority the scheduler uses for an object delivered under this
    /// subscription: the subscriber's, whatever the publisher's.
    pub fn effective_priority(&self, publisher_priority: u8) -> (p: u8)
        ensures
            p == self.subscriber_priority,
    {
        self.subscriber_priority
    }
}

#[derive(Debug, Clone, Copy, PartialEq, Eq, Structural)]
pub enum TrackStatusCode {
    Active,
    NotFound,
    Paused,
    Ended,
    Unknown,
}

/// What a track's status holds, as mathematical values.
pub struct TrackStatusModel {
    pub namespace: Seq<Seq<char>>,
    pub track_name: Seq<char>,
    pub status: TrackStatusCode,
    pub latest_group_id: Option<u64>,
    pub latest_object_id: Option<u64>,
    pub group_order: GroupOrder,
    pub publisher_priority: u8,
}

/// Status of a track, as answered to a subscriber.
#[derive(Debug, Clone)]
pub struct TrackStatus {
    pub track: FullTrackName,
    pub status: TrackStatusCode,
    pub latest_group_id: Option<GroupId>,
    pub latest_object_id: Option<ObjectId>,
    pub group_order: GroupOrder,
    pub publisher_priority: u8,
}

impl View for TrackStatus {
    type V = TrackStatusModel;

    open spec fn view(&self) -> TrackStatusModel {
        TrackStatusModel {
            namespace: self.track.namespace@,
            track_name: self.track.track_name@,
            status: self.status,
            latest_group_id: self.latest_group_id,
            latest_object_id: self.latest_object_id,
            group_order: self.group_order,
            publisher_priority: self.publisher_priority,
        }
    }
}

/// A copy of `v` with the same texts.
pub fn copy_strings(v: &Vec<String>) -> (r: Vec<String>)
    ensures
        texts(r@) == texts(v@),
{
    let mut r: Vec<String> = Vec::new();
    let mut i: usize = 0;
    while i < v.len()
        invariant
            0 <= i <= v.len(),
            texts(r@) == texts(v@).take(i as int),
        decreases v.len() - i,
    {
        let s = v[i].clone();
        proof {
            let all = texts(v@);
            assert(all.take(i + 1) =~= all.take(i as int).push(all[i as int]));
            assert(texts(r@.push(s)) =~= texts(r@).push(s@));
        }
        r.push(s);
        i = i + 1;
    }
    proof {
        assert(texts(v@).take(v.len() as int) =~= texts(v@));
    }
    r
}

impl Namespace {
    /// A copy of the namespace that holds the same components.
    pub fn duplicate(&self) -> (ns: Self)
        ensures
            ns@ == self@,
    {
        Namespace { components: copy_strings(&self.components) }
    }
}

impl FullTrackName {
    /// A copy of the track name that holds the same texts.
    pub fn duplicate(&self) -> (t: Self)
        ensures
            t.namespace@ == self.namespace@,
            t.track_name@ == self.track_name@,
    {
        FullTrackName { namespace: self.namespace.duplicate(), track_name: self.track_name.clone() }
    }
}

impl TrackStatus {
    /// A copy of the status that holds the same values.
    pub fn duplicate(&self) -> (s: Self)
        ensures
            s@ == self@,
    {
        TrackStatus {
            track: self.track.duplicate(),
            status: self.status,
            latest_group_id: self.latest_group_id,
            latest_object_id: self.latest_object_id,
            group_order: self.group_order,
            publisher_priority: self.publisher_priority,
        }
    }
}

} // verus!
