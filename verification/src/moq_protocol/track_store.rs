//! The recent tail of each track, its retention and the evaluation of
//! subscription filters.

use vstd::prelude::*;
use crate::clock::now_millis;
use crate::moq_protocol::lookup::first_index;
use crate::moq_protocol::lookup::lemma_first_index;
use crate::moq_protocol::lookup::lemma_first_index_is;
use crate::moq_protocol::lookup::lemma_first_index_push;
use crate::moq_protocol::names::FullTrackName;
use crate::moq_protocol::object::DEFAULT_PRIORITY;
use crate::moq_protocol::object::FilterType;
use crate::moq_protocol::object::GroupId;
use crate::moq_protocol::object::GroupModel;
use crate::moq_protocol::object::GroupOrder;
use crate::moq_protocol::object::MoqGroup;
use crate::moq_protocol::object::MoqObject;
use crate::moq_protocol::object::ObjectModel;
use crate::moq_protocol::object::SubgroupId;
use crate::moq_protocol::object::SubscriptionParams;
use crate::moq_protocol::object::TrackStatus;
use crate::moq_protocol::object::TrackStatusCode;
use crate::moq_protocol::object::TrackStatusModel;
use crate::moq_protocol::object::fresh_object;
use crate::moq_protocol::object::object_models;

verus! {

/// What the store holds of one track, as mathematical values.
pub struct TrackModel {
    pub status: TrackStatusModel,
    /// The retained groups, oldest first.
    pub groups: Seq<GroupModel>,
    pub next_group_id: u64,
}

/// A track that was just created: active, without groups.
pub open spec fn fresh_track(namespace: Seq<Seq<char>>, track_name: Seq<char>) -> TrackModel {
    TrackModel {
        status: TrackStatusModel {
            namespace,
            track_name,
            status: TrackStatusCode::Active,
            latest_group_id: None,
            latest_object_id: None,
            group_order: GroupOrder::Ascending,
            publisher_priority: DEFAULT_PRIORITY,
        },
        groups: Seq::empty(),
        next_group_id: 0,
    }
}

/// A retained group lies under the next group id, and each of its objects
/// names the group and is numbered by its place in it.
pub open spec fn group_ok(g: GroupModel, next_group_id: u64) -> bool {
    &&& g.group_id < next_group_id
    &&& forall|k: int|
        0 <= k < g.objects.len() ==> (#[trigger] g.objects[k]).group_id == g.group_id
            && g.objects[k].object_id == k
}

/// Group ids rise strictly.
pub open spec fn ascending(groups: Seq<GroupModel>) -> bool {
    forall|i: int, j: int| 0 <= i < j < groups.len() ==> groups[i].group_id < groups[j].group_id
}

/// The rules that every stored track keeps: no more groups than the limit;
/// group ids rise strictly and lie under the next id; every object names its
/// group and is numbered by its place in it.
pub open spec fn track_wf(t: TrackModel, max_groups: nat) -> bool {
    &&& t.groups.len() <= max_groups
    &&& ascending(t.groups)
    &&& forall|i: int| 0 <= i < t.groups.len() ==> group_ok(#[trigger] t.groups[i], t.next_group_id)
}

/// A group has outlived `max_age_ms` at `now`.
pub open spec fn too_old(g: GroupModel, now: u64, max_age_ms: u64) -> bool {
    g.created_at + max_age_ms < now
}

/// The groups that stay at a group boundary: those not too old, and of them
/// the `max_groups` most recent.
pub open spec fn retained(groups: Seq<GroupModel>, now: u64, max_age_ms: u64, max_groups: nat) -> Seq<
    GroupModel,
> {
    let young = groups.filter(|g: GroupModel| !too_old(g, now, max_age_ms));
    if young.len() > max_groups {
        young.skip(young.len() - max_groups)
    } else {
        young
    }
}

/// Every group marked complete.
pub open spec fn all_complete(groups: Seq<GroupModel>) -> Seq<GroupModel> {
    groups.map_values(|g: GroupModel| GroupModel { is_complete: true, ..g })
}

/// The track after a new group was started at `now`: the groups before it are
/// complete, the new one is open and empty, and retention has been applied.
pub open spec fn started(t: TrackModel, now: u64, max_age_ms: u64, max_groups: nat) -> TrackModel {
    let opened = GroupModel {
        group_id: t.next_group_id,
        objects: Seq::empty(),
        is_complete: false,
        created_at: now,
    };
    TrackModel {
        status: TrackStatusModel { latest_group_id: Some(t.next_group_id), ..t.status },
        groups: retained(all_complete(t.groups).push(opened), now, max_age_ms, max_groups),
        next_group_id: (t.next_group_id + 1) as u64,
    }
}

/// Position of the group `group_id` among `groups`, or their number.
pub open spec fn group_position(groups: Seq<GroupModel>, group_id: u64) -> int
    decreases groups.len(),
{
    if groups.len() == 0 || groups[0].group_id == group_id {
        0
    } else {
        1 + group_position(groups.skip(1), group_id)
    }
}

/// The track still takes objects for `group_id`: the group is retained and
/// not complete.
pub open spec fn accepts(t: TrackModel, group_id: u64) -> bool {
    let pos = group_position(t.groups, group_id);
    pos < t.groups.len() && !t.groups[pos].is_complete
}

/// The track after `o` was appended to its group.
pub open spec fn appended(t: TrackModel, o: ObjectModel) -> TrackModel {
    let pos = group_position(t.groups, o.group_id);
    TrackModel {
        status: TrackStatusModel { latest_object_id: Some(o.object_id), ..t.status },
        groups: t.groups.update(
            pos,
            GroupModel { objects: t.groups[pos].objects.push(o), ..t.groups[pos] },
        ),
        ..t
    }
}

/// The marker that closes a group: an object of status `EndOfGroup` without
/// payload, in subgroup 0.
pub open spec fn end_marker(group_id: u64, object_id: u64, created_at: u64) -> ObjectModel {
    ObjectModel {
        status: crate::moq_protocol::object::ObjectStatus::EndOfGroup,
        ..fresh_object(group_id, 0, object_id, Seq::empty(), created_at)
    }
}

/// The track after the marker `o` has closed its group.
pub open spec fn ended(t: TrackModel, o: ObjectModel) -> TrackModel {
    let pos = group_position(t.groups, o.group_id);
    TrackModel {
        status: TrackStatusModel { latest_object_id: Some(o.object_id), ..t.status },
        groups: t.groups.update(
            pos,
            GroupModel {
                objects: t.groups[pos].objects.push(o),
                is_complete: true,
                ..t.groups[pos]
            },
        ),
        ..t
    }
}

/// Every retained object of a track: group after group, each in the order
/// in which its objects were added.
pub open spec fn all_objects(groups: Seq<GroupModel>) -> Seq<ObjectModel>
    decreases groups.len(),
{
    if groups.len() == 0 {
        Seq::empty()
    } else {
        all_objects(groups.drop_last()) + groups.last().objects
    }
}

/// Group and object id of the last of `objects`.
pub open spec fn latest_key(objects: Seq<ObjectModel>) -> Option<(u64, u64)> {
    if objects.len() == 0 {
        None
    } else {
        Some((objects.last().group_id, objects.last().object_id))
    }
}

/// Whether `filter` selects `o`, where `latest` names the last retained
/// object of the track.
pub open spec fn filter_selects(filter: FilterType, latest: Option<(u64, u64)>, o: ObjectModel) -> bool {
    match filter {
        FilterType::LatestGroup => latest matches Some(key) && o.group_id == key.0,
        FilterType::LatestObject => latest matches Some(key) && o.group_id == key.0 && o.object_id
            == key.1,
        FilterType::NextGroup => false,
        FilterType::AbsoluteStart { start_group, start_object } => o.group_id > start_group || (
        o.group_id == start_group && o.object_id >= start_object),
        FilterType::AbsoluteRange { start_group, start_object, end_group, end_object } => {
            &&& o.group_id > start_group || (o.group_id == start_group && o.object_id
                >= start_object)
            &&& o.group_id < end_group || (o.group_id == end_group && (end_object matches Some(last)
                ==> o.object_id <= last))
        },
    }
}

/// What a query at `now` answers from the retained objects `objects`, which
/// stand by rising group and object id: those that the filter selects and
/// that have not expired, in the order asked for.
pub open spec fn selected(
    objects: Seq<ObjectModel>,
    filter: FilterType,
    order: GroupOrder,
    now: u64,
) -> Seq<ObjectModel> {
    let latest = latest_key(objects);
    let chosen = objects.filter(
        |o: ObjectModel| filter_selects(filter, latest, o) && !o.expired_at(now),
    );
    match order {
        GroupOrder::Descending => chosen.reverse(),
        _ => chosen,
    }
}

/// One track of the store.
pub struct TrackData {
    key: String,
    status: TrackStatus,
    groups: Vec<MoqGroup>,
    next_group_id: GroupId,
}

pub open spec fn group_models(v: Seq<MoqGroup>) -> Seq<GroupModel> {
    v.map_values(|g: MoqGroup| g@)
}

impl View for TrackData {
    type V = TrackModel;

    closed spec fn view(&self) -> TrackModel {
        TrackModel {
            status: self.status@,
            groups: group_models(self.groups@),
            next_group_id: self.next_group_id,
        }
    }
}

/// Taking one group out keeps ids rising and every group as it was.
proof fn lemma_remove_group(groups: Seq<GroupModel>, i: int, next_group_id: u64)
    requires
        0 <= i < groups.len(),
        ascending(groups),
        forall|k: int| 0 <= k < groups.len() ==> group_ok(#[trigger] groups[k], next_group_id),
    ensures
        ascending(groups.remove(i)),
        forall|k: int|
            0 <= k < groups.remove(i).len() ==> group_ok(#[trigger] groups.remove(i)[k], next_group_id),
{
    let r = groups.remove(i);
    assert forall|a: int, b: int| 0 <= a < b < r.len() implies r[a].group_id < r[b].group_id by {
        let a0 = if a < i { a } else { a + 1 };
        let b0 = if b < i { b } else { b + 1 };
        assert(r[a] == groups[a0]);
        assert(r[b] == groups[b0]);
    }
    assert forall|k: int| 0 <= k < r.len() implies group_ok(#[trigger] r[k], next_group_id) by {
        let k0 = if k < i { k } else { k + 1 };
        assert(r[k] == groups[k0]);
    }
}

/// Marks every group of `groups` complete.
fn complete_all(groups: &mut Vec<MoqGroup>)
    ensures
        group_models(final(groups)@) == all_complete(group_models(old(groups)@)),
{
    let n = groups.len();
    let ghost before = group_models(groups@);
    let mut j: usize = 0;
    while j < n
        invariant
            n == groups@.len(),
            n == before.len(),
            0 <= j <= n,
            forall|k: int| 0 <= k < j ==> group_models(groups@)[k] == (GroupModel {
                is_complete: true,
                ..before[k]
            }),
            forall|k: int| j <= k < n ==> group_models(groups@)[k] == before[k],
        decreases n - j,
    {
        let ghost current = groups@;
        let mut g = groups.remove(j);
        g.is_complete = true;
        groups.insert(j, g);
        proof {
            assert forall|k: int| 0 <= k < j + 1 implies group_models(groups@)[k] == (GroupModel {
                is_complete: true,
                ..before[k]
            }) by {
                if k < j {
                    assert(groups@[k] == current[k]);
                    assert(group_models(current)[k] == current[k]@);
                } else {
                    assert(group_models(current)[k] == current[k]@);
                }
            }
            assert forall|k: int| j + 1 <= k < n implies group_models(groups@)[k] == before[k] by {
                assert(groups@[k] == current[k]);
                assert(group_models(current)[k] == current[k]@);
            }
        }
        j = j + 1;
    }
    proof {
        assert(group_models(groups@) =~= all_complete(before));
    }
}

/// Takes out of `groups` every group that is too old at `now`.
fn evict_old(groups: &mut Vec<MoqGroup>, now: u64, max_age_ms: u64, Ghost(next_group_id): Ghost<u64>)
    ensures
        group_models(final(groups)@) == group_models(old(groups)@).filter(
            |g: GroupModel| !too_old(g, now, max_age_ms),
        ),
        ascending(group_models(old(groups)@)) && (forall|k: int|
            0 <= k < old(groups)@.len() ==> group_ok(
                #[trigger] group_models(old(groups)@)[k],
                next_group_id,
            )) ==> ascending(group_models(final(groups)@)) && (forall|k: int|
            0 <= k < final(groups)@.len() ==> group_ok(
                #[trigger] group_models(final(groups)@)[k],
                next_group_id,
            )),
{
    let ghost before = group_models(groups@);
    let ghost pred = |g: GroupModel| !too_old(g, now, max_age_ms);
    let ghost good = ascending(before) && (forall|k: int|
        0 <= k < before.len() ==> group_ok(#[trigger] before[k], next_group_id));
    let ghost mut done: int = 0;
    let mut i: usize = 0;
    proof {
        assert(before.take(0) =~= Seq::empty());
        Seq::<GroupModel>::empty().lemma_all_neg_filter_empty(pred);
        assert(before.take(0).filter(pred) + before.skip(0) =~= before);
    }
    while i < groups.len()
        invariant
            before == group_models(old(groups)@),
            pred == (|g: GroupModel| !too_old(g, now, max_age_ms)),
            0 <= done <= before.len(),
            0 <= i <= groups@.len(),
            i == before.take(done).filter(pred).len(),
            group_models(groups@) == before.take(done).filter(pred) + before.skip(done),
            good ==> ascending(group_models(groups@)) && (forall|k: int|
                0 <= k < groups@.len() ==> group_ok(
                    #[trigger] group_models(groups@)[k],
                    next_group_id,
                )),
        decreases before.len() - done,
    {
        let ghost current = group_models(groups@);
        proof {
            assert(current[i as int] == before.skip(done)[0]);
            assert(before.take(done + 1) =~= before.take(done).push(before[done]));
            before.take(done).lemma_filter_push(before[done], pred);
        }
        let created = groups[i].created_at;
        let old_now = match created.checked_add(max_age_ms) {
            Some(limit) => limit < now,
            None => false,
        };
        assert(old_now == !pred(before[done]));
        if !old_now {
            proof {
                assert(before.take(done + 1).filter(pred) + before.skip(done + 1) =~= current);
            }
            i = i + 1;
        } else {
            groups.remove(i);
            proof {
                assert(group_models(groups@) =~= current.remove(i as int));
                assert(current.remove(i as int) =~= before.take(done + 1).filter(pred) + before.skip(
                    done + 1,
                ));
                if good {
                    lemma_remove_group(current, i as int, next_group_id);
                }
            }
        }
        proof {
            done = done + 1;
        }
    }
    proof {
        before.take(done).lemma_filter_len(pred);
        assert(before.take(done) =~= before);
        assert(before.filter(pred) + Seq::<GroupModel>::empty() =~= before.filter(pred));
    }
}

/// The group `group_id` stands at `i` where no group before `i` has that
/// id and the group at `i`, if there is one, has it.
pub proof fn lemma_group_position_is(groups: Seq<GroupModel>, group_id: u64, i: int)
    requires
        0 <= i <= groups.len(),
        forall|k: int| 0 <= k < i ==> groups[k].group_id != group_id,
        i < groups.len() ==> groups[i].group_id == group_id,
    ensures
        group_position(groups, group_id) == i,
    decreases groups.len(),
{
    if groups.len() == 0 || groups[0].group_id == group_id {
    } else {
        let t = groups.skip(1);
        assert forall|k: int| 0 <= k < i - 1 implies t[k].group_id != group_id by {
            assert(t[k] == groups[k + 1]);
        }
        if i - 1 < t.len() {
            assert(t[i - 1] == groups[i]);
        }
        lemma_group_position_is(t, group_id, i - 1);
    }
}

/// Groups without objects at the end add nothing to the retained objects.
pub proof fn lemma_all_objects_take(groups: Seq<GroupModel>, k: int)
    requires
        0 <= k <= groups.len(),
        forall|j: int| k <= j < groups.len() ==> groups[j].objects.len() == 0,
    ensures
        all_objects(groups) == all_objects(groups.take(k)),
    decreases groups.len() - k,
{
    if k == groups.len() {
        assert(groups.take(k) =~= groups);
    } else {
        let shorter = groups.drop_last();
        assert(groups.last().objects =~= Seq::empty());
        assert(all_objects(groups) =~= all_objects(shorter));
        lemma_all_objects_take(shorter, k);
        assert(shorter.take(k) =~= groups.take(k));
    }
}

/// The retained objects up to and with group `k` are those before it and its own.
pub proof fn lemma_all_objects_step(groups: Seq<GroupModel>, k: int)
    requires
        0 <= k < groups.len(),
    ensures
        all_objects(groups.take(k + 1)) == all_objects(groups.take(k)) + groups[k].objects,
{
    assert(groups.take(k + 1).drop_last() =~= groups.take(k));
}

/// Whether `filter` selects `o`, where `latest` names the last retained object.
fn selects(filter: &FilterType, latest: Option<(u64, u64)>, o: &MoqObject) -> (b: bool)
    ensures
        b == filter_selects(*filter, latest, o@),
{
    match filter {
        FilterType::LatestGroup => match latest {
            Some(key) => o.group_id == key.0,
            None => false,
        },
        FilterType::LatestObject => match latest {
            Some(key) => o.group_id == key.0 && o.object_id == key.1,
            None => false,
        },
        FilterType::NextGroup => false,
        FilterType::AbsoluteStart { start_group, start_object } => o.group_id > *start_group || (
        o.group_id == *start_group && o.object_id >= *start_object),
        FilterType::AbsoluteRange { start_group, start_object, end_group, end_object } => {
            let after_start = o.group_id > *start_group || (o.group_id == *start_group
                && o.object_id >= *start_object);
            let before_end = o.group_id < *end_group || (o.group_id == *end_group && match end_object {
                Some(last) => o.object_id <= *last,
                None => true,
            });
            after_start && before_end
        },
    }
}

/// The objects of `v` from the last to the first.
fn reversed(v: Vec<MoqObject>) -> (r: Vec<MoqObject>)
    ensures
        object_models(r@) == object_models(v@).reverse(),
{
    let mut v = v;
    let ghost orig = v@;
    let n = v.len();
    let mut r: Vec<MoqObject> = Vec::new();
    while v.len() > 0
        invariant
            n == orig.len(),
            v@.len() <= n,
            v@ == orig.take(v@.len() as int),
            r@.len() == n - v@.len(),
            forall|k: int| 0 <= k < r@.len() ==> r@[k] == orig[n - 1 - k],
        decreases v@.len(),
    {
        let o = v.pop().unwrap();
        r.push(o);
    }
    proof {
        assert(object_models(r@) =~= object_models(orig).reverse());
    }
    r
}

impl TrackData {
    /// Starts the next group at `now` and applies retention.
    fn open_group(&mut self, now: u64, max_age_ms: u64, max_groups: usize) -> (gid: GroupId)
        requires
            track_wf(old(self)@, max_groups as nat),
            old(self)@.next_group_id < u64::MAX,
        ensures
            gid == old(self)@.next_group_id,
            final(self)@ == started(old(self)@, now, max_age_ms, max_groups as nat),
            track_wf(final(self)@, max_groups as nat),
            final(self).key == old(self).key,
    {
        let gid = self.next_group_id;
        let ghost t = self@;
        self.next_group_id = gid + 1;
        self.status.latest_group_id = Some(gid);
        complete_all(&mut self.groups);
        let opened = MoqGroup::new_at(gid, now);
        let ghost closed = group_models(self.groups@);
        self.groups.push(opened);
        let ghost grown = group_models(self.groups@);
        proof {
            assert(grown =~= all_complete(t.groups).push(opened@));
            assert(ascending(grown)) by {
                assert forall|i: int, j: int| 0 <= i < j < grown.len() implies grown[i].group_id
                    < grown[j].group_id by {
                    assert(group_ok(t.groups[i], t.next_group_id));
                }
            }
            assert forall|k: int| 0 <= k < grown.len() implies group_ok(
                #[trigger] grown[k],
                (gid + 1) as u64,
            ) by {
                if k < t.groups.len() {
                    assert(group_ok(t.groups[k], t.next_group_id));
                }
            }
        }
        evict_old(&mut self.groups, now, max_age_ms, Ghost((gid + 1) as u64));
        let ghost young = group_models(self.groups@);
        let ghost mut cut: int = 0;
        while self.groups.len() > max_groups
            invariant
                gid < u64::MAX,
                self.key == old(self).key,
                self.next_group_id == gid + 1,
                self.status@ == (TrackStatusModel { latest_group_id: Some(gid), ..t.status }),
                0 <= cut <= young.len(),
                group_models(self.groups@) == young.skip(cut),
                self.groups@.len() == young.len() - cut,
                cut == 0 || self.groups@.len() >= max_groups,
                ascending(group_models(self.groups@)),
                forall|k: int|
                    0 <= k < self.groups@.len() ==> group_ok(
                        #[trigger] group_models(self.groups@)[k],
                        (gid + 1) as u64,
                    ),
            decreases self.groups@.len(),
        {
            let ghost current = group_models(self.groups@);
            self.groups.remove(0);
            proof {
                assert(group_models(self.groups@) =~= current.remove(0));
                assert(current.remove(0) =~= young.skip(cut + 1));
                lemma_remove_group(current, 0, (gid + 1) as u64);
                cut = cut + 1;
            }
        }
        proof {
            assert(young.skip(0) =~= young);
        }
        gid
    }

    /// Appends a fresh object made at `now` to the group `group_id`, if the
    /// track still takes objects for it.
    fn append(
        &mut self,
        group_id: GroupId,
        subgroup_id: SubgroupId,
        payload: Vec<u8>,
        now: u64,
        Ghost(max_groups): Ghost<nat>,
    ) -> (r: Option<MoqObject>)
        requires
            track_wf(old(self)@, max_groups),
        ensures
            track_wf(final(self)@, max_groups),
            final(self).key == old(self).key,
            !accepts(old(self)@, group_id) ==> r is None && final(self)@ == old(self)@,
            accepts(old(self)@, group_id) ==> r is Some && r->0@ == fresh_object(
                group_id,
                subgroup_id,
                old(self)@.groups[group_position(old(self)@.groups, group_id)].objects.len() as u64,
                payload@,
                now,
            ) && final(self)@ == appended(old(self)@, r->0@),
    {
        let ghost t = self@;
        let n = self.groups.len();
        let mut j: usize = 0;
        while j < n && self.groups[j].group_id != group_id
            invariant
                n == self.groups@.len(),
                0 <= j <= n,
                *self == *old(self),
                t.groups == group_models(self.groups@),
                forall|k: int| 0 <= k < j ==> t.groups[k].group_id != group_id,
            decreases n - j,
        {
            j = j + 1;
        }
        proof {
            lemma_group_position_is(t.groups, group_id, j as int);
        }
        if j == n || self.groups[j].is_complete {
            return None;
        }
        let object_id = self.groups[j].objects.len() as u64;
        let obj = MoqObject::new_at(group_id, subgroup_id, object_id, payload, now);
        let answer = obj.duplicate();
        self.status.latest_object_id = Some(object_id);
        let ghost before = self.groups@;
        self.groups[j].add_object(obj);
        proof {
            let grown = group_models(self.groups@);
            assert(grown =~= t.groups.update(
                j as int,
                GroupModel { objects: t.groups[j as int].objects.push(obj@), ..t.groups[j as int] },
            ));
            assert(group_ok(t.groups[j as int], t.next_group_id));
            assert forall|i: int| 0 <= i < grown.len() implies group_ok(
                #[trigger] grown[i],
                t.next_group_id,
            ) by {
                assert(group_ok(t.groups[i], t.next_group_id));
            }
        }
        Some(answer)
    }

    /// Appends an end-of-group marker made at `now` to the group
    /// `group_id` and marks the group complete, if the track still takes
    /// objects for it.
    fn end_group(&mut self, group_id: GroupId, now: u64, Ghost(max_groups): Ghost<nat>) -> (r: Option<
        MoqObject,
    >)
        requires
            track_wf(old(self)@, max_groups),
        ensures
            track_wf(final(self)@, max_groups),
            final(self).key == old(self).key,
            !accepts(old(self)@, group_id) ==> r is None && final(self)@ == old(self)@,
            accepts(old(self)@, group_id) ==> r is Some && r->0@ == end_marker(
                group_id,
                old(self)@.groups[group_position(old(self)@.groups, group_id)].objects.len() as u64,
                now,
            ) && final(self)@ == ended(old(self)@, r->0@),
    {
        let ghost t = self@;
        let n = self.groups.len();
        let mut j: usize = 0;
        while j < n && self.groups[j].group_id != group_id
            invariant
                n == self.groups@.len(),
                0 <= j <= n,
                *self == *old(self),
                t.groups == group_models(self.groups@),
                forall|k: int| 0 <= k < j ==> t.groups[k].group_id != group_id,
            decreases n - j,
        {
            j = j + 1;
        }
        proof {
            lemma_group_position_is(t.groups, group_id, j as int);
        }
        if j == n || self.groups[j].is_complete {
            return None;
        }
        let object_id = self.groups[j].objects.len() as u64;
        let mut obj = MoqObject::new_at(group_id, 0, object_id, Vec::new(), now);
        obj.status = crate::moq_protocol::object::ObjectStatus::EndOfGroup;
        let answer = obj.duplicate();
        self.status.latest_object_id = Some(object_id);
        self.groups[j].add_object(obj);
        self.groups[j].mark_complete();
        proof {
            let grown = group_models(self.groups@);
            assert(grown =~= t.groups.update(
                j as int,
                GroupModel {
                    objects: t.groups[j as int].objects.push(obj@),
                    is_complete: true,
                    ..t.groups[j as int]
                },
            ));
            assert(group_ok(t.groups[j as int], t.next_group_id));
            assert forall|i: int| 0 <= i < grown.len() implies group_ok(
                #[trigger] grown[i],
                t.next_group_id,
            ) by {
                assert(group_ok(t.groups[i], t.next_group_id));
            }
        }
        Some(answer)
    }

    /// Group and object id of the last retained object.
    fn latest(&self) -> (r: Option<(u64, u64)>)
        ensures
            r == latest_key(all_objects(self@.groups)),
    {
        let ghost groups = self@.groups;
        let mut j: usize = self.groups.len();
        while j > 0
            invariant
                groups == self@.groups,
                0 <= j <= groups.len(),
                forall|k: int| j <= k < groups.len() ==> groups[k].objects.len() == 0,
            decreases j,
        {
            let group = &self.groups[j - 1];
            let count = group.objects.len();
            if count > 0 {
                let last = &group.objects[count - 1];
                proof {
                    lemma_all_objects_take(groups, j as int);
                    lemma_all_objects_step(groups, j - 1);
                    assert(groups[j - 1].objects.last() == last@);
                }
                return Some((last.group_id, last.object_id));
            }
            j = j - 1;
        }
        proof {
            lemma_all_objects_take(groups, 0);
            assert(groups.take(0) =~= Seq::empty());
        }
        None
    }

    /// Copies of the retained objects that `filter` selects and that have
    /// not expired at `now`, in the order `order`.
    fn select(&self, filter: &FilterType, order: GroupOrder, now: u64) -> (r: Vec<MoqObject>)
        ensures
            object_models(r@) == selected(all_objects(self@.groups), *filter, order, now),
    {
        let latest = self.latest();
        let ghost groups = self@.groups;
        let ghost pred = |o: ObjectModel| filter_selects(*filter, latest, o) && !o.expired_at(now);
        let mut out: Vec<MoqObject> = Vec::new();
        let n = self.groups.len();
        let mut gi: usize = 0;
        proof {
            assert(groups.take(0) =~= Seq::empty());
            Seq::<ObjectModel>::empty().lemma_all_neg_filter_empty(pred);
            assert(object_models(out@) =~= Seq::empty());
        }
        while gi < n
            invariant
                groups == self@.groups,
                n == groups.len(),
                0 <= gi <= n,
                pred == (|o: ObjectModel| filter_selects(*filter, latest, o) && !o.expired_at(now)),
                object_models(out@) == all_objects(groups.take(gi as int)).filter(pred),
            decreases n - gi,
        {
            let group = &self.groups[gi];
            let ghost head = all_objects(groups.take(gi as int));
            let ghost body = groups[gi as int].objects;
            let count = group.objects.len();
            let mut k: usize = 0;
            proof {
                assert(body.take(0) =~= Seq::empty());
                assert(head + body.take(0) =~= head);
            }
            while k < count
                invariant
                    group == &self.groups[gi as int],
                    body == group@.objects,
                    count == body.len(),
                    0 <= k <= count,
                    pred == (|o: ObjectModel|
                        filter_selects(*filter, latest, o) && !o.expired_at(now)),
                    object_models(out@) == (head + body.take(k as int)).filter(pred),
                decreases count - k,
            {
                let o = &group.objects[k];
                proof {
                    assert(head + body.take(k + 1) =~= (head + body.take(k as int)).push(o@));
                    (head + body.take(k as int)).lemma_filter_push(o@, pred);
                }
                if selects(filter, latest, o) && !o.is_expired_at(now) {
                    let copy = o.duplicate();
                    proof {
                        assert(object_models(out@.push(copy)) =~= object_models(out@).push(copy@));
                    }
                    out.push(copy);
                }
                k = k + 1;
            }
            proof {
                assert(body.take(count as int) =~= body);
                lemma_all_objects_step(groups, gi as int);
            }
            gi = gi + 1;
        }
        proof {
            assert(groups.take(n as int) =~= groups);
        }
        match order {
            GroupOrder::Descending => reversed(out),
            _ => out,
        }
    }
}

spec fn track_keys(v: Seq<TrackData>) -> Seq<Seq<char>> {
    v.map_values(|t: TrackData| t.key@)
}

/// In-memory store of tracks, keyed by the string form of their names.
pub struct TrackStore {
    tracks: Vec<TrackData>,
    max_retention_ms: u64,
    max_groups: usize,
}

impl TrackStore {
    /// The track stored under `path`, if there is one.
    pub closed spec fn track(&self, path: Seq<char>) -> Option<TrackModel> {
        let i = first_index(track_keys(self.tracks@), path);
        if i < self.tracks@.len() {
            Some(self.tracks@[i]@)
        } else {
            None
        }
    }

    /// The most groups that a track keeps.
    pub closed spec fn max_groups(&self) -> nat {
        self.max_groups as nat
    }

    /// The age in milliseconds beyond which a group is evicted.
    pub closed spec fn max_age_ms(&self) -> u64 {
        self.max_retention_ms
    }

    /// Every stored track keeps the rules of `track_wf`.
    pub closed spec fn wf(&self) -> bool {
        forall|i: int| 0 <= i < self.tracks@.len() ==> track_wf(#[trigger] self.tracks@[i]@, self.max_groups())
    }

    /// Every other track, and both limits, are as in `before`.
    pub open spec fn same_but(&self, before: &TrackStore, path: Seq<char>) -> bool {
        &&& self.max_groups() == before.max_groups()
        &&& self.max_age_ms() == before.max_age_ms()
        &&& forall|q: Seq<char>| q != path ==> self.track(q) == before.track(q)
    }

    /// A well-formed store keeps the track rules for each track it holds.
    pub proof fn lemma_track_wf(&self, path: Seq<char>)
        requires
            self.wf(),
        ensures
            self.track(path) matches Some(t) ==> track_wf(t, self.max_groups()),
    {
        lemma_first_index(track_keys(self.tracks@), path);
    }

    /// An empty store that keeps groups for `max_retention_ms` milliseconds
    /// and at most `max_groups` of them per track.
    pub fn new(max_retention_ms: u64, max_groups: usize) -> (s: Self)
        ensures
            s.wf(),
            s.max_groups() == max_groups,
            s.max_age_ms() == max_retention_ms,
            forall|p: Seq<char>| s.track(p) is None,
    {
        let s = Self { tracks: Vec::new(), max_retention_ms, max_groups };
        proof {
            assert forall|p: Seq<char>| s.track(p) is None by {
                lemma_first_index(track_keys(s.tracks@), p);
            }
        }
        s
    }

    /// Where the track with key `key` stands, if it is stored.
    fn find(&self, key: &String) -> (r: Option<usize>)
        ensures
            match r {
                Some(i) => i < self.tracks@.len() && i == first_index(track_keys(self.tracks@), key@)
                    && self.tracks@[i as int].key@ == key@,
                None => first_index(track_keys(self.tracks@), key@) == self.tracks@.len(),
            },
    {
        let n = self.tracks.len();
        let mut i: usize = 0;
        while i < n
            invariant
                n == self.tracks@.len(),
                0 <= i <= n,
                forall|k: int| 0 <= k < i ==> track_keys(self.tracks@)[k] != key@,
            decreases n - i,
        {
            if self.tracks[i].key == *key {
                proof {
                    lemma_first_index_is(track_keys(self.tracks@), key@, i as int);
                }
                return Some(i);
            }
            i = i + 1;
        }
        proof {
            lemma_first_index_is(track_keys(self.tracks@), key@, n as int);
        }
        None
    }

    /// The status of the track `track`, which is created when the store does
    /// not hold it yet.
    pub fn get_or_create_track(&mut self, track: &FullTrackName) -> (status: TrackStatus)
        requires
            old(self).wf(),
        ensures
            final(self).wf(),
            final(self).same_but(old(self), track.path()),
            old(self).track(track.path()) is Some ==> final(self).track(track.path()) == old(self).track(track.path()),
            old(self).track(track.path()) is None ==> final(self).track(track.path()) == Some(
                fresh_track(track.namespace@, track.track_name@),
            ),
            status@ == final(self).track(track.path())->0.status,
    {
        let key = track.to_path();
        match self.find(&key) {
            Some(i) => self.tracks[i].status.duplicate(),
            None => {
                let status = TrackStatus {
                    track: track.duplicate(),
                    status: TrackStatusCode::Active,
                    latest_group_id: None,
                    latest_object_id: None,
                    group_order: GroupOrder::Ascending,
                    publisher_priority: DEFAULT_PRIORITY,
                };
                let answer = status.duplicate();
                let data = TrackData { key, status, groups: Vec::new(), next_group_id: 0 };
                let ghost before = self.tracks@;
                let ghost added = data.key@;
                proof {
                    assert(group_models(data.groups@) =~= Seq::empty());
                    assert(track_keys(before.push(data)) =~= track_keys(before).push(added));
                }
                self.tracks.push(data);
                proof {
                    lemma_first_index_push(track_keys(before), added, added);
                    assert forall|q: Seq<char>| q != track.path() implies self.track(q) == old(self).track(q) by {
                        lemma_first_index_push(track_keys(before), added, q);
                        lemma_first_index(track_keys(before), q);
                    }
                }
                answer
            },
        }
    }

    /// The status of the track `track`, if the store holds it.
    pub fn get_track_status(&self, track: &FullTrackName) -> (status: Option<TrackStatus>)
        ensures
            status is Some == self.track(track.path()) is Some,
            status matches Some(s) ==> s@ == self.track(track.path())->0.status,
    {
        let key = track.to_path();
        match self.find(&key) {
            Some(i) => Some(self.tracks[i].status.duplicate()),
            None => None,
        }
    }
    /// Starts the next group of `track` at `now`: gives its id, closes the
    /// groups before it and applies retention. Of a track that the store does
    /// not hold, nothing changes and the answer is 0.
    pub fn start_group_at(&mut self, track: &FullTrackName, now: u64) -> (gid: GroupId)
        requires
            old(self).wf(),
            old(self).track(track.path()) matches Some(t) ==> t.next_group_id < u64::MAX,
        ensures
            final(self).wf(),
            final(self).same_but(old(self), track.path()),
            old(self).track(track.path()) is None ==> gid == 0 && final(self).track(track.path())
                is None,
            old(self).track(track.path()) matches Some(t) ==> gid == t.next_group_id && final(self).track(track.path()) == Some(started(t, now, old(self).max_age_ms(), old(self).max_groups())),
    {
        let key = track.to_path();
        match self.find(&key) {
            None => 0,
            Some(i) => {
                let max_age_ms = self.max_retention_ms;
                let max_groups = self.max_groups;
                let ghost before = self.tracks@;
                let gid = self.tracks[i].open_group(now, max_age_ms, max_groups);
                proof {
                    assert(track_keys(self.tracks@) =~= track_keys(before));
                    assert forall|q: Seq<char>| q != track.path() implies self.track(q) == old(
                        self).track(q) by {
                        lemma_first_index(track_keys(before), q);
                    }
                }
                gid
            },
        }
    }

    /// Starts the next group of `track` at the clock's reading.
    pub fn start_group(&mut self, track: &FullTrackName) -> (gid: GroupId)
        requires
            old(self).wf(),
            old(self).track(track.path()) matches Some(t) ==> t.next_group_id < u64::MAX,
        ensures
            final(self).wf(),
            final(self).same_but(old(self), track.path()),
            old(self).track(track.path()) is None ==> gid == 0 && final(self).track(track.path())
                is None,
            old(self).track(track.path()) matches Some(t) ==> gid == t.next_group_id && exists|
                now: u64,
            |
                final(self).track(track.path()) == Some(
                    #[trigger] started(t, now, old(self).max_age_ms(), old(self).max_groups()),
                ),
    {
        let now = now_millis();
        self.start_group_at(track, now)
    }
    /// Appends a fresh object made at `now` to the group `group_id` of
    /// `track` and hands out a copy of it. Nothing is added, and nothing is
    /// handed out, where the store does not hold the track or the group is
    /// closed: complete, evicted or never started.
    pub fn add_object_at(
        &mut self,
        track: &FullTrackName,
        group_id: GroupId,
        subgroup_id: SubgroupId,
        payload: Vec<u8>,
        now: u64,
    ) -> (r: Option<MoqObject>)
        requires
            old(self).wf(),
        ensures
            final(self).wf(),
            final(self).same_but(old(self), track.path()),
            r is Some <==> (old(self).track(track.path()) matches Some(t) && accepts(t, group_id)),
            r is None ==> final(self).track(track.path()) == old(self).track(track.path()),
            r matches Some(o) ==> {
                let t = old(self).track(track.path())->0;
                &&& o@ == fresh_object(
                    group_id,
                    subgroup_id,
                    t.groups[group_position(t.groups, group_id)].objects.len() as u64,
                    payload@,
                    now,
                )
                &&& final(self).track(track.path()) == Some(appended(t, o@))
            },
    {
        let key = track.to_path();
        match self.find(&key) {
            None => None,
            Some(i) => {
                let ghost before = self.tracks@;
                let ghost limit = self.max_groups();
                let r = self.tracks[i].append(group_id, subgroup_id, payload, now, Ghost(limit));
                proof {
                    assert(track_keys(self.tracks@) =~= track_keys(before));
                    assert forall|q: Seq<char>| q != track.path() implies self.track(q) == old(
                        self).track(q) by {
                        lemma_first_index(track_keys(before), q);
                    }
                }
                r
            },
        }
    }

    /// Appends a fresh object, stamped with the clock's reading, to the
    /// group `group_id` of `track`.
    pub fn add_object(
        &mut self,
        track: &FullTrackName,
        group_id: GroupId,
        subgroup_id: SubgroupId,
        payload: Vec<u8>,
    ) -> (r: Option<MoqObject>)
        requires
            old(self).wf(),
        ensures
            final(self).wf(),
            final(self).same_but(old(self), track.path()),
            r is Some <==> (old(self).track(track.path()) matches Some(t) && accepts(t, group_id)),
            r is None ==> final(self).track(track.path()) == old(self).track(track.path()),
            r matches Some(o) ==> {
                let t = old(self).track(track.path())->0;
                &&& o@ == fresh_object(
                    group_id,
                    subgroup_id,
                    t.groups[group_position(t.groups, group_id)].objects.len() as u64,
                    payload@,
                    o.created_at,
                )
                &&& final(self).track(track.path()) == Some(appended(t, o@))
            },
    {
        let now = now_millis();
        self.add_object_at(track, group_id, subgroup_id, payload, now)
    }

    /// The id that the next group of `track` gets.
    pub fn next_group_id(&self, track: &FullTrackName) -> (r: Option<GroupId>)
        ensures
            match self.track(track.path()) {
                Some(t) => r == Some(t.next_group_id),
                None => r is None,
            },
    {
        let key = track.to_path();
        match self.find(&key) {
            None => None,
            Some(i) => Some(self.tracks[i].next_group_id),
        }
    }

    /// Id of the oldest retained group of `track`.
    pub fn first_retained_group(&self, track: &FullTrackName) -> (r: Option<GroupId>)
        ensures
            match self.track(track.path()) {
                Some(t) => if t.groups.len() > 0 {
                    r == Some(t.groups[0].group_id)
                } else {
                    r is None
                },
                None => r is None,
            },
    {
        let key = track.to_path();
        match self.find(&key) {
            None => None,
            Some(i) => {
                let data = &self.tracks[i];
                if data.groups.len() > 0 {
                    Some(data.groups[0].group_id)
                } else {
                    None
                }
            },
        }
    }

    /// Closes the group `group_id` of `track` at `now`: an end-of-group
    /// marker is appended as its last object and the group is complete.
    /// Nothing happens where the track still takes no objects for that
    /// group.
    pub fn end_group_at(&mut self, track: &FullTrackName, group_id: GroupId, now: u64) -> (r: Option<
        MoqObject,
    >)
        requires
            old(self).wf(),
        ensures
            final(self).wf(),
            final(self).same_but(old(self), track.path()),
            r is Some <==> (old(self).track(track.path()) matches Some(t) && accepts(t, group_id)),
            r is None ==> final(self).track(track.path()) == old(self).track(track.path()),
            r matches Some(o) ==> {
                let t = old(self).track(track.path())->0;
                &&& o@ == end_marker(
                    group_id,
                    t.groups[group_position(t.groups, group_id)].objects.len() as u64,
                    now,
                )
                &&& final(self).track(track.path()) == Some(ended(t, o@))
            },
    {
        let key = track.to_path();
        match self.find(&key) {
            None => None,
            Some(i) => {
                let ghost before = self.tracks@;
                let ghost limit = self.max_groups();
                let r = self.tracks[i].end_group(group_id, now, Ghost(limit));
                proof {
                    assert(track_keys(self.tracks@) =~= track_keys(before));
                    assert forall|q: Seq<char>| q != track.path() implies self.track(q) == old(
                        self).track(q) by {
                        lemma_first_index(track_keys(before), q);
                    }
                }
                r
            },
        }
    }

    /// What the subscription `params` is answered at `now`: copies of the
    /// retained objects of its track that its filter selects and that have
    /// not expired, by rising group and object id, or by falling ones where
    /// the order asked for is descending. A track that the store does not
    /// hold answers nothing.
    pub fn get_objects_at(&self, params: &SubscriptionParams, now: u64) -> (r: Vec<MoqObject>)
        ensures
            self.track(params.track.path()) is None ==> r@.len() == 0,
            self.track(params.track.path()) matches Some(t) ==> object_models(r@) == selected(
                all_objects(t.groups),
                params.filter,
                params.group_order,
                now,
            ),
    {
        let key = params.track.to_path();
        match self.find(&key) {
            None => Vec::new(),
            Some(i) => self.tracks[i].select(&params.filter, params.group_order, now),
        }
    }

    /// What the subscription `params` is answered by the clock's reading.
    pub fn get_objects(&self, params: &SubscriptionParams) -> (r: Vec<MoqObject>)
        ensures
            self.track(params.track.path()) is None ==> r@.len() == 0,
            self.track(params.track.path()) matches Some(t) ==> exists|now: u64|
                object_models(r@) == #[trigger] selected(
                    all_objects(t.groups),
                    params.filter,
                    params.group_order,
                    now,
                ),
    {
        let now = now_millis();
        self.get_objects_at(params, now)
    }
}

} // verus!
