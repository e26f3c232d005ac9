//! What holds of the track hierarchy, the scheduler and namespaces across
//! calls.

use vstd::prelude::*;
use crate::moq_protocol::names::namespace_prefix;
use crate::moq_protocol::object::FilterType;
use crate::moq_protocol::object::GroupModel;
use crate::moq_protocol::object::GroupOrder;
use crate::moq_protocol::object::ObjectModel;
use crate::moq_protocol::scheduler::PendingModel;
use crate::moq_protocol::scheduler::delivery_of;
use crate::moq_protocol::scheduler::dequeued;
use crate::moq_protocol::scheduler::enqueued;
use crate::moq_protocol::scheduler::insert_position;
use crate::moq_protocol::scheduler::lemma_enqueued_sorted;
use crate::moq_protocol::scheduler::lemma_insert_position;
use crate::moq_protocol::scheduler::live_at;
use crate::moq_protocol::scheduler::sorted_by_priority;
use crate::moq_protocol::track_store::TrackModel;
use crate::moq_protocol::track_store::accepts;
use crate::moq_protocol::track_store::all_complete;
use crate::moq_protocol::track_store::all_objects;
use crate::moq_protocol::object::fresh_object;
use crate::moq_protocol::track_store::appended;
use crate::moq_protocol::track_store::end_marker;
use crate::moq_protocol::track_store::ended;
use crate::moq_protocol::track_store::group_position;
use crate::moq_protocol::track_store::ascending;
use crate::moq_protocol::track_store::filter_selects;
use crate::moq_protocol::track_store::fresh_track;
use crate::moq_protocol::track_store::group_ok;
use crate::moq_protocol::track_store::latest_key;
use crate::moq_protocol::track_store::retained;
use crate::moq_protocol::track_store::selected;
use crate::moq_protocol::track_store::started;
use crate::moq_protocol::track_store::too_old;
use crate::moq_protocol::track_store::track_wf;

verus! {

/// Every namespace is a prefix of itself.
pub proof fn lemma_prefix_reflexive(a: Seq<Seq<char>>)
    ensures
        namespace_prefix(a, a),
{
}

/// A prefix of a prefix is a prefix.
pub proof fn lemma_prefix_transitive(a: Seq<Seq<char>>, b: Seq<Seq<char>>, c: Seq<Seq<char>>)
    requires
        namespace_prefix(a, b),
        namespace_prefix(b, c),
    ensures
        namespace_prefix(a, c),
{
}

/// Two namespaces that are prefixes of each other hold the same components.
pub proof fn lemma_prefix_antisymmetric(a: Seq<Seq<char>>, b: Seq<Seq<char>>)
    requires
        namespace_prefix(a, b),
        namespace_prefix(b, a),
    ensures
        a == b,
{
    assert(a =~= b);
}

/// Of deliveries of which the first `k` have expired and the next has not,
/// that one is the first that is live.
proof fn lemma_first_live(q: Seq<PendingModel>, now: u64, k: int)
    requires
        0 <= k < q.len(),
        forall|i: int| 0 <= i < k ==> q[i].object.expired_at(now),
        !q[k].object.expired_at(now),
    ensures
        live_at(q, now).len() > 0,
        live_at(q, now)[0] == q[k],
{
    let pred = |d: PendingModel| !d.object.expired_at(now);
    let gone = q.take(k);
    let rest = q.skip(k);
    assert(q =~= gone + rest);
    Seq::filter_distributes_over_add(gone, rest, pred);
    assert(gone.all(|d: PendingModel| !pred(d)));
    gone.lemma_all_neg_filter_empty(pred);
    assert(rest =~= seq![q[k]] + rest.skip(1));
    rest.skip(1).lemma_filter_prepend(q[k], pred);
    assert(gone.filter(pred) + rest.filter(pred) =~= rest.filter(pred));
}

/// An object queued with a lower number than the one queued after it is the
/// next to leave, where the queue has room for it behind the deliveries
/// that are as urgent or more, those have all expired when it is taken,
/// and the object itself has not.
pub proof fn lemma_urgent_leaves_first(
    q: Seq<PendingModel>,
    urgent: ObjectModel,
    urgent_priority: u8,
    other: ObjectModel,
    other_priority: u8,
    capacity: nat,
    now: u64,
)
    requires
        urgent_priority < other_priority,
        !urgent.expired_at(now),
        insert_position(q, urgent_priority) < capacity,
        forall|i: int| 0 <= i < insert_position(q, urgent_priority) ==> q[i].object.expired_at(now),
    ensures
        dequeued(
            enqueued(
                enqueued(q, delivery_of(urgent, urgent_priority), capacity),
                delivery_of(other, other_priority),
                capacity,
            ),
            now,
        ).0 == Some(urgent),
{
    let first = delivery_of(urgent, urgent_priority);
    let second = delivery_of(other, other_priority);
    lemma_insert_position(q, urgent_priority);
    let ahead = insert_position(q, urgent_priority);
    let q1 = enqueued(q, first, capacity);
    assert(q1.len() > ahead && q1[ahead] == first);
    assert forall|i: int| 0 <= i < ahead implies q1[i] == q[i] by {}
    lemma_insert_position(q1, other_priority);
    let pos = insert_position(q1, other_priority);
    assert(pos > ahead) by {
        if pos <= ahead {
            assert(q1[pos].effective_priority > other_priority);
            if pos < ahead {
                assert(q[pos].effective_priority <= urgent_priority);
            }
        }
    }
    let q2 = enqueued(q1, second, capacity);
    assert(q2.len() > ahead && q2[ahead] == first);
    assert forall|i: int| 0 <= i < ahead implies q2[i].object.expired_at(now) by {
        assert(q2[i] == q[i]);
    }
    lemma_first_live(q2, now, ahead);
}

/// Under pressure the least urgent leave first: what an enqueue on a full
/// queue makes leave is no more urgent than anything that stays.
pub proof fn lemma_overflow_takes_least_urgent(
    q: Seq<PendingModel>,
    item: PendingModel,
    capacity: nat,
    stays: int,
    leaves: int,
)
    requires
        sorted_by_priority(q),
        0 <= stays < enqueued(q, item, capacity).len(),
        enqueued(q, item, capacity).len() <= leaves <= q.len(),
    ensures
        ({
            let grown = q.insert(insert_position(q, item.effective_priority), item);
            &&& enqueued(q, item, capacity)[stays] == grown[stays]
            &&& grown[stays].effective_priority <= grown[leaves].effective_priority
        }),
{
    let grown = q.insert(insert_position(q, item.effective_priority), item);
    lemma_insert_position(q, item.effective_priority);
    lemma_enqueued_sorted(q, item, grown.len());
    assert(enqueued(q, item, grown.len()) == grown);
}

/// A dequeue drops only what has expired: a delivery that is live is the
/// one handed out, or it is still pending afterwards.
pub proof fn lemma_dequeue_keeps_the_live(q: Seq<PendingModel>, now: u64, i: int)
    requires
        0 <= i < q.len(),
        !q[i].object.expired_at(now),
    ensures
        dequeued(q, now).0 == Some(q[i].object) || dequeued(q, now).1.contains(q[i]),
{
    let pred = |d: PendingModel| !d.object.expired_at(now);
    q.lemma_filter_contains(pred, i);
    let live = live_at(q, now);
    let k = choose|k: int| 0 <= k < live.len() && live[k] == q[i];
    if k > 0 {
        assert(live.skip(1)[k - 1] == q[i]);
    }
}

/// `a` stands before `b` by group id, then by object id.
pub open spec fn key_before(a: ObjectModel, b: ObjectModel) -> bool {
    a.group_id < b.group_id || (a.group_id == b.group_id && a.object_id < b.object_id)
}

/// Keys rise strictly from the first to the last.
pub open spec fn rising(s: Seq<ObjectModel>) -> bool {
    forall|i: int, j: int| 0 <= i < j < s.len() ==> key_before(s[i], s[j])
}

/// Keys fall strictly from the first to the last.
pub open spec fn falling(s: Seq<ObjectModel>) -> bool {
    forall|i: int, j: int| 0 <= i < j < s.len() ==> key_before(s[j], s[i])
}

/// No retained object belongs to a group above the last one.
proof fn lemma_all_objects_bound(groups: Seq<GroupModel>, next_group_id: u64)
    requires
        groups.len() > 0,
        ascending(groups),
        forall|k: int| 0 <= k < groups.len() ==> group_ok(#[trigger] groups[k], next_group_id),
    ensures
        forall|i: int|
            0 <= i < all_objects(groups).len() ==> (#[trigger] all_objects(groups)[i]).group_id
                <= groups.last().group_id,
    decreases groups.len(),
{
    let init = groups.drop_last();
    let last = groups.last();
    assert(group_ok(groups[groups.len() - 1], next_group_id));
    if init.len() > 0 {
        assert forall|k: int| 0 <= k < init.len() implies group_ok(
            #[trigger] init[k],
            next_group_id,
        ) by {
            assert(init[k] == groups[k]);
        }
        lemma_all_objects_bound(init, next_group_id);
        assert(init.last() == groups[groups.len() - 2]);
    } else {
        assert(all_objects(init) =~= Seq::empty());
    }
    assert forall|i: int| 0 <= i < all_objects(groups).len() implies (#[trigger] all_objects(
        groups,
    )[i]).group_id <= last.group_id by {
        if i < all_objects(init).len() {
            assert(all_objects(groups)[i] == all_objects(init)[i]);
        } else {
            assert(all_objects(groups)[i] == last.objects[i - all_objects(init).len()]);
        }
    }
}

/// The retained objects of a track stand by strictly rising group and
/// object id.
pub proof fn lemma_all_objects_rising(groups: Seq<GroupModel>, next_group_id: u64)
    requires
        ascending(groups),
        forall|k: int| 0 <= k < groups.len() ==> group_ok(#[trigger] groups[k], next_group_id),
    ensures
        rising(all_objects(groups)),
    decreases groups.len(),
{
    if groups.len() > 0 {
        let init = groups.drop_last();
        let last = groups.last();
        assert(group_ok(groups[groups.len() - 1], next_group_id));
        assert forall|k: int| 0 <= k < init.len() implies group_ok(
            #[trigger] init[k],
            next_group_id,
        ) by {
            assert(init[k] == groups[k]);
        }
        lemma_all_objects_rising(init, next_group_id);
        if init.len() > 0 {
            lemma_all_objects_bound(init, next_group_id);
            assert(init.last() == groups[groups.len() - 2]);
        } else {
            assert(all_objects(init) =~= Seq::empty());
        }
        let all = all_objects(groups);
        let head = all_objects(init);
        assert forall|i: int, j: int| 0 <= i < j < all.len() implies key_before(all[i], all[j]) by {
            if j < head.len() {
                assert(all[i] == head[i] && all[j] == head[j]);
            } else if i < head.len() {
                assert(all[i] == head[i]);
                assert(all[j] == last.objects[j - head.len()]);
            } else {
                assert(all[i] == last.objects[i - head.len()]);
                assert(all[j] == last.objects[j - head.len()]);
            }
        }
    }
}

/// No two retained objects of a track share group id and object id.
pub proof fn lemma_object_ids_unique(t: TrackModel, max_groups: nat, a: int, b: int)
    requires
        track_wf(t, max_groups),
        0 <= a < all_objects(t.groups).len(),
        0 <= b < all_objects(t.groups).len(),
        a != b,
    ensures
        all_objects(t.groups)[a].group_id != all_objects(t.groups)[b].group_id || all_objects(
            t.groups,
        )[a].object_id != all_objects(t.groups)[b].object_id,
{
    lemma_all_objects_rising(t.groups, t.next_group_id);
    if a < b {
        assert(key_before(all_objects(t.groups)[a], all_objects(t.groups)[b]));
    } else {
        assert(key_before(all_objects(t.groups)[b], all_objects(t.groups)[a]));
    }
}

/// Choosing from a rising run keeps it rising.
pub proof fn lemma_filter_rising(s: Seq<ObjectModel>, pred: spec_fn(ObjectModel) -> bool)
    requires
        rising(s),
    ensures
        rising(s.filter(pred)),
    decreases s.len(),
{
    if s.len() == 0 {
        s.lemma_filter_len(pred);
    } else {
        let init = s.drop_last();
        let last = s.last();
        assert(s =~= init.push(last));
        assert(rising(init)) by {
            assert forall|i: int, j: int| 0 <= i < j < init.len() implies key_before(
                init[i],
                init[j],
            ) by {
                assert(init[i] == s[i] && init[j] == s[j]);
            }
        }
        lemma_filter_rising(init, pred);
        init.lemma_filter_push(last, pred);
        let chosen = init.filter(pred);
        assert forall|i: int| 0 <= i < chosen.len() implies key_before(chosen[i], last) by {
            assert(chosen.contains(chosen[i]));
            init.lemma_filter_contains_rev(pred, chosen[i]);
            let j = choose|j: int| 0 <= j < init.len() && init[j] == chosen[i];
            assert(init[j] == s[j]);
        }
    }
}

/// An answer holds exactly the retained objects that the filter selects and
/// that have not expired.
pub proof fn lemma_selected_members(
    objects: Seq<ObjectModel>,
    filter: FilterType,
    order: GroupOrder,
    now: u64,
    x: ObjectModel,
)
    ensures
        selected(objects, filter, order, now).contains(x) <==> (objects.contains(x)
            && filter_selects(filter, latest_key(objects), x) && !x.expired_at(now)),
{
    let latest = latest_key(objects);
    let pred = |o: ObjectModel| filter_selects(filter, latest, o) && !o.expired_at(now);
    let chosen = objects.filter(pred);
    let answer = selected(objects, filter, order, now);
    assert(answer.contains(x) <==> chosen.contains(x)) by {
        if order is Descending {
            if chosen.contains(x) {
                let i = choose|i: int| 0 <= i < chosen.len() && chosen[i] == x;
                assert(chosen.reverse()[chosen.len() - 1 - i] == x);
            }
            if chosen.reverse().contains(x) {
                let i = choose|i: int| 0 <= i < chosen.reverse().len() && chosen.reverse()[i] == x;
                assert(chosen[chosen.len() - 1 - i] == x);
            }
        }
    }
    if chosen.contains(x) {
        objects.lemma_filter_contains_rev(pred, x);
        let i = choose|i: int| 0 <= i < chosen.len() && chosen[i] == x;
        objects.lemma_filter_pred(pred, i);
    }
    if objects.contains(x) && pred(x) {
        let j = choose|j: int| 0 <= j < objects.len() && objects[j] == x;
        objects.lemma_filter_contains(pred, j);
    }
}

/// An answer stands by strictly rising group and object id, or by strictly
/// falling ones where the order asked for is descending.
pub proof fn lemma_selected_order(t: TrackModel, max_groups: nat, filter: FilterType, order: GroupOrder, now: u64)
    requires
        track_wf(t, max_groups),
    ensures
        order is Descending ==> falling(selected(all_objects(t.groups), filter, order, now)),
        !(order is Descending) ==> rising(selected(all_objects(t.groups), filter, order, now)),
{
    let objects = all_objects(t.groups);
    lemma_all_objects_rising(t.groups, t.next_group_id);
    let latest = latest_key(objects);
    let pred = |o: ObjectModel| filter_selects(filter, latest, o) && !o.expired_at(now);
    lemma_filter_rising(objects, pred);
    let chosen = objects.filter(pred);
    if order is Descending {
        let r = chosen.reverse();
        assert forall|i: int, j: int| 0 <= i < j < r.len() implies key_before(r[j], r[i]) by {
            assert(r[i] == chosen[chosen.len() - 1 - i]);
            assert(r[j] == chosen[chosen.len() - 1 - j]);
        }
    }
}

/// One change of a track.
pub enum TrackStep {
    /// A group is started at `now`.
    Start { now: u64 },
    /// An object with `payload` is added at `now` to the group `group_id`,
    /// if the track still takes objects for it.
    Add { group_id: u64, subgroup_id: u64, payload: Seq<u8>, now: u64 },
    /// The group `group_id` is ended at `now`, if the track still takes
    /// objects for it.
    End { group_id: u64, now: u64 },
}

/// The object that a change hands back: the added object or the marker,
/// numbered by the objects that its group holds, where the track takes it;
/// nothing for a start and where the track takes no object for the group.
pub open spec fn answer(t: TrackModel, s: TrackStep) -> Option<ObjectModel> {
    match s {
        TrackStep::Start { .. } => None,
        TrackStep::Add { group_id, subgroup_id, payload, now } => if accepts(t, group_id) {
            Some(
                fresh_object(
                    group_id,
                    subgroup_id,
                    t.groups[group_position(t.groups, group_id)].objects.len() as u64,
                    payload,
                    now,
                ),
            )
        } else {
            None
        },
        TrackStep::End { group_id, now } => if accepts(t, group_id) {
            Some(
                end_marker(
                    group_id,
                    t.groups[group_position(t.groups, group_id)].objects.len() as u64,
                    now,
                ),
            )
        } else {
            None
        },
    }
}

/// The track after one change, as `TrackStore::start_group_at`,
/// `add_object_at` and `end_group_at` make it.
pub open spec fn step(t: TrackModel, s: TrackStep, max_age_ms: u64, max_groups: nat) -> TrackModel {
    match s {
        TrackStep::Start { now } => started(t, now, max_age_ms, max_groups),
        TrackStep::Add { .. } => match answer(t, s) {
            Some(o) => appended(t, o),
            None => t,
        },
        TrackStep::End { .. } => match answer(t, s) {
            Some(o) => ended(t, o),
            None => t,
        },
    }
}

/// The track after the changes `steps`, made in order.
pub open spec fn run(t: TrackModel, steps: Seq<TrackStep>, max_age_ms: u64, max_groups: nat) -> TrackModel
    decreases steps.len(),
{
    if steps.len() == 0 {
        t
    } else {
        step(run(t, steps.drop_last(), max_age_ms, max_groups), steps.last(), max_age_ms, max_groups)
    }
}

/// The objects that the changes `steps` hand back, in order.
pub open spec fn handed(t: TrackModel, steps: Seq<TrackStep>, max_age_ms: u64, max_groups: nat) -> Seq<
    ObjectModel,
>
    decreases steps.len(),
{
    if steps.len() == 0 {
        Seq::empty()
    } else {
        let before = handed(t, steps.drop_last(), max_age_ms, max_groups);
        match answer(run(t, steps.drop_last(), max_age_ms, max_groups), steps.last()) {
            Some(o) => before.push(o),
            None => before,
        }
    }
}

/// Number of group starts among `steps`.
pub open spec fn starts_in(steps: Seq<TrackStep>) -> nat
    decreases steps.len(),
{
    if steps.len() == 0 {
        0
    } else {
        starts_in(steps.drop_last()) + if steps.last() is Start {
            1nat
        } else {
            0nat
        }
    }
}

/// The times of the group starts among `steps`, in order.
pub open spec fn start_times(steps: Seq<TrackStep>) -> Seq<u64>
    decreases steps.len(),
{
    if steps.len() == 0 {
        Seq::empty()
    } else {
        match steps.last() {
            TrackStep::Start { now } => start_times(steps.drop_last()).push(now),
            _ => start_times(steps.drop_last()),
        }
    }
}

/// The next group id rises by one with each start and by nothing else.
pub proof fn lemma_run_next_group_id(t: TrackModel, steps: Seq<TrackStep>, max_age_ms: u64, max_groups: nat)
    requires
        t.next_group_id + starts_in(steps) <= u64::MAX,
    ensures
        run(t, steps, max_age_ms, max_groups).next_group_id == t.next_group_id + starts_in(steps),
    decreases steps.len(),
{
    if steps.len() > 0 {
        lemma_run_next_group_id(t, steps.drop_last(), max_age_ms, max_groups);
    }
}

/// Of two starts of a group on one track, the later hands out the greater
/// id, whatever was started, added or ended between them.
pub proof fn lemma_group_ids_rise(
    t: TrackModel,
    first_now: u64,
    between: Seq<TrackStep>,
    max_age_ms: u64,
    max_groups: nat,
)
    requires
        t.next_group_id + 1 + starts_in(between) <= u64::MAX,
    ensures
        t.next_group_id < run(
            started(t, first_now, max_age_ms, max_groups),
            between,
            max_age_ms,
            max_groups,
        ).next_group_id,
{
    lemma_run_next_group_id(
        started(t, first_now, max_age_ms, max_groups),
        between,
        max_age_ms,
        max_groups,
    );
}

/// Choosing among groups whose ids rise keeps the ids rising.
proof fn lemma_filter_ascending(s: Seq<GroupModel>, pred: spec_fn(GroupModel) -> bool)
    requires
        ascending(s),
    ensures
        ascending(s.filter(pred)),
    decreases s.len(),
{
    if s.len() == 0 {
        s.lemma_filter_len(pred);
    } else {
        let init = s.drop_last();
        let last = s.last();
        assert(s =~= init.push(last));
        assert(ascending(init)) by {
            assert forall|i: int, j: int| 0 <= i < j < init.len() implies init[i].group_id
                < init[j].group_id by {
                assert(init[i] == s[i] && init[j] == s[j]);
            }
        }
        lemma_filter_ascending(init, pred);
        init.lemma_filter_push(last, pred);
        let chosen = init.filter(pred);
        assert forall|i: int| 0 <= i < chosen.len() implies chosen[i].group_id < last.group_id by {
            assert(chosen.contains(chosen[i]));
            init.lemma_filter_contains_rev(pred, chosen[i]);
            let j = choose|j: int| 0 <= j < init.len() && init[j] == chosen[i];
            assert(init[j] == s[j]);
        }
    }
}

/// What stays at a group boundary was there before it: the groups that
/// stay are among the groups, no more than the limit, and their ids rise
/// where the ids rose.
proof fn lemma_retained(groups: Seq<GroupModel>, now: u64, max_age_ms: u64, max_groups: nat)
    requires
        ascending(groups),
    ensures
        retained(groups, now, max_age_ms, max_groups).len() <= max_groups,
        ascending(retained(groups, now, max_age_ms, max_groups)),
        forall|i: int|
            0 <= i < retained(groups, now, max_age_ms, max_groups).len() ==> groups.contains(
                #[trigger] retained(groups, now, max_age_ms, max_groups)[i],
            ),
{
    let pred = |g: GroupModel| !too_old(g, now, max_age_ms);
    let young = groups.filter(pred);
    let r = retained(groups, now, max_age_ms, max_groups);
    lemma_filter_ascending(groups, pred);
    let cut = if young.len() > max_groups {
        young.len() - max_groups
    } else {
        0
    };
    assert(r =~= young.skip(cut));
    assert forall|i: int, j: int| 0 <= i < j < r.len() implies r[i].group_id < r[j].group_id by {
        assert(r[i] == young[i + cut] && r[j] == young[j + cut]);
    }
    assert forall|i: int| 0 <= i < r.len() implies groups.contains(#[trigger] r[i]) by {
        assert(r[i] == young[i + cut]);
        assert(young.contains(young[i + cut]));
        groups.lemma_filter_contains_rev(pred, young[i + cut]);
    }
}

/// Whether the objects `objects`, handed back so far, and the track `t`
/// after `done` changes fit together: the track keeps its rules; no group
/// id and no object count has outrun the changes; every object handed back
/// lies under the next group id and, where its group is retained, under
/// the group's object count; and no two of them share group and object id.
pub open spec fn history_ok(t: TrackModel, objects: Seq<ObjectModel>, done: nat, max_groups: nat) -> bool {
    &&& track_wf(t, max_groups)
    &&& t.next_group_id <= done
    &&& forall|p: int| 0 <= p < t.groups.len() ==> (#[trigger] t.groups[p]).objects.len() <= done
    &&& forall|i: int| 0 <= i < objects.len() ==> (#[trigger] objects[i]).group_id < t.next_group_id
    &&& forall|i: int, p: int|
        0 <= i < objects.len() && 0 <= p < t.groups.len() && (#[trigger] t.groups[p]).group_id
            == (#[trigger] objects[i]).group_id ==> objects[i].object_id < t.groups[p].objects.len()
    &&& forall|i: int, j: int|
        0 <= i < j < objects.len() ==> (#[trigger] objects[i]).group_id != (
        #[trigger] objects[j]).group_id || objects[i].object_id != objects[j].object_id
}

/// A start keeps track and handed objects fitting together.
proof fn lemma_start_keeps_history(
    t: TrackModel,
    objects: Seq<ObjectModel>,
    done: nat,
    now: u64,
    max_age_ms: u64,
    max_groups: nat,
)
    requires
        history_ok(t, objects, done, max_groups),
        done < u64::MAX,
    ensures
        history_ok(started(t, now, max_age_ms, max_groups), objects, done + 1, max_groups),
{
    let opened = GroupModel {
        group_id: t.next_group_id,
        objects: Seq::empty(),
        is_complete: false,
        created_at: now,
    };
    let grown = all_complete(t.groups).push(opened);
    let after = started(t, now, max_age_ms, max_groups);
    assert(ascending(grown)) by {
        assert forall|i: int, j: int| 0 <= i < j < grown.len() implies grown[i].group_id
            < grown[j].group_id by {
            assert(group_ok(t.groups[i], t.next_group_id));
        }
    }
    lemma_retained(grown, now, max_age_ms, max_groups);
    assert forall|p: int| 0 <= p < after.groups.len() implies {
        &&& group_ok(#[trigger] after.groups[p], after.next_group_id)
        &&& after.groups[p].objects.len() <= done + 1
        &&& forall|i: int|
            0 <= i < objects.len() && after.groups[p].group_id == (#[trigger] objects[i]).group_id
                ==> objects[i].object_id < after.groups[p].objects.len()
    } by {
        assert(grown.contains(after.groups[p]));
        let k = choose|k: int| 0 <= k < grown.len() && grown[k] == after.groups[p];
        if k < t.groups.len() {
            assert(group_ok(t.groups[k], t.next_group_id));
            assert(grown[k].objects == t.groups[k].objects);
            assert(grown[k].group_id == t.groups[k].group_id);
        }
    }
}

/// An object that is added or a marker that ends a group keeps track and
/// handed objects fitting together.
proof fn lemma_object_keeps_history(
    t: TrackModel,
    objects: Seq<ObjectModel>,
    done: nat,
    s: TrackStep,
    max_age_ms: u64,
    max_groups: nat,
)
    requires
        history_ok(t, objects, done, max_groups),
        done < u64::MAX,
        !(s is Start),
    ensures
        history_ok(
            step(t, s, max_age_ms, max_groups),
            match answer(t, s) {
                Some(o) => objects.push(o),
                None => objects,
            },
            done + 1,
            max_groups,
        ),
{
    match answer(t, s) {
        None => {},
        Some(o) => {
            let pos = group_position(t.groups, o.group_id);
            let after = step(t, s, max_age_ms, max_groups);
            let all = objects.push(o);
            let count = t.groups[pos].objects.len();
            lemma_group_position(t.groups, o.group_id);
            assert(group_ok(t.groups[pos], t.next_group_id));
            assert(o.object_id == count);
            assert(after.groups.len() == t.groups.len());
            assert forall|p: int| 0 <= p < after.groups.len() implies {
                &&& (#[trigger] after.groups[p]).group_id == t.groups[p].group_id
                &&& after.groups[p].objects.len() >= t.groups[p].objects.len()
                &&& after.groups[p].objects.len() <= done + 1
                &&& group_ok(after.groups[p], after.next_group_id)
                &&& (p == pos ==> after.groups[p].objects.len() == count + 1)
            } by {
                assert(group_ok(t.groups[p], t.next_group_id));
                if p == pos {
                    assert(after.groups[p].objects =~= t.groups[p].objects.push(o));
                }
            }
            assert(ascending(after.groups)) by {
                assert forall|i: int, j: int| 0 <= i < j < after.groups.len() implies after.groups[i].group_id
                    < after.groups[j].group_id by {
                    assert(after.groups[i].group_id == t.groups[i].group_id);
                    assert(after.groups[j].group_id == t.groups[j].group_id);
                }
            }
            assert forall|i: int, p: int|
                0 <= i < all.len() && 0 <= p < after.groups.len() && (#[trigger] after.groups[p]).group_id
                    == (#[trigger] all[i]).group_id implies all[i].object_id
                < after.groups[p].objects.len() by {
                assert(after.groups[p].group_id == t.groups[p].group_id);
                if i < objects.len() {
                    assert(all[i] == objects[i]);
                } else {
                    // The group of the new object stands at one place only.
                    if p != pos {
                        if p < pos {
                            assert(t.groups[p].group_id < t.groups[pos].group_id);
                        } else {
                            assert(t.groups[pos].group_id < t.groups[p].group_id);
                        }
                    }
                }
            }
            assert forall|i: int, j: int| 0 <= i < j < all.len() implies (#[trigger] all[i]).group_id
                != (#[trigger] all[j]).group_id || all[i].object_id != all[j].object_id by {
                if j < objects.len() {
                    assert(all[i] == objects[i] && all[j] == objects[j]);
                } else {
                    assert(all[i] == objects[i]);
                    if objects[i].group_id == o.group_id {
                        assert(t.groups[pos].group_id == objects[i].group_id);
                        assert(objects[i].object_id < count);
                    }
                }
            }
            assert forall|i: int| 0 <= i < all.len() implies (#[trigger] all[i]).group_id
                < after.next_group_id by {
                if i < objects.len() {
                    assert(all[i] == objects[i]);
                }
            }
        },
    }
}

/// Where a group stands among groups: under the number of groups only if a
/// group has the id, and then at the first such group.
proof fn lemma_group_position(groups: Seq<GroupModel>, group_id: u64)
    ensures
        0 <= group_position(groups, group_id) <= groups.len(),
        group_position(groups, group_id) < groups.len() ==> groups[group_position(
            groups,
            group_id,
        )].group_id == group_id,
    decreases groups.len(),
{
    if groups.len() == 0 || groups[0].group_id == group_id {
    } else {
        let t = groups.skip(1);
        lemma_group_position(t, group_id);
        if group_position(t, group_id) < t.len() {
            assert(t[group_position(t, group_id)] == groups[group_position(t, group_id) + 1]);
        }
    }
}

/// After any changes of a new track, the track and the objects handed
/// back fit together.
pub proof fn lemma_history(
    namespace: Seq<Seq<char>>,
    track_name: Seq<char>,
    steps: Seq<TrackStep>,
    max_age_ms: u64,
    max_groups: nat,
)
    requires
        steps.len() <= u64::MAX,
    ensures
        history_ok(
            run(fresh_track(namespace, track_name), steps, max_age_ms, max_groups),
            handed(fresh_track(namespace, track_name), steps, max_age_ms, max_groups),
            steps.len(),
            max_groups,
        ),
    decreases steps.len(),
{
    let fresh = fresh_track(namespace, track_name);
    if steps.len() > 0 {
        let earlier = steps.drop_last();
        lemma_history(namespace, track_name, earlier, max_age_ms, max_groups);
        let t = run(fresh, earlier, max_age_ms, max_groups);
        let objects = handed(fresh, earlier, max_age_ms, max_groups);
        match steps.last() {
            TrackStep::Start { now } => {
                lemma_start_keeps_history(t, objects, earlier.len(), now, max_age_ms, max_groups);
            },
            _ => {
                lemma_object_keeps_history(
                    t,
                    objects,
                    earlier.len(),
                    steps.last(),
                    max_age_ms,
                    max_groups,
                );
            },
        }
    }
}

/// No two objects that a track has ever handed back share group id and
/// object id, whatever was started, added, ended or evicted between them.
pub proof fn lemma_handed_ids_unique(
    namespace: Seq<Seq<char>>,
    track_name: Seq<char>,
    steps: Seq<TrackStep>,
    max_age_ms: u64,
    max_groups: nat,
    a: int,
    b: int,
)
    requires
        steps.len() <= u64::MAX,
        0 <= a < b < handed(fresh_track(namespace, track_name), steps, max_age_ms, max_groups).len(),
    ensures
        ({
            let objects = handed(fresh_track(namespace, track_name), steps, max_age_ms, max_groups);
            objects[a].group_id != objects[b].group_id || objects[a].object_id != objects[b].object_id
        }),
{
    lemma_history(namespace, track_name, steps, max_age_ms, max_groups);
}

/// A choice that keeps the last `r` elements keeps them in their places,
/// behind what it chooses of the elements before them.
proof fn lemma_filter_keeps_tail(s: Seq<GroupModel>, pred: spec_fn(GroupModel) -> bool, r: int)
    requires
        0 <= r <= s.len(),
        forall|i: int| s.len() - r <= i < s.len() ==> pred(s[i]),
    ensures
        s.filter(pred) == s.take(s.len() - r).filter(pred) + s.skip(s.len() - r),
    decreases r,
{
    if r == 0 {
        assert(s.take(s.len() as int) =~= s);
        assert(s.filter(pred) + s.skip(s.len() as int) =~= s.filter(pred));
    } else {
        let init = s.drop_last();
        assert(s =~= init.push(s.last()));
        assert forall|i: int| init.len() - (r - 1) <= i < init.len() implies pred(init[i]) by {
            assert(init[i] == s[i]);
        }
        lemma_filter_keeps_tail(init, pred, r - 1);
        init.lemma_filter_push(s.last(), pred);
        assert(init.take(init.len() - (r - 1)) =~= s.take(s.len() - r));
        assert(init.skip(init.len() - (r - 1)).push(s.last()) =~= s.skip(s.len() - r));
        assert(s.filter(pred) =~= s.take(s.len() - r).filter(pred) + s.skip(s.len() - r));
    }
}

/// The groups started from the `lo`-th start on stand at the end of the
/// track's groups, in the order of their start, and every group before
/// them was started earlier.
spec fn holds_from(t: TrackModel, times: Seq<u64>, lo: int) -> bool {
    let w = times.len() - lo;
    let first = t.groups.len() - w;
    &&& first >= 0
    &&& forall|k: int|
        0 <= k < w ==> (#[trigger] t.groups[first + k]).group_id == lo + k && t.groups[first + k].created_at
            == times[lo + k]
    &&& forall|k: int| 0 <= k < first ==> (#[trigger] t.groups[k]).group_id < lo
}

/// After any changes of a new track, the groups started from the `lo`-th
/// start on are all held, where they are no more than the limit and none
/// of them had outlived the retention age when a later one started.
proof fn lemma_recent_groups(
    namespace: Seq<Seq<char>>,
    track_name: Seq<char>,
    steps: Seq<TrackStep>,
    max_age_ms: u64,
    max_groups: nat,
    lo: int,
)
    requires
        start_times(steps).len() <= u64::MAX,
        0 <= lo <= start_times(steps).len(),
        start_times(steps).len() - lo <= max_groups,
        forall|i: int, j: int|
            lo <= i < j < start_times(steps).len() ==> start_times(steps)[i] + max_age_ms >= start_times(
                steps,
            )[j],
    ensures
        ({
            let t = run(fresh_track(namespace, track_name), steps, max_age_ms, max_groups);
            &&& t.next_group_id == start_times(steps).len()
            &&& t.groups.len() <= max_groups
            &&& holds_from(t, start_times(steps), lo)
        }),
    decreases steps.len(),
{
    let fresh = fresh_track(namespace, track_name);
    if steps.len() > 0 {
        let before = steps.drop_last();
        let earlier = start_times(before);
        let times = start_times(steps);
        let prev = run(fresh, before, max_age_ms, max_groups);
        let t = run(fresh, steps, max_age_ms, max_groups);
        match steps.last() {
            TrackStep::Start { now } => {
                assert(times == earlier.push(now));
                let m = earlier.len() as int;
                let was = if lo <= m {
                    lo
                } else {
                    m
                };
                assert forall|i: int, j: int| was <= i < j < earlier.len() implies earlier[i] + max_age_ms
                    >= earlier[j] by {
                    assert(earlier[i] == times[i] && earlier[j] == times[j]);
                }
                lemma_recent_groups(namespace, track_name, before, max_age_ms, max_groups, was);
                let opened = GroupModel {
                    group_id: prev.next_group_id,
                    objects: Seq::empty(),
                    is_complete: false,
                    created_at: now,
                };
                let grown = all_complete(prev.groups).push(opened);
                let pred = |g: GroupModel| !too_old(g, now, max_age_ms);
                // The groups that are known to be young: those from `lo` on.
                let w = times.len() - lo;
                let cut = grown.len() - w;
                assert forall|i: int| cut <= i < grown.len() implies pred(grown[i]) by {
                    if i < prev.groups.len() {
                        let k = i - (prev.groups.len() - (m - was));
                        assert(prev.groups[prev.groups.len() - (m - was) + k].created_at == earlier[was + k]);
                        assert(earlier[was + k] == times[lo + k]);
                        assert(times[lo + k] + max_age_ms >= times[m]);
                    }
                }
                lemma_filter_keeps_tail(grown, pred, w);
                let head = grown.take(cut).filter(pred);
                let tail = grown.skip(cut);
                let young = grown.filter(pred);
                assert(young == head + tail);
                assert(t.groups == retained(grown, now, max_age_ms, max_groups));
                let d = if young.len() > max_groups {
                    young.len() - max_groups
                } else {
                    0
                };
                assert(t.groups =~= young.skip(d));
                assert(d <= head.len());
                let first = t.groups.len() - w;
                assert(first == head.len() - d);
                assert forall|k: int| 0 <= k < w implies (#[trigger] t.groups[first + k]).group_id == lo + k
                    && t.groups[first + k].created_at == times[lo + k] by {
                    assert(t.groups[first + k] == tail[k]);
                    assert(tail[k] == grown[cut + k]);
                    if cut + k < prev.groups.len() {
                        assert(prev.groups[prev.groups.len() - (m - was) + k].group_id == was + k);
                        assert(earlier[was + k] == times[lo + k]);
                    }
                }
                assert forall|k: int| 0 <= k < first implies (#[trigger] t.groups[k]).group_id < lo by {
                    let g = t.groups[k];
                    assert(g == head[d + k]);
                    assert(head.contains(g));
                    grown.take(cut).lemma_filter_contains_rev(pred, g);
                    let x = choose|x: int| 0 <= x < cut && grown.take(cut)[x] == g;
                    assert(grown[x] == g);
                    if x < prev.groups.len() {
                        assert(g.group_id == prev.groups[x].group_id);
                        if lo <= m {
                            assert(x < prev.groups.len() - (m - was));
                        } else {
                            assert(prev.groups[x].group_id < m);
                        }
                    }
                }
            },
            _ => {
                assert(times == earlier);
                lemma_recent_groups(namespace, track_name, before, max_age_ms, max_groups, lo);
                match answer(prev, steps.last()) {
                    None => {},
                    Some(o) => {
                        lemma_group_position(prev.groups, o.group_id);
                        assert forall|i: int| 0 <= i < t.groups.len() implies {
                            &&& (#[trigger] t.groups[i]).group_id == prev.groups[i].group_id
                            &&& t.groups[i].created_at == prev.groups[i].created_at
                        } by {}
                    },
                }
            },
        }
    }
}

/// After any changes of a new track, the track holds the most recent
/// groups and no more than the limit: all that were started while they are
/// no more than `max_groups`, else exactly `max_groups`. This holds where
/// none of those groups had outlived the retention age when a later group
/// started; a group that had is gone by its age.
pub proof fn lemma_retention(
    namespace: Seq<Seq<char>>,
    track_name: Seq<char>,
    steps: Seq<TrackStep>,
    max_age_ms: u64,
    max_groups: nat,
)
    requires
        start_times(steps).len() <= u64::MAX,
        forall|i: int, j: int|
            start_times(steps).len() - max_groups <= i && 0 <= i < j < start_times(steps).len()
                ==> start_times(steps)[i] + max_age_ms >= start_times(steps)[j],
    ensures
        ({
            let t = run(fresh_track(namespace, track_name), steps, max_age_ms, max_groups);
            let times = start_times(steps);
            &&& t.next_group_id == times.len()
            &&& t.groups.len() == if times.len() <= max_groups {
                times.len()
            } else {
                max_groups
            }
            &&& forall|i: int|
                0 <= i < t.groups.len() ==> {
                    &&& (#[trigger] t.groups[i]).group_id == times.len() - t.groups.len() + i
                    &&& t.groups[i].created_at == times[times.len() - t.groups.len() + i]
                }
        }),
{
    let t = run(fresh_track(namespace, track_name), steps, max_age_ms, max_groups);
    let times = start_times(steps);
    let lo: int = if times.len() <= max_groups {
        0
    } else {
        times.len() - max_groups
    };
    lemma_recent_groups(namespace, track_name, steps, max_age_ms, max_groups, lo);
    let w = times.len() - lo;
    let first = t.groups.len() - w;
    if first > 0 {
        assert(t.groups[0].group_id < lo);
    }
    assert(first == 0);
    assert forall|i: int| 0 <= i < t.groups.len() implies {
        &&& (#[trigger] t.groups[i]).group_id == times.len() - t.groups.len() + i
        &&& t.groups[i].created_at == times[times.len() - t.groups.len() + i]
    } by {
        assert(t.groups[first + i].group_id == lo + i);
    }
}

} // verus!
