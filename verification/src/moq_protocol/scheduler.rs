//! The bounded queue of pending deliveries, ordered by effective priority.

use vstd::prelude::*;
use crate::clock::now_millis;
use crate::moq_protocol::object::MoqObject;
use crate::moq_protocol::object::ObjectModel;

verus! {

/// One pending delivery, as mathematical values.
pub struct PendingModel {
    pub object: ObjectModel,
    pub subscriber_priority: u8,
    pub effective_priority: u8,
}

/// An object that waits for delivery.
#[derive(Debug, Clone)]
pub struct PendingDelivery {
    pub object: MoqObject,
    pub subscriber_priority: u8,
    /// The subscriber's priority: it takes precedence over the publisher's.
    pub effective_priority: u8,
}

impl View for PendingDelivery {
    type V = PendingModel;

    open spec fn view(&self) -> PendingModel {
        PendingModel {
            object: self.object@,
            subscriber_priority: self.subscriber_priority,
            effective_priority: self.effective_priority,
        }
    }
}

pub open spec fn pending_models(v: Seq<PendingDelivery>) -> Seq<PendingModel> {
    v.map_values(|d: PendingDelivery| d@)
}

/// Effective priorities never fall from the head to the tail.
pub open spec fn sorted_by_priority(q: Seq<PendingModel>) -> bool {
    forall|i: int, j: int| 0 <= i <= j < q.len() ==> q[i].effective_priority <= q[j].effective_priority
}

/// First position whose effective priority exceeds `priority`, or the length.
pub open spec fn insert_position(q: Seq<PendingModel>, priority: u8) -> int
    decreases q.len(),
{
    if q.len() == 0 || q[0].effective_priority > priority {
        0
    } else {
        1 + insert_position(q.skip(1), priority)
    }
}

/// The delivery that `enqueue` makes of an object.
pub open spec fn delivery_of(object: ObjectModel, subscriber_priority: u8) -> PendingModel {
    PendingModel { object, subscriber_priority, effective_priority: subscriber_priority }
}

/// The queue after an enqueue: the new delivery stands before the first one
/// of a higher number, and what no longer fits leaves at the tail.
pub open spec fn enqueued(q: Seq<PendingModel>, item: PendingModel, capacity: nat) -> Seq<PendingModel> {
    let grown = q.insert(insert_position(q, item.effective_priority), item);
    if grown.len() > capacity {
        grown.take(capacity as int)
    } else {
        grown
    }
}

/// The deliveries whose object has not expired at `now`, in order.
pub open spec fn live_at(q: Seq<PendingModel>, now: u64) -> Seq<PendingModel> {
    q.filter(|d: PendingModel| !d.object.expired_at(now))
}

/// The deliveries whose effective priority is at most `threshold`, in order.
pub open spec fn at_most(q: Seq<PendingModel>, threshold: u8) -> Seq<PendingModel> {
    q.filter(|d: PendingModel| d.effective_priority <= threshold)
}

/// What a dequeue at `now` hands out, and the queue it leaves: the expired
/// deliveries are gone, and so is the head of those that were live.
pub open spec fn dequeued(q: Seq<PendingModel>, now: u64) -> (Option<ObjectModel>, Seq<PendingModel>) {
    let live = live_at(q, now);
    if live.len() == 0 {
        (None, live)
    } else {
        (Some(live[0].object), live.skip(1))
    }
}

/// The model of an object that may be absent.
pub open spec fn object_option(r: Option<MoqObject>) -> Option<ObjectModel> {
    match r {
        Some(o) => Some(o@),
        None => None,
    }
}

/// Where a delivery of `priority` goes in: behind every delivery that is
/// as urgent or more, before the first that is less urgent.
pub proof fn lemma_insert_position(q: Seq<PendingModel>, priority: u8)
    ensures
        0 <= insert_position(q, priority) <= q.len(),
        forall|k: int| 0 <= k < insert_position(q, priority) ==> q[k].effective_priority <= priority,
        insert_position(q, priority) < q.len() ==> q[insert_position(q, priority)].effective_priority
            > priority,
    decreases q.len(),
{
    if q.len() == 0 || q[0].effective_priority > priority {
    } else {
        let t = q.skip(1);
        lemma_insert_position(t, priority);
        assert forall|k: int| 0 <= k < insert_position(q, priority) implies q[k].effective_priority
            <= priority by {
            if k > 0 {
                assert(t[k - 1] == q[k]);
            }
        }
        if insert_position(t, priority) < t.len() {
            assert(t[insert_position(t, priority)] == q[insert_position(t, priority) + 1]);
        }
    }
}

/// A delivery of `priority` goes in at `i` where every delivery before `i`
/// is as urgent or more and the one at `i`, if there is one, is less
/// urgent.
pub proof fn lemma_insert_position_is(q: Seq<PendingModel>, priority: u8, i: int)
    requires
        0 <= i <= q.len(),
        forall|k: int| 0 <= k < i ==> q[k].effective_priority <= priority,
        i < q.len() ==> q[i].effective_priority > priority,
    ensures
        insert_position(q, priority) == i,
    decreases q.len(),
{
    if q.len() == 0 || q[0].effective_priority > priority {
    } else {
        let t = q.skip(1);
        assert forall|k: int| 0 <= k < i - 1 implies t[k].effective_priority <= priority by {
            assert(t[k] == q[k + 1]);
        }
        if i - 1 < t.len() {
            assert(t[i - 1] == q[i]);
        }
        lemma_insert_position_is(t, priority, i - 1);
    }
}

/// An enqueue keeps a sorted queue sorted and within its capacity.
pub proof fn lemma_enqueued_sorted(q: Seq<PendingModel>, item: PendingModel, capacity: nat)
    requires
        sorted_by_priority(q),
    ensures
        sorted_by_priority(enqueued(q, item, capacity)),
        enqueued(q, item, capacity).len() <= capacity,
        enqueued(q, item, capacity).len() == if q.len() + 1 <= capacity {
            q.len() + 1
        } else {
            capacity
        },
{
    let pos = insert_position(q, item.effective_priority);
    lemma_insert_position(q, item.effective_priority);
    let grown = q.insert(pos, item);
    assert forall|i: int, j: int| 0 <= i <= j < grown.len() implies grown[i].effective_priority
        <= grown[j].effective_priority by {
        if i < pos && j > pos {
            assert(grown[j] == q[j - 1]);
        }
        if i == pos && j > pos {
            assert(grown[j] == q[j - 1]);
            assert(q[pos].effective_priority <= q[j - 1].effective_priority);
        }
    }
}

/// Which deliveries a purge keeps.
pub enum Keep {
    /// Those whose object has not expired at `now`.
    Live { now: u64 },
    /// Those whose effective priority is at most `threshold`.
    AtMost { threshold: u8 },
}

pub open spec fn keeps(keep: Keep, d: PendingModel) -> bool {
    match keep {
        Keep::Live { now } => !d.object.expired_at(now),
        Keep::AtMost { threshold } => d.effective_priority <= threshold,
    }
}

/// Removing one position keeps a sorted queue sorted.
proof fn lemma_remove_sorted(q: Seq<PendingModel>, i: int)
    requires
        sorted_by_priority(q),
        0 <= i < q.len(),
    ensures
        sorted_by_priority(q.remove(i)),
{
    let r = q.remove(i);
    assert forall|a: int, b: int| 0 <= a <= b < r.len() implies r[a].effective_priority
        <= r[b].effective_priority by {
        let a0 = if a < i { a } else { a + 1 };
        let b0 = if b < i { b } else { b + 1 };
        assert(r[a] == q[a0]);
        assert(r[b] == q[b0]);
    }
}

/// Takes out of `pending` every delivery that `keep` does not keep.
fn purge(pending: &mut Vec<PendingDelivery>, keep: Keep)
    ensures
        pending_models(final(pending)@) == pending_models(old(pending)@).filter(
            |d: PendingModel| keeps(keep, d),
        ),
        sorted_by_priority(pending_models(old(pending)@)) ==> sorted_by_priority(
            pending_models(final(pending)@),
        ),
        final(pending)@.len() <= old(pending)@.len(),
{
    let ghost before = pending_models(pending@);
    let ghost pred = |d: PendingModel| keeps(keep, d);
    let ghost mut done: int = 0;
    let mut i: usize = 0;
    proof {
        assert(before.take(0) =~= Seq::empty());
        Seq::<PendingModel>::empty().lemma_all_neg_filter_empty(pred);
        assert(before.take(0).filter(pred) + before.skip(0) =~= before);
    }
    while i < pending.len()
        invariant
            before == pending_models(old(pending)@),
            pred == (|d: PendingModel| keeps(keep, d)),
            0 <= done <= before.len(),
            0 <= i <= pending@.len(),
            i == before.take(done).filter(pred).len(),
            pending_models(pending@) == before.take(done).filter(pred) + before.skip(done),
            sorted_by_priority(before) ==> sorted_by_priority(pending_models(pending@)),
            pending@.len() <= old(pending)@.len(),
        decreases before.len() - done,
    {
        let ghost current = pending_models(pending@);
        proof {
            assert(current[i as int] == before.skip(done)[0]);
            assert(before.take(done + 1) =~= before.take(done).push(before[done]));
            before.take(done).lemma_filter_push(before[done], pred);
        }
        let kept = match keep {
            Keep::Live { now } => !pending[i].object.is_expired_at(now),
            Keep::AtMost { threshold } => pending[i].effective_priority <= threshold,
        };
        assert(kept == pred(before[done]));
        if kept {
            proof {
                assert(before.take(done + 1).filter(pred) + before.skip(done + 1) =~= current);
            }
            i = i + 1;
        } else {
            pending.remove(i);
            proof {
                assert(pending_models(pending@) =~= current.remove(i as int));
                assert(current.remove(i as int) =~= before.take(done + 1).filter(pred) + before.skip(
                    done + 1,
                ));
                if sorted_by_priority(before) {
                    lemma_remove_sorted(current, i as int);
                }
            }
        }
        proof {
            done = done + 1;
        }
    }
    proof {
        assert(before.skip(done) =~= Seq::empty()) by {
            before.take(done).lemma_filter_len(pred);
        }
        assert(done == before.len()) by {
            before.take(done).lemma_filter_len(pred);
        }
        assert(before.take(done) =~= before);
        assert(before.filter(pred) + Seq::<PendingModel>::empty() =~= before.filter(pred));
    }
}

/// Deliveries pending for one outbound path, most urgent first.
pub struct PriorityScheduler {
    pending: Vec<PendingDelivery>,
    max_queue_size: usize,
}

impl PriorityScheduler {
    /// The pending deliveries, head first.
    pub closed spec fn queue(&self) -> Seq<PendingModel> {
        pending_models(self.pending@)
    }

    /// The most deliveries the queue holds.
    pub closed spec fn capacity(&self) -> nat {
        self.max_queue_size as nat
    }

    /// The queue is sorted by effective priority and within its capacity.
    pub open spec fn wf(&self) -> bool {
        &&& sorted_by_priority(self.queue())
        &&& self.queue().len() <= self.capacity()
    }

    pub fn new(max_queue_size: usize) -> (s: Self)
        ensures
            s.wf(),
            s.queue() == Seq::<PendingModel>::empty(),
            s.capacity() == max_queue_size,
    {
        let s = Self { pending: Vec::new(), max_queue_size };
        proof {
            assert(pending_models(s.pending@) =~= Seq::empty());
        }
        s
    }

    /// Queues `object` behind every delivery that is at least as urgent. Where
    /// the queue is then over its capacity, the least urgent tail is dropped.
    pub fn enqueue(&mut self, object: MoqObject, subscriber_priority: u8)
        requires
            old(self).wf(),
        ensures
            final(self).wf(),
            final(self).capacity() == old(self).capacity(),
            final(self).queue() == enqueued(
                old(self).queue(),
                delivery_of(object@, subscriber_priority),
                old(self).capacity(),
            ),
    {
        let delivery = PendingDelivery {
            object,
            subscriber_priority,
            effective_priority: subscriber_priority,
        };
        let ghost before = self.queue();
        let n = self.pending.len();
        let mut pos: usize = 0;
        while pos < n && self.pending[pos].effective_priority <= subscriber_priority
            invariant
                n == self.pending@.len(),
                0 <= pos <= n,
                before == pending_models(self.pending@),
                forall|k: int| 0 <= k < pos ==> before[k].effective_priority <= subscriber_priority,
            decreases n - pos,
        {
            pos = pos + 1;
        }
        proof {
            lemma_insert_position_is(before, subscriber_priority, pos as int);
            lemma_enqueued_sorted(before, delivery@, self.capacity());
        }
        self.pending.insert(pos, delivery);
        let ghost grown = before.insert(pos as int, delivery@);
        proof {
            assert(pending_models(self.pending@) =~= grown);
        }
        while self.pending.len() > self.max_queue_size
            invariant
                self.max_queue_size == old(self).max_queue_size,
                self.pending@.len() <= grown.len(),
                self.pending@.len() == grown.len() || self.pending@.len() >= self.max_queue_size,
                pending_models(self.pending@) == grown.take(self.pending@.len() as int),
            decreases self.pending@.len(),
        {
            self.pending.pop();
            proof {
                assert(pending_models(self.pending@) =~= grown.take(self.pending@.len() as int));
            }
        }
        proof {
            assert(grown.take(grown.len() as int) =~= grown);
        }
    }

    /// Drops every expired delivery, then takes the head.
    pub fn dequeue_at(&mut self, now: u64) -> (r: Option<MoqObject>)
        requires
            old(self).wf(),
        ensures
            final(self).wf(),
            final(self).capacity() == old(self).capacity(),
            object_option(r) == dequeued(old(self).queue(), now).0,
            final(self).queue() == dequeued(old(self).queue(), now).1,
            r matches Some(o) ==> !o@.expired_at(now),
    {
        let ghost before = self.queue();
        purge(&mut self.pending, Keep::Live { now });
        let ghost live = self.queue();
        proof {
            assert(live =~= live_at(before, now)) by {
                assert((|d: PendingModel| keeps(Keep::Live { now }, d)) =~= (|d: PendingModel|
                    !d.object.expired_at(now)));
            }
        }
        if self.pending.len() == 0 {
            None
        } else {
            let head = self.pending.remove(0);
            proof {
                assert(pending_models(self.pending@) =~= live.skip(1));
                assert(head@ == live[0]);
                before.lemma_filter_pred(|d: PendingModel| !d.object.expired_at(now), 0);
                lemma_remove_sorted(live, 0);
                assert(live.remove(0) =~= live.skip(1));
            }
            Some(head.object)
        }
    }

    /// Drops every delivery that has expired by the clock's reading, then
    /// takes the head.
    pub fn dequeue(&mut self) -> (r: Option<MoqObject>)
        requires
            old(self).wf(),
        ensures
            final(self).wf(),
            final(self).capacity() == old(self).capacity(),
            exists|now: u64|
                {
                    &&& object_option(r) == (#[trigger] dequeued(old(self).queue(), now)).0
                    &&& final(self).queue() == dequeued(old(self).queue(), now).1
                    &&& (r matches Some(o) ==> !o@.expired_at(now))
                },
    {
        let now = now_millis();
        let r = self.dequeue_at(now);
        proof {
            let d = dequeued(old(self).queue(), now);
            assert(object_option(r) == d.0);
        }
        r
    }

    /// Number of pending deliveries.
    pub fn queue_len(&self) -> (n: usize)
        ensures
            n == self.queue().len(),
    {
        self.pending.len()
    }

    /// Drops every delivery whose effective priority is above `threshold` and
    /// says how many left.
    pub fn drop_low_priority(&mut self, threshold: u8) -> (dropped: usize)
        requires
            old(self).wf(),
        ensures
            final(self).wf(),
            final(self).capacity() == old(self).capacity(),
            final(self).queue() == at_most(old(self).queue(), threshold),
            dropped == old(self).queue().len() - final(self).queue().len(),
    {
        let before = self.pending.len();
        let ghost q = self.queue();
        purge(&mut self.pending, Keep::AtMost { threshold });
        proof {
            assert(self.queue() =~= at_most(q, threshold)) by {
                assert((|d: PendingModel| keeps(Keep::AtMost { threshold }, d)) =~= (|d: PendingModel|
                    d.effective_priority <= threshold));
            }
        }
        before - self.pending.len()
    }
}

} // verus!
