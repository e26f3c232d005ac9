//! One-shot requests for a closed range of a track.

use vstd::prelude::*;
use crate::moq_protocol::names::FullTrackName;
use crate::moq_protocol::object::DEFAULT_PRIORITY;
use crate::moq_protocol::object::FilterType;
use crate::moq_protocol::object::GroupId;
use crate::moq_protocol::object::GroupOrder;
use crate::moq_protocol::object::ObjectId;
use crate::moq_protocol::object::SubscriptionParams;

verus! {

/// A request for the objects of a track from a start position to an end
/// position, both included.
#[derive(Debug, Clone)]
pub struct FetchRequest {
    pub track: FullTrackName,
    pub subscriber_priority: u8,
    pub group_order: GroupOrder,
    pub start_group: GroupId,
    pub start_object: ObjectId,
    pub end_group: GroupId,
    /// Without it the range runs to the end of `end_group`.
    pub end_object: Option<ObjectId>,
}

impl FetchRequest {
    /// A request with the default priority, oldest first.
    pub fn new(
        track: FullTrackName,
        start_group: GroupId,
        start_object: ObjectId,
        end_group: GroupId,
        end_object: Option<ObjectId>,
    ) -> (f: Self)
        ensures
            f == (Self {
                track,
                subscriber_priority: DEFAULT_PRIORITY,
                group_order: GroupOrder::Ascending,
                start_group,
                start_object,
                end_group,
                end_object,
            }),
    {
        Self {
            track,
            subscriber_priority: DEFAULT_PRIORITY,
            group_order: GroupOrder::Ascending,
            start_group,
            start_object,
            end_group,
            end_object,
        }
    }

    pub fn with_priority(self, priority: u8) -> (f: Self)
        ensures
            f == (Self { subscriber_priority: priority, ..self }),
    {
        let mut f = self;
        f.subscriber_priority = priority;
        f
    }

    /// Whether the range ends before it starts.
    pub fn is_inverted(&self) -> (b: bool)
        ensures
            b == (self.end_group < self.start_group || (self.end_group == self.start_group
                && self.end_object is Some && self.end_object->0 < self.start_object)),
    {
        self.end_group < self.start_group || (self.end_group == self.start_group && match self.end_object {
            Some(last) => last < self.start_object,
            None => false,
        })
    }

    /// The subscription that retrieves what this request asks for: the same
    /// track, order and priority, with the range as its filter and without
    /// timeout.
    pub fn to_subscription_params(&self) -> (p: SubscriptionParams)
        ensures
            p.track.namespace@ == self.track.namespace@,
            p.track.track_name@ == self.track.track_name@,
            p.filter == (FilterType::AbsoluteRange {
                start_group: self.start_group,
                start_object: self.start_object,
                end_group: self.end_group,
                end_object: self.end_object,
            }),
            p.group_order == self.group_order,
            p.subscriber_priority == self.subscriber_priority,
            p.delivery_timeout_ms == 0,
            p.max_cache_duration_ms is None,
    {
        SubscriptionParams {
            track: self.track.duplicate(),
            filter: FilterType::AbsoluteRange {
                start_group: self.start_group,
                start_object: self.start_object,
                end_group: self.end_group,
                end_object: self.end_object,
            },
            group_order: self.group_order,
            subscriber_priority: self.subscriber_priority,
            delivery_timeout_ms: 0,
            max_cache_duration_ms: None,
        }
    }
}

} // verus!
