use moq_live::moq_protocol::admit_subscribe;
use moq_live::moq_protocol::FetchRequest;
use moq_live::moq_protocol::FilterType;
use moq_live::moq_protocol::FullTrackName;
use moq_live::moq_protocol::GroupOrder;
use moq_live::moq_protocol::GroupStreamHeader;
use moq_live::moq_protocol::MoqGroup;
use moq_live::moq_protocol::MoqMessage;
use moq_live::moq_protocol::MoqObject;
use moq_live::moq_protocol::Namespace;
use moq_live::moq_protocol::NamespaceAnnouncement;
use moq_live::moq_protocol::NamespaceManager;
use moq_live::moq_protocol::ObjectStatus;
use moq_live::moq_protocol::PriorityScheduler;
use moq_live::moq_protocol::SubscribeErrorCode;
use moq_live::moq_protocol::SubscriptionParams;
use moq_live::moq_protocol::TrackStatusCode;
use moq_live::moq_protocol::TrackStore;

#[test]
fn test_namespace_prefix() {
    let ns1 = Namespace::from_str("broadcast/channel1");
    let ns2 = Namespace::from_str("broadcast/channel1/video");
    let ns3 = Namespace::from_str("broadcast/channel2");

    assert!(ns1.is_prefix_of(&ns2));
    assert!(!ns1.is_prefix_of(&ns3));
}

#[test]
fn test_full_track_name() {
    let track = FullTrackName::from_path("broadcast/channel1/video-720p");
    assert_eq!(track.namespace.to_string_path(), "broadcast/channel1");
    assert_eq!(track.track_name, "video-720p");
}

#[test]
fn test_priority_ordering() {
    let high = MoqObject::new(0, 0, 0, vec![]).with_priority(0);
    let med = MoqObject::new(0, 0, 1, vec![]).with_priority(128);
    let low = MoqObject::new(0, 0, 2, vec![]).with_priority(255);

    assert!(high.publisher_priority < med.publisher_priority);
    assert!(med.publisher_priority < low.publisher_priority);
}

#[test]
fn test_object_expiration() {
    let obj = MoqObject::new_at(0, 0, 0, vec![], 1_000).with_ttl(0);
    assert_eq!(obj.expires_at, Some(1_000));
    assert!(!obj.is_expired_at(1_000));
    assert!(obj.is_expired_at(1_001));
    // The clock stands far behind the year 1970's first second.
    assert!(obj.is_expired());
    assert!(!MoqObject::new(0, 0, 0, vec![]).is_expired());
}

#[test]
fn test_track_store() {
    let mut store = TrackStore::new(60_000, 10);
    let track = FullTrackName::from_path("test/video");

    store.get_or_create_track(&track);
    let group_id = store.start_group(&track);

    store.add_object(&track, group_id, 0, vec![1, 2, 3]);
    store.add_object(&track, group_id, 0, vec![4, 5, 6]);

    let params = SubscriptionParams::new(track.duplicate()).with_filter(FilterType::LatestGroup);
    let objects = store.get_objects(&params);

    assert_eq!(objects.len(), 2);
}

#[test]
fn namespace_paths_split_and_join() {
    assert_eq!(Namespace::from_str("a/b/c").components, vec!["a", "b", "c"]);
    assert_eq!(Namespace::from_str("").components, vec![""]);
    assert_eq!(Namespace::from_str("/a//").components, vec!["", "a", "", ""]);
    assert_eq!(Namespace::from_str("é/ü").components, vec!["é", "ü"]);
    assert_eq!(Namespace::new(vec![]).to_string_path(), "");
    assert_eq!(Namespace::new(vec!["x".to_string()]).to_string_path(), "x");
    assert_eq!(Namespace::from_str("/a//").to_string_path(), "/a//");
    let ns = Namespace::from_str("a/b");
    assert!(ns.is_prefix_of(&ns));
    assert!(Namespace::new(vec![]).is_prefix_of(&ns));
    assert!(!Namespace::from_str("a/b/c").is_prefix_of(&ns));
    assert!(!Namespace::from_str("a/bb").is_prefix_of(&Namespace::from_str("a/bb2")));
}

#[test]
fn track_names_part_at_the_last_slash() {
    let bare = FullTrackName::from_path("video");
    assert!(bare.namespace.components.is_empty());
    assert_eq!(bare.track_name, "video");
    // The string form is the namespace's path, a slash and the name: for the
    // empty namespace it begins with the slash.
    assert_eq!(bare.to_path(), "/video");
    let rooted = FullTrackName::from_path("/video");
    assert_eq!(rooted.namespace.components, vec![""]);
    assert_eq!(rooted.to_path(), "/video");
    let open = FullTrackName::from_path("a/b/");
    assert_eq!(open.namespace.components, vec!["a", "b"]);
    assert_eq!(open.track_name, "");
    let made = FullTrackName::new(Namespace::from_str("x/y"), "z");
    assert_eq!(made.to_path(), "x/y/z");
}

#[test]
fn objects_are_built_step_by_step() {
    let o = MoqObject::new_at(3, 1, 7, vec![1, 2], 50);
    assert_eq!((o.group_id, o.subgroup_id, o.object_id), (3, 1, 7));
    assert_eq!(o.publisher_priority, 128);
    assert_eq!(o.status, ObjectStatus::Normal);
    assert_eq!(o.expires_at, None);
    assert_eq!(o.created_at, 50);
    assert_eq!(o.size(), 2);
    let o = o.with_ttl(25).with_extension("a", vec![1]).with_extension("b", vec![2]);
    assert_eq!(o.expires_at, Some(75));
    let o = o.with_extension("a", vec![9]);
    assert_eq!(o.extensions.len(), 2);
    assert_eq!(o.extensions[0].key, "a");
    assert_eq!(o.extensions[0].value, vec![9]);
    assert_eq!(o.extensions[1].value, vec![2]);
    let copy = o.duplicate();
    assert_eq!(copy.payload, o.payload);
    assert_eq!(copy.extensions[1].key, "b");
}

#[test]
fn groups_count_and_sum() {
    let mut g = MoqGroup::new_at(4, 10);
    assert_eq!(g.object_count(), 0);
    assert_eq!(g.total_size(), 0);
    g.add_object(MoqObject::new_at(4, 0, 0, vec![0; 3], 10));
    g.add_object(MoqObject::new_at(4, 1, 1, vec![0; 5], 10));
    g.add_object(MoqObject::new_at(4, 0, 2, vec![0; 7], 10));
    assert_eq!(g.object_count(), 3);
    assert_eq!(g.total_size(), 15);
    let lane: Vec<u64> = g.subgroup(0).iter().map(|o| o.object_id).collect();
    assert_eq!(lane, vec![0, 2]);
    assert!(g.subgroup(9).is_empty());
    assert!(!g.is_complete);
    g.mark_complete();
    assert!(g.is_complete);
}

#[test]
fn subscription_params_defaults_and_builders() {
    let p = SubscriptionParams::new(FullTrackName::from_path("a/b"));
    assert_eq!(p.filter, FilterType::LatestGroup);
    assert_eq!(p.group_order, GroupOrder::Ascending);
    assert_eq!(p.subscriber_priority, 128);
    assert_eq!(p.delivery_timeout_ms, 0);
    assert_eq!(p.max_cache_duration_ms, None);
    let p = p
        .with_filter(FilterType::NextGroup)
        .with_order(GroupOrder::Descending)
        .with_priority(64)
        .with_timeout(900);
    assert_eq!(p.filter, FilterType::NextGroup);
    assert_eq!(p.group_order, GroupOrder::Descending);
    assert_eq!(p.effective_priority(3), 64);
    assert_eq!(p.delivery_timeout_ms, 900);
}

fn ids(objects: &[MoqObject]) -> Vec<(u64, u64)> {
    objects.iter().map(|o| (o.group_id, o.object_id)).collect()
}

fn filled_store(groups: u64, per_group: u64, max_groups: usize) -> (TrackStore, FullTrackName) {
    let mut store = TrackStore::new(u64::MAX, max_groups);
    let track = FullTrackName::from_path("live/cam/video.med");
    store.get_or_create_track(&track);
    for g in 0..groups {
        assert_eq!(store.start_group_at(&track, 100), g);
        for o in 0..per_group {
            let made = store.add_object_at(&track, g, o % 2, vec![g as u8, o as u8], 100).unwrap();
            assert_eq!((made.group_id, made.subgroup_id, made.object_id), (g, o % 2, o));
        }
    }
    (store, track)
}

#[test]
fn fetch_of_a_range_gives_its_objects_in_order() {
    let (store, track) = filled_store(10, 10, 100);
    let request = FetchRequest::new(track.duplicate(), 3, 5, 5, None);
    assert!(!request.is_inverted());
    let got = store.get_objects_at(&request.to_subscription_params(), 100);
    let mut expected: Vec<(u64, u64)> = (5..10).map(|o| (3, o)).collect();
    expected.extend((0..10).map(|o| (4, o)));
    expected.extend((0..10).map(|o| (5, o)));
    assert_eq!(got.len(), 25);
    assert_eq!(ids(&got), expected);
    assert_eq!(got[0].payload, vec![3, 5]);

    let bounded = FetchRequest::new(track.duplicate(), 3, 5, 5, Some(2)).with_priority(9);
    assert_eq!(bounded.subscriber_priority, 9);
    let got = store.get_objects_at(&bounded.to_subscription_params(), 100);
    assert_eq!(got.len(), 5 + 10 + 3);
    assert_eq!(ids(&got).last(), Some(&(5, 2)));
    assert!(FetchRequest::new(track.duplicate(), 3, 5, 3, Some(4)).is_inverted());
    assert!(FetchRequest::new(track.duplicate(), 4, 0, 3, None).is_inverted());
}

#[test]
fn each_filter_selects_what_it_names() {
    let (mut store, track) = filled_store(3, 4, 100);
    let base = SubscriptionParams::new(track.duplicate());
    let latest = store.get_objects_at(&base, 100);
    assert_eq!(ids(&latest), vec![(2, 0), (2, 1), (2, 2), (2, 3)]);
    let one = store.get_objects_at(&base.clone().with_filter(FilterType::LatestObject), 100);
    assert_eq!(ids(&one), vec![(2, 3)]);
    let next = store.get_objects_at(&base.clone().with_filter(FilterType::NextGroup), 100);
    assert!(next.is_empty());
    let from = FilterType::AbsoluteStart { start_group: 1, start_object: 2 };
    let tail = store.get_objects_at(&base.clone().with_filter(from), 100);
    assert_eq!(ids(&tail), vec![(1, 2), (1, 3), (2, 0), (2, 1), (2, 2), (2, 3)]);
    let down = store.get_objects_at(
        &base.clone().with_filter(from).with_order(GroupOrder::Descending),
        100,
    );
    assert_eq!(ids(&down), vec![(2, 3), (2, 2), (2, 1), (2, 0), (1, 3), (1, 2)]);
    let publisher = store.get_objects_at(
        &base.clone().with_filter(from).with_order(GroupOrder::PublisherDefault),
        100,
    );
    assert_eq!(ids(&publisher), ids(&tail));

    // A group without objects is not the latest group.
    assert_eq!(store.start_group_at(&track, 100), 3);
    assert_eq!(ids(&store.get_objects_at(&base, 100)), ids(&latest));

    // A track that is not stored answers nothing.
    let other = SubscriptionParams::new(FullTrackName::from_path("live/cam/audio"));
    assert!(store.get_objects_at(&other, 100).is_empty());
}

#[test]
fn closed_and_missing_groups_take_no_objects() {
    let mut store = TrackStore::new(u64::MAX, 2);
    let track = FullTrackName::from_path("t/v");
    assert!(store.add_object_at(&track, 0, 0, vec![], 1).is_none());
    assert_eq!(store.start_group_at(&track, 1), 0);
    assert!(store.get_track_status(&track).is_none());
    let status = store.get_or_create_track(&track);
    assert_eq!(status.status, TrackStatusCode::Active);
    assert_eq!(status.latest_group_id, None);
    assert_eq!(status.publisher_priority, 128);
    assert_eq!(status.track.to_path(), "t/v");
    assert!(store.add_object_at(&track, 0, 0, vec![], 1).is_none());
    assert_eq!(store.start_group_at(&track, 1), 0);
    assert!(store.add_object_at(&track, 0, 0, vec![], 1).is_some());
    assert_eq!(store.start_group_at(&track, 1), 1);
    // Group 0 was closed when group 1 started.
    assert!(store.add_object_at(&track, 0, 0, vec![], 1).is_none());
    assert!(store.add_object_at(&track, 7, 0, vec![], 1).is_none());
    let made = store.add_object_at(&track, 1, 3, vec![8], 1).unwrap();
    assert_eq!(made.object_id, 0);
    let status = store.get_track_status(&track).unwrap();
    assert_eq!(status.latest_group_id, Some(1));
    assert_eq!(status.latest_object_id, Some(0));
    // Creating the track again changes nothing.
    let again = store.get_or_create_track(&track);
    assert_eq!(again.latest_group_id, Some(1));
}

#[test]
fn retention_keeps_the_most_recent_groups() {
    let (store, track) = filled_store(7, 1, 3);
    let all = FilterType::AbsoluteStart { start_group: 0, start_object: 0 };
    let params = SubscriptionParams::new(track.duplicate()).with_filter(all);
    assert_eq!(ids(&store.get_objects_at(&params, 100)), vec![(4, 0), (5, 0), (6, 0)]);

    // Groups that have outlived the retention age leave at a group boundary.
    let mut aged = TrackStore::new(50, 10);
    aged.get_or_create_track(&track);
    for (g, at) in [(0u64, 0u64), (1, 10), (2, 60), (3, 60)] {
        assert_eq!(aged.start_group_at(&track, at), g);
        aged.add_object_at(&track, g, 0, vec![], at).unwrap();
    }
    assert_eq!(ids(&aged.get_objects_at(&params, 60)), vec![(1, 0), (2, 0), (3, 0)]);
    assert_eq!(aged.start_group_at(&track, 61), 4);
    assert_eq!(ids(&aged.get_objects_at(&params, 61)), vec![(2, 0), (3, 0)]);

    // A store that keeps no group holds none.
    let (empty, track) = filled_store(3, 0, 0);
    assert!(empty.get_objects_at(&SubscriptionParams::new(track).with_filter(all), 1).is_empty());
}

#[test]
fn expired_objects_are_not_answered() {
    let (store, track) = filled_store(1, 3, 4);
    let params = SubscriptionParams::new(track);
    assert_eq!(store.get_objects_at(&params, u64::MAX).len(), 3);
    assert_eq!(store.get_objects(&params).len(), 3);
}

#[test]
fn scheduler_orders_by_priority_then_arrival() {
    let mut s = PriorityScheduler::new(4);
    let obj = |id: u64| MoqObject::new_at(0, 0, id, vec![], 0);
    s.enqueue(obj(1), 50);
    s.enqueue(obj(2), 10);
    s.enqueue(obj(3), 50);
    s.enqueue(obj(4), 200);
    assert_eq!(s.queue_len(), 4);
    // Over capacity: the least urgent tail leaves.
    s.enqueue(obj(5), 0);
    assert_eq!(s.queue_len(), 4);
    let order: Vec<u64> = (0..4).map(|_| s.dequeue_at(0).unwrap().object_id).collect();
    assert_eq!(order, vec![5, 2, 1, 3]);
    assert!(s.dequeue_at(0).is_none());
    assert!(s.dequeue().is_none());
}

#[test]
fn urgent_object_leaves_before_a_later_one() {
    let mut s = PriorityScheduler::new(8);
    s.enqueue(MoqObject::new_at(0, 0, 1, vec![1], 0), 3);
    s.enqueue(MoqObject::new_at(0, 0, 2, vec![2], 0), 9);
    assert_eq!(s.dequeue_at(5).unwrap().payload, vec![1]);
}

#[test]
fn urgent_object_leaves_first_behind_what_has_expired() {
    let mut s = PriorityScheduler::new(3);
    // More urgent still, but gone by the time of the dequeue.
    s.enqueue(MoqObject::new_at(0, 0, 0, vec![0], 0).with_ttl(2), 0);
    s.enqueue(MoqObject::new_at(0, 0, 1, vec![1], 0), 3);
    s.enqueue(MoqObject::new_at(0, 0, 2, vec![2], 0), 9);
    assert_eq!(s.dequeue_at(5).unwrap().payload, vec![1]);
    // While it is live, the more urgent one leaves first.
    let mut t = PriorityScheduler::new(3);
    t.enqueue(MoqObject::new_at(0, 0, 0, vec![0], 0).with_ttl(2), 0);
    t.enqueue(MoqObject::new_at(0, 0, 1, vec![1], 0), 3);
    t.enqueue(MoqObject::new_at(0, 0, 2, vec![2], 0), 9);
    assert_eq!(t.dequeue_at(2).unwrap().payload, vec![0]);
}

#[test]
fn scheduler_drops_expired_and_low_priority() {
    let mut s = PriorityScheduler::new(8);
    s.enqueue(MoqObject::new_at(0, 0, 1, vec![], 0).with_ttl(10), 1);
    s.enqueue(MoqObject::new_at(0, 0, 2, vec![], 0).with_ttl(100), 2);
    s.enqueue(MoqObject::new_at(0, 0, 3, vec![], 0), 200);
    s.enqueue(MoqObject::new_at(0, 0, 4, vec![], 0), 201);
    // At time 10 nothing has expired yet: an object expires after its time.
    let mut at_ten = PriorityScheduler::new(1);
    at_ten.enqueue(MoqObject::new_at(0, 0, 1, vec![], 0).with_ttl(10), 1);
    assert_eq!(at_ten.dequeue_at(10).unwrap().object_id, 1);

    assert_eq!(s.dequeue_at(11).unwrap().object_id, 2);
    assert_eq!(s.queue_len(), 2);
    assert_eq!(s.drop_low_priority(200), 1);
    assert_eq!(s.drop_low_priority(200), 0);
    assert_eq!(s.dequeue_at(11).unwrap().object_id, 3);
    assert_eq!(s.queue_len(), 0);
    let mut none = PriorityScheduler::new(0);
    none.enqueue(MoqObject::new_at(0, 0, 1, vec![], 0), 1);
    assert_eq!(none.queue_len(), 0);
}

fn announcement(path: &str, tracks: &[&str]) -> NamespaceAnnouncement {
    NamespaceAnnouncement {
        namespace: Namespace::from_str(path),
        tracks: tracks.iter().map(|t| t.to_string()).collect(),
        accepts_publishing: true,
        auth_token: None,
    }
}

#[test]
fn namespaces_are_found_by_prefix() {
    let mut m = NamespaceManager::new();
    m.announce(announcement("live/a", &["v"]));
    m.announce(announcement("live/b", &["v", "a"]));
    m.announce(announcement("vod/a", &[]));
    m.announce(announcement("live/a", &["v2"]));
    assert_eq!(m.list_published().len(), 3);
    let live = m.subscribe(Namespace::from_str("live"));
    let paths: Vec<String> = live.iter().map(|a| a.namespace.to_string_path()).collect();
    assert_eq!(paths, vec!["live/a", "live/b"]);
    assert_eq!(live[0].tracks, vec!["v2"]);
    assert_eq!(m.subscribe(Namespace::new(vec![])).len(), 3);
    assert!(m.subscribe(Namespace::from_str("liv")).is_empty());
    assert!(m.subscribe(Namespace::from_str("live/a/x")).is_empty());
    let got = m.get_announcement(&Namespace::from_str("live/b")).unwrap();
    assert_eq!(got.tracks, vec!["v", "a"]);
    assert!(m.get_announcement(&Namespace::from_str("live")).is_none());
    assert!(NamespaceManager::default().list_published().is_empty());
}

#[test]
fn a_closed_group_ends_with_its_marker() {
    let mut store = TrackStore::new(u64::MAX, 4);
    let track = FullTrackName::from_path("t/v");
    store.get_or_create_track(&track);
    assert_eq!(store.next_group_id(&track), Some(0));
    assert_eq!(store.first_retained_group(&track), None);
    store.start_group_at(&track, 1);
    store.add_object_at(&track, 0, 0, vec![1], 1).unwrap();
    let marker = store.end_group_at(&track, 0, 2).unwrap();
    assert_eq!(marker.status, ObjectStatus::EndOfGroup);
    assert_eq!((marker.group_id, marker.object_id, marker.created_at), (0, 1, 2));
    assert!(marker.payload.is_empty());
    assert!(store.add_object_at(&track, 0, 0, vec![2], 3).is_none());
    assert!(store.end_group_at(&track, 0, 3).is_none());
    assert!(store.end_group_at(&track, 9, 3).is_none());
    assert_eq!(store.get_objects_at(&SubscriptionParams::new(track.duplicate()), 3).len(), 2);
    assert_eq!(store.next_group_id(&track), Some(1));
    assert_eq!(store.first_retained_group(&track), Some(0));
    assert_eq!(store.next_group_id(&FullTrackName::from_path("x")), None);
}

#[test]
fn subscriptions_are_admitted_or_refused_with_a_reason() {
    let (store, track) = filled_store(6, 1, 3);
    let mut manager = NamespaceManager::new();
    let params = |filter| SubscriptionParams::new(track.duplicate()).with_filter(filter);
    let range = |start_group, end_group, end_object| FilterType::AbsoluteRange {
        start_group,
        start_object: 2,
        end_group,
        end_object,
    };
    assert_eq!(
        admit_subscribe(&store, &manager, &params(FilterType::LatestGroup)).unwrap_err(),
        SubscribeErrorCode::Unauthorized
    );
    manager.announce(announcement("live/cam", &["video.med"]));
    let status = admit_subscribe(&store, &manager, &params(FilterType::LatestGroup)).unwrap();
    assert_eq!(status.latest_group_id, Some(5));
    assert_eq!(
        admit_subscribe(&store, &manager, &params(range(3, 2, None))).unwrap_err(),
        SubscribeErrorCode::InvalidRange
    );
    assert_eq!(
        admit_subscribe(&store, &manager, &params(range(3, 3, Some(1)))).unwrap_err(),
        SubscribeErrorCode::InvalidRange
    );
    assert!(admit_subscribe(&store, &manager, &params(range(3, 3, Some(2)))).is_ok());
    // Groups 3, 4 and 5 are retained.
    assert_eq!(
        admit_subscribe(&store, &manager, &params(range(0, 2, None))).unwrap_err(),
        SubscribeErrorCode::OutOfRange
    );
    assert!(admit_subscribe(&store, &manager, &params(range(0, 3, None))).is_ok());
    let other = SubscriptionParams::new(FullTrackName::from_path("live/cam/audio"));
    assert_eq!(
        admit_subscribe(&store, &manager, &other).unwrap_err(),
        SubscribeErrorCode::TrackNotFound
    );
    assert!(manager.covers(&Namespace::from_str("live/cam/deep")));
    assert!(!manager.covers(&Namespace::from_str("live")));
}

#[test]
fn group_stream_header_round_trip() {
    let header = GroupStreamHeader {
        subscribe_id: 1,
        group_id: 0x0203,
        subgroup_id: u64::MAX,
        publisher_priority: 64,
    };
    let mut bytes = header.to_bytes();
    assert_eq!(bytes.len(), 25);
    assert_eq!(&bytes[..10], &[1, 0, 0, 0, 0, 0, 0, 0, 3, 2]);
    assert_eq!(bytes[24], 64);
    bytes.extend([9, 9]);
    assert_eq!(GroupStreamHeader::read(&bytes), Some((header, 25)));
    assert_eq!(GroupStreamHeader::read(&bytes[..24]), None);
}

#[test]
fn objects_travel_on_their_own_streams() {
    let object = MoqMessage::Object { subscribe_id: 1, object: MoqObject::new_at(0, 0, 0, vec![], 0) };
    assert!(object.is_data());
    assert!(!MoqMessage::Unsubscribe { subscribe_id: 1 }.is_data());
    assert!(!MoqMessage::GoAway { new_uri: None }.is_data());
}

#[test]
fn a_complete_group_takes_no_more_objects() {
    let mut group = MoqGroup::new_at(4, 10);
    group.add_object(MoqObject::new_at(4, 0, 0, vec![1, 2, 3], 10));
    group.add_object(MoqObject::new_at(4, 1, 1, vec![4], 11));
    assert_eq!((group.object_count(), group.total_size()), (2, 4));
    group.mark_complete();
    group.add_object(MoqObject::new_at(4, 0, 2, vec![5, 6], 12));
    assert!(group.is_complete);
    assert_eq!((group.object_count(), group.total_size()), (2, 4));
    assert_eq!(group.subgroup(0).len(), 1);
    assert_eq!(group.subgroup(1).len(), 1);
    assert_eq!(group.objects[1].object_id, 1);
    // Marking it complete again changes nothing either.
    group.mark_complete();
    assert_eq!(group.object_count(), 2);
}

#[test]
fn no_object_id_comes_twice_though_groups_are_evicted() {
    let track = FullTrackName::from_path("t/v");
    let mut store = TrackStore::new(1_000, 2);
    store.get_or_create_track(&track);
    let mut handed: Vec<(u64, u64)> = Vec::new();
    let mut now = 0u64;
    for round in 0..6u64 {
        now += if round == 3 { 5_000 } else { 10 };
        let gid = store.start_group_at(&track, now);
        assert_eq!(gid, round);
        // Objects for this group, for the one before it, which is closed,
        // and for one that was evicted or never started.
        for target in [gid, gid.wrapping_sub(1), gid.wrapping_sub(3), gid + 1] {
            for _ in 0..2 {
                if let Some(o) = store.add_object_at(&track, target, 7, vec![1], now) {
                    assert_eq!(o.group_id, gid);
                    handed.push((o.group_id, o.object_id));
                }
            }
        }
        if round % 2 == 0 {
            let marker = store.end_group_at(&track, gid, now).unwrap();
            handed.push((marker.group_id, marker.object_id));
            assert!(store.add_object_at(&track, gid, 0, vec![], now).is_none());
        }
        // Never more than two groups, and always the most recent.
        let first = store.first_retained_group(&track).unwrap();
        let expected = if round == 0 || round == 3 { round } else { round - 1 };
        assert_eq!(first, expected);
    }
    let mut unique = handed.clone();
    unique.sort();
    unique.dedup();
    assert_eq!(unique.len(), handed.len());
    assert_eq!(handed.len(), 15);
}

#[test]
fn the_age_of_a_group_beyond_the_limit_does_not_matter() {
    // Two groups are kept: group 0 has outlived the age when group 2
    // starts, and would have left then by the limit as well.
    let track = FullTrackName::from_path("t/v");
    let mut store = TrackStore::new(10, 2);
    store.get_or_create_track(&track);
    for (g, at) in [(0u64, 0u64), (1, 8), (2, 16), (3, 24)] {
        assert_eq!(store.start_group_at(&track, at), g);
        assert_eq!(store.first_retained_group(&track), Some(g.saturating_sub(1)));
    }
    // A group among the two most recent that has outlived the age is gone.
    assert_eq!(store.start_group_at(&track, 100), 4);
    assert_eq!(store.first_retained_group(&track), Some(4));
}
