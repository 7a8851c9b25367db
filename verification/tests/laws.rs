use gather::cancellations::{create_cancellation, delete_cancellation, get_cancellation};
use gather::event::{create_event, get_latest_event, update_event, UpdateEventInput};
use gather::global_collections::{
    all_cancelled_events, all_cancelled_proposals, all_expired_proposals, all_open_proposals,
    all_past_events, all_upcoming_events, assign, current_anchors, family_of,
    get_all_cancelled_proposals, get_all_expired_proposals, get_all_open_proposals, get_from_path,
    is_member, is_transition, mark_proposal_as_cancelled, mark_proposal_as_expired, mark_proposal_as_open,
    members, path_at, remove_from_collection, Path,
};
use gather::hash::{ActionHash, AgentPubKey, AnyLinkableHash, DnaHash, EntryHash};
use gather::integrity::{Cancellation, Event, EventTime, LinkTypes};
use gather::record::Timestamp;
use gather::relations::{link, query, query_actions, query_agents, unlink};
use gather::store::Store;

fn new_store() -> Store {
    Store::new(AgentPubKey(1), DnaHash(7))
}

fn event(title: &str) -> Event {
    Event {
        hosts: vec![],
        title: title.to_string(),
        description: String::new(),
        image: EntryHash(0),
        location: String::new(),
        time: EventTime::Unique { start_time: Timestamp(100), end_time: Timestamp(200) },
        cost: Some("free".to_string()),
        call_to_action_hash: ActionHash(1000),
        from_proposal: None,
    }
}

#[test]
fn untouched_record_resolves_to_itself() {
    let mut store = new_store();
    let record = create_event(&mut store, event("a")).unwrap().clone();
    let h = record.signed_action.hash;
    assert_eq!(get_latest_event(&store, h).unwrap().cloned(), Some(record));
    let c = create_cancellation(
        &mut store,
        Cancellation { reason: "r".to_string(), event_hash: h },
    )
    .unwrap()
    .clone();
    assert_eq!(get_cancellation(&store, c.signed_action.hash).unwrap().cloned(), Some(c));
}

#[test]
fn deleted_record_resolves_to_nothing_whatever_was_updated() {
    let mut store = new_store();
    let h = create_event(&mut store, event("a")).unwrap().signed_action.hash;
    update_event(
        &mut store,
        UpdateEventInput {
            original_event_hash: h,
            previous_event_hash: h,
            updated_event: event("b"),
        },
    )
    .unwrap();
    assert!(get_latest_event(&store, h).unwrap().is_some());
    store.delete_entry(h).unwrap();
    assert_eq!(get_latest_event(&store, h).unwrap(), None);

    let c = create_cancellation(
        &mut store,
        Cancellation { reason: "r".to_string(), event_hash: h },
    )
    .unwrap()
    .signed_action
    .hash;
    delete_cancellation(&mut store, c).unwrap();
    assert_eq!(get_cancellation(&store, c).unwrap(), None);
}

#[test]
fn newest_of_a_chain_of_updates_wins() {
    let mut store = new_store();
    store.set_time(Timestamp(1));
    let h = create_event(&mut store, event("v0")).unwrap().signed_action.hash;
    let mut previous = h;
    for (i, title) in ["v1", "v2", "v3", "v4"].iter().enumerate() {
        store.set_time(Timestamp(10 + i as i64));
        previous = update_event(
            &mut store,
            UpdateEventInput {
                original_event_hash: h,
                previous_event_hash: previous,
                updated_event: event(title),
            },
        )
        .unwrap()
        .signed_action
        .hash;
    }
    let latest = get_latest_event(&store, h).unwrap().unwrap();
    assert_eq!(latest.signed_action.hash, previous);
    assert_eq!(latest.action().timestamp(), Timestamp(13));
}

#[test]
fn an_older_timestamp_does_not_win() {
    let mut store = new_store();
    store.set_time(Timestamp(50));
    let h = create_event(&mut store, event("v0")).unwrap().signed_action.hash;
    store.set_time(Timestamp(60));
    let newer = update_event(
        &mut store,
        UpdateEventInput { original_event_hash: h, previous_event_hash: h, updated_event: event("v1") },
    )
    .unwrap()
    .signed_action
    .hash;
    store.set_time(Timestamp(55));
    update_event(
        &mut store,
        UpdateEventInput { original_event_hash: h, previous_event_hash: h, updated_event: event("v2") },
    )
    .unwrap();
    assert_eq!(get_latest_event(&store, h).unwrap().unwrap().signed_action.hash, newer);
}

#[test]
fn assign_twice_moves_the_record() {
    let paths = [
        all_upcoming_events(),
        all_past_events(),
        all_cancelled_events(),
        all_open_proposals(),
        all_expired_proposals(),
        all_cancelled_proposals(),
    ];
    for a in paths.iter() {
        for b in paths.iter() {
            if a == b {
                continue;
            }
            let mut store = new_store();
            let r = ActionHash(40);
            assign(&mut store, r, *a);
            assert!(members(&store, *a).contains(&AnyLinkableHash::Action(r)));
            assign(&mut store, r, *b);
            assert!(!members(&store, *a).contains(&AnyLinkableHash::Action(r)));
            assert!(members(&store, *b).contains(&AnyLinkableHash::Action(r)));
            assert_eq!(current_anchors(&store, r), vec![*b]);
        }
    }
}

#[test]
fn assign_to_the_same_collection_keeps_one_edge() {
    let mut store = new_store();
    let r = ActionHash(40);
    assign(&mut store, r, Path::AllUpcomingEvents);
    assign(&mut store, r, Path::AllUpcomingEvents);
    assert_eq!(get_from_path(&store, Path::AllUpcomingEvents, LinkTypes::UpcomingEvents).len(), 1);
    assert_eq!(store.len(), 3);
}

#[test]
fn assign_leaves_other_records_alone() {
    let mut store = new_store();
    assign(&mut store, ActionHash(40), Path::AllUpcomingEvents);
    assign(&mut store, ActionHash(41), Path::AllUpcomingEvents);
    assign(&mut store, ActionHash(40), Path::AllPastEvents);
    assert!(is_member(&store, Path::AllUpcomingEvents, ActionHash(41)));
    assert!(!is_member(&store, Path::AllUpcomingEvents, ActionHash(40)));
    assert!(is_member(&store, Path::AllPastEvents, ActionHash(40)));
    // the collection of all events stands apart from the six states
    assign(&mut store, ActionHash(40), Path::AllEvents);
    assert_eq!(current_anchors(&store, ActionHash(40)), vec![Path::AllEvents, Path::AllPastEvents]);
    assert_eq!(family_of(Path::AllEvents), vec![Path::AllEvents]);
    assert_eq!(family_of(Path::AllPastEvents).len(), 6);
    assert_eq!(path_at(0), Path::AllEvents);
    assert_eq!(path_at(6), Path::AllCancelledProposals);
}

#[test]
fn proposals_move_between_their_states() {
    let mut store = new_store();
    let p = ActionHash(9);
    store.set_time(Timestamp(1));
    mark_proposal_as_open(&mut store, p);
    assert_eq!(get_all_open_proposals(&store).len(), 1);
    mark_proposal_as_expired(&mut store, p);
    assert!(get_all_open_proposals(&store).is_empty());
    assert_eq!(get_all_expired_proposals(&store)[0].target, AnyLinkableHash::Action(p));
    mark_proposal_as_cancelled(&mut store, p);
    assert!(get_all_expired_proposals(&store).is_empty());
    assert_eq!(get_all_cancelled_proposals(&store)[0].target, AnyLinkableHash::Action(p));
    assert_eq!(current_anchors(&store, p), vec![Path::AllCancelledProposals]);
}

#[test]
fn collections_are_listed_newest_first() {
    let mut store = new_store();
    store.set_time(Timestamp(5));
    assign(&mut store, ActionHash(40), Path::AllUpcomingEvents);
    store.set_time(Timestamp(9));
    assign(&mut store, ActionHash(41), Path::AllUpcomingEvents);
    store.set_time(Timestamp(7));
    assign(&mut store, ActionHash(42), Path::AllUpcomingEvents);
    let listed: Vec<AnyLinkableHash> =
        get_from_path(&store, Path::AllUpcomingEvents, LinkTypes::UpcomingEvents)
            .iter()
            .map(|l| l.target)
            .collect();
    assert_eq!(
        listed,
        vec![
            AnyLinkableHash::Action(ActionHash(41)),
            AnyLinkableHash::Action(ActionHash(42)),
            AnyLinkableHash::Action(ActionHash(40))
        ]
    );
}

#[test]
fn anchors_are_distinct_and_keyed() {
    let mut hashes = vec![];
    for i in 0..7 {
        let p = path_at(i);
        assert!(!hashes.contains(&p.path_entry_hash()));
        hashes.push(p.path_entry_hash());
    }
    assert_eq!(Path::AllEvents.key(), "all_events");
    assert_eq!(all_upcoming_events().key(), "all_upcoming_events");
    assert_eq!(all_past_events().key(), "all_past_events");
    assert_eq!(all_cancelled_events().key(), "all_cancelled_events");
    assert_eq!(all_open_proposals().key(), "all_open_proposals");
    assert_eq!(all_expired_proposals().key(), "all_expired_proposals");
    assert_eq!(all_cancelled_proposals().key(), "all_cancelled_proposals");
    assert_eq!(all_upcoming_events().link_type(), LinkTypes::UpcomingEvents);
    assert_eq!(Path::AllEvents.link_type(), LinkTypes::AllEvents);
}

#[test]
fn unlink_after_link_and_again() {
    let mut store = new_store();
    let a = AnyLinkableHash::Action(ActionHash(3));
    let b = AgentPubKey(5).into_linkable();
    let other = AgentPubKey(6).into_linkable();
    link(&mut store, a, b, LinkTypes::EventToAttendees);
    link(&mut store, a, other, LinkTypes::EventToAttendees);
    assert_eq!(query(&store, a, LinkTypes::EventToAttendees), vec![b, other]);
    unlink(&mut store, a, b, LinkTypes::EventToAttendees);
    assert_eq!(query(&store, a, LinkTypes::EventToAttendees), vec![other]);
    assert_eq!(query_agents(&store, a, LinkTypes::EventToAttendees), vec![AgentPubKey(6)]);
    assert!(query_actions(&store, a, LinkTypes::EventToAttendees).is_empty());
    let before = store.clone();
    unlink(&mut store, a, b, LinkTypes::EventToAttendees);
    assert_eq!(store, before);
}

#[test]
fn remove_from_collection_takes_every_instance() {
    let mut store = new_store();
    let anchor = AnyLinkableHash::Entry(all_open_proposals().path_entry_hash());
    let p = ActionHash(9);
    link(&mut store, anchor, AnyLinkableHash::Action(p), LinkTypes::OpenProposals);
    link(&mut store, anchor, AnyLinkableHash::Action(ActionHash(10)), LinkTypes::OpenProposals);
    link(&mut store, anchor, AnyLinkableHash::Action(p), LinkTypes::OpenProposals);
    remove_from_collection(&mut store, &p, all_open_proposals(), LinkTypes::OpenProposals);
    assert_eq!(store.len(), 5);
    assert_eq!(
        members(&store, Path::AllOpenProposals),
        vec![AnyLinkableHash::Action(ActionHash(10))]
    );
    let before = store.clone();
    remove_from_collection(&mut store, &p, all_open_proposals(), LinkTypes::OpenProposals);
    assert_eq!(store, before);
}

#[test]
fn the_lifecycle_defines_seven_moves() {
    let mut defined = vec![];
    for i in 0..7 {
        for j in 0..7 {
            if is_transition(path_at(i), path_at(j)) {
                defined.push((path_at(i), path_at(j)));
            }
        }
    }
    assert_eq!(
        defined,
        vec![
            (Path::AllUpcomingEvents, Path::AllPastEvents),
            (Path::AllUpcomingEvents, Path::AllCancelledEvents),
            (Path::AllCancelledEvents, Path::AllUpcomingEvents),
            (Path::AllOpenProposals, Path::AllUpcomingEvents),
            (Path::AllOpenProposals, Path::AllExpiredProposals),
            (Path::AllOpenProposals, Path::AllCancelledProposals),
            (Path::AllCancelledProposals, Path::AllOpenProposals),
        ]
    );
}
