use gather::cancellation::{cancel_event, call_to_action, cancellation_anchor};
use gather::cancellations::{
    create_cancellation, delete_cancellation, get_cancellation, get_cancellations_for,
    update_cancellation, UpdateCancellationInput,
};
use gather::error::{GatherError, Malformed, Missing, RemoteFailure, StoreError};
use gather::event::{
    create_event, get_all_event_revisions, get_latest_event, get_original_event, update_event,
    UpdateEventInput,
};
use gather::events_by_author::get_events_by_author;
use gather::global_collections::{
    all_past_events, all_upcoming_events, current_anchors, get_all_cancelled_events,
    get_all_past_events, get_all_upcoming_events, is_member, mark_event_as_cancelled,
    mark_event_as_past, mark_event_as_upcoming, members, Path,
};
use gather::hash::{ActionHash, AgentPubKey, AnyLinkableHash, DnaHash, EntryHash};
use gather::integrity::{Cancellation, EntryTypes, Event, EventTime, FromProposal, LinkTypes, Proposal};
use gather::my_events::get_my_events;
use gather::notifications::ZomeCallResponse;
use gather::proposal::{create_proposal, get_events_for_proposal};
use gather::record::{Action, Record, Timestamp};
use gather::relations::link;
use gather::store::Store;

fn alice() -> AgentPubKey {
    AgentPubKey(1)
}

fn new_store() -> Store {
    Store::new(alice(), DnaHash(7))
}

fn meetup() -> Event {
    Event {
        hosts: vec![alice()],
        title: "Meetup".to_string(),
        description: "Lorem ipsum".to_string(),
        image: EntryHash(99),
        location: "Here".to_string(),
        time: EventTime::Unique { start_time: Timestamp(100), end_time: Timestamp(200) },
        cost: None,
        call_to_action_hash: ActionHash(1000),
        from_proposal: None,
    }
}

fn sample_proposal() -> Proposal {
    Proposal {
        hosts: vec![alice()],
        title: "Picnic".to_string(),
        description: "Let us have a picnic".to_string(),
        image: EntryHash(98),
        location: None,
        time: None,
        cost: None,
        call_to_action_hash: ActionHash(1001),
    }
}

fn sample_cancellation_1(store: &mut Store) -> Cancellation {
    let event_hash = create_event(store, meetup()).unwrap().signed_action.hash;
    Cancellation {
        reason: "Lorem ipsum dolor sit amet, consectetur adipiscing elit.".to_string(),
        event_hash,
    }
}

fn sample_cancellation_2(store: &mut Store) -> Cancellation {
    let event_hash = create_event(store, meetup()).unwrap().signed_action.hash;
    Cancellation { reason: "Lorem ipsum 2".to_string(), event_hash }
}

fn targets(links: &Vec<gather::record::Link>) -> Vec<AnyLinkableHash> {
    links.iter().map(|l| l.target).collect()
}

#[test]
fn create_event_then_mark_as_past() {
    let mut store = new_store();
    store.set_time(Timestamp(10));
    let record = create_event(&mut store, meetup()).unwrap().clone();
    assert_eq!(record.entry, Some(EntryTypes::Event(meetup())));
    assert_eq!(record.signed_action.hash, ActionHash(0));
    match record.signed_action.action {
        Action::Create(c) => {
            assert_eq!(c.author, alice());
            assert_eq!(c.timestamp, Timestamp(10));
        }
        _ => panic!("the record of a new event is the commit of an entry"),
    }
    let e1 = record.signed_action.hash;
    assert!(targets(&get_all_upcoming_events(&store)).contains(&AnyLinkableHash::Action(e1)));
    assert!(targets(&get_my_events(&store)).contains(&AnyLinkableHash::Action(e1)));

    mark_event_as_past(&mut store, e1);
    assert!(!targets(&get_all_upcoming_events(&store)).contains(&AnyLinkableHash::Action(e1)));
    assert!(targets(&get_all_past_events(&store)).contains(&AnyLinkableHash::Action(e1)));
    assert_eq!(current_anchors(&store, e1), vec![Path::AllPastEvents]);
    assert!(get_all_upcoming_events(&store).is_empty());
}

#[test]
fn create_event_writes_its_edges() {
    let mut store = new_store();
    create_event(&mut store, meetup()).unwrap();
    assert_eq!(store.len(), 4);
    let by_author = store.get_links(alice().into_linkable(), LinkTypes::EventsByAuthor.scoped());
    assert_eq!(by_author.len(), 1);
    assert_eq!(by_author[0].create_link_hash, ActionHash(3));
    assert_eq!(by_author[0].target, AnyLinkableHash::Action(ActionHash(0)));
    let upcoming = get_all_upcoming_events(&store);
    assert_eq!(upcoming.len(), 1);
    assert_eq!(upcoming[0].create_link_hash, ActionHash(1));
    assert_eq!(upcoming[0].base, AnyLinkableHash::Entry(all_upcoming_events().path_entry_hash()));
    let mine = get_my_events(&store);
    assert_eq!(mine.len(), 1);
    assert_eq!(mine[0].create_link_hash, ActionHash(2));
    assert_eq!(mine[0].base, AnyLinkableHash::Entry(EntryHash(1)));
}

#[test]
fn create_event_from_proposal_closes_the_proposal() {
    let mut store = new_store();
    let proposal_hash = create_proposal(&mut store, sample_proposal()).unwrap().signed_action.hash;
    assert!(is_member(&store, Path::AllOpenProposals, proposal_hash));
    let mut event = meetup();
    event.from_proposal = Some(FromProposal { proposal_hash, assembly_hash: ActionHash(500) });
    let event_hash = create_event(&mut store, event).unwrap().signed_action.hash;
    assert!(!is_member(&store, Path::AllOpenProposals, proposal_hash));
    assert!(is_member(&store, Path::AllUpcomingEvents, event_hash));
    assert_eq!(get_events_for_proposal(&store, proposal_hash), vec![event_hash]);
}

#[test]
fn cancelled_event_can_become_upcoming_again() {
    let mut store = new_store();
    let e1 = create_event(&mut store, meetup()).unwrap().signed_action.hash;
    mark_event_as_cancelled(&mut store, e1);
    assert_eq!(current_anchors(&store, e1), vec![Path::AllCancelledEvents]);
    assert_eq!(targets(&get_all_cancelled_events(&store)), vec![AnyLinkableHash::Action(e1)]);
    mark_event_as_upcoming(&mut store, e1);
    assert_eq!(current_anchors(&store, e1), vec![Path::AllUpcomingEvents]);
}

#[test]
fn cancel_routes_by_fulfillment() {
    // no assembly has formed: the record counts as a cancelled proposal
    let mut store = new_store();
    let e1 = create_event(&mut store, meetup()).unwrap().signed_action.hash;
    let cancellation = Cancellation { reason: "rain".to_string(), event_hash: e1 };
    assert_eq!(call_to_action(&store, &cancellation), Ok(ActionHash(1000)));
    let record = cancel_event(&mut store, cancellation.clone(), &ZomeCallResponse::Returned(vec![]))
        .unwrap()
        .clone();
    assert_eq!(record.entry, Some(EntryTypes::Cancellation(cancellation)));
    assert_eq!(current_anchors(&store, e1), vec![Path::AllCancelledProposals]);
    assert!(store.get(e1).is_none());

    // an assembly has formed: the record counts as a cancelled event
    let mut store = new_store();
    let e2 = create_event(&mut store, meetup()).unwrap().signed_action.hash;
    let cancellation = Cancellation { reason: "rain".to_string(), event_hash: e2 };
    cancel_event(
        &mut store,
        cancellation,
        &ZomeCallResponse::Returned(vec![ActionHash(77)]),
    )
    .unwrap();
    assert_eq!(current_anchors(&store, e2), vec![Path::AllCancelledEvents]);
    assert_eq!(
        cancellation_anchor(&ZomeCallResponse::Returned(vec![ActionHash(77)])),
        Ok(Path::AllCancelledEvents)
    );
    assert_eq!(
        cancellation_anchor(&ZomeCallResponse::Returned(vec![])),
        Ok(Path::AllCancelledProposals)
    );
}

#[test]
fn cancel_writes_nothing_when_the_call_failed() {
    let mut store = new_store();
    let e1 = create_event(&mut store, meetup()).unwrap().signed_action.hash;
    let before = store.clone();
    let cancellation = Cancellation { reason: "rain".to_string(), event_hash: e1 };
    let r = cancel_event(&mut store, cancellation.clone(), &ZomeCallResponse::NetworkError)
        .map(|r| r.clone());
    assert_eq!(r, Err(GatherError::RemoteFailure(RemoteFailure::NetworkError)));
    assert_eq!(store, before);
    let r = cancel_event(&mut store, cancellation.clone(), &ZomeCallResponse::Unauthorized)
        .map(|r| r.clone());
    assert_eq!(r, Err(GatherError::RemoteFailure(RemoteFailure::Unauthorized)));
    let r = cancel_event(&mut store, cancellation.clone(), &ZomeCallResponse::AuthenticationFailed)
        .map(|r| r.clone());
    assert_eq!(r, Err(GatherError::RemoteFailure(RemoteFailure::AuthenticationFailed)));
    let r = cancel_event(&mut store, cancellation, &ZomeCallResponse::CountersigningSession)
        .map(|r| r.clone());
    assert_eq!(r, Err(GatherError::RemoteFailure(RemoteFailure::CountersigningSession)));
    assert_eq!(store, before);
    assert_eq!(current_anchors(&store, e1), vec![Path::AllUpcomingEvents]);
}

#[test]
fn cancel_of_what_is_no_event_fails() {
    let mut store = new_store();
    let missing = Cancellation { reason: "x".to_string(), event_hash: ActionHash(42) };
    let r = cancel_event(&mut store, missing, &ZomeCallResponse::Returned(vec![]))
        .map(|r| r.clone());
    assert_eq!(r, Err(GatherError::NotFound(Missing::Event)));
    assert_eq!(store.len(), 0);

    let proposal_hash = create_proposal(&mut store, sample_proposal()).unwrap().signed_action.hash;
    let before = store.clone();
    let wrong = Cancellation { reason: "x".to_string(), event_hash: proposal_hash };
    let r = cancel_event(&mut store, wrong, &ZomeCallResponse::Returned(vec![]))
        .map(|r| r.clone());
    assert_eq!(r, Err(GatherError::MalformedData(Malformed::NotAnEvent)));
    assert_eq!(store, before);
}

#[test]
fn duplicate_edges_count_once() {
    let mut store = new_store();
    let e1 = create_event(&mut store, meetup()).unwrap().signed_action.hash;
    let anchor = AnyLinkableHash::Entry(all_upcoming_events().path_entry_hash());
    // a second, independent edge for the same base, target and type
    link(&mut store, anchor, AnyLinkableHash::Action(e1), LinkTypes::UpcomingEvents);
    assert_eq!(get_all_upcoming_events(&store).len(), 2);
    assert_eq!(members(&store, Path::AllUpcomingEvents), vec![AnyLinkableHash::Action(e1)]);
    // both instances go when the event moves on
    mark_event_as_past(&mut store, e1);
    assert!(get_all_upcoming_events(&store).is_empty());
    assert_eq!(members(&store, all_past_events()), vec![AnyLinkableHash::Action(e1)]);
}

#[test]
fn create_cancellation_test() {
    let mut store = new_store();
    let sample = sample_cancellation_1(&mut store);
    let record: Record = create_cancellation(&mut store, sample.clone()).unwrap().clone();
    let entry = match record.entry {
        Some(EntryTypes::Cancellation(c)) => c,
        _ => panic!("the record carries the cancellation"),
    };
    assert!(entry.eq(&sample));
}

#[test]
fn create_and_read_cancellation() {
    let mut store = new_store();
    let sample = sample_cancellation_1(&mut store);
    let record: Record = create_cancellation(&mut store, sample.clone()).unwrap().clone();
    // another participant reads
    store.set_agent(AgentPubKey(2));
    let get_record: Option<Record> =
        get_cancellation(&store, record.signed_action.hash).unwrap().cloned();
    assert_eq!(record, get_record.unwrap());
    assert_eq!(get_cancellations_for(&store, sample.event_hash), vec![record.signed_action.hash]);
}

#[test]
fn create_and_update_cancellation() {
    let mut store = new_store();
    let sample_1 = sample_cancellation_1(&mut store);
    let record: Record = create_cancellation(&mut store, sample_1.clone()).unwrap().clone();
    let original_action_hash = record.signed_action.hash;

    let sample_2 = sample_cancellation_2(&mut store);
    let input = UpdateCancellationInput {
        previous_cancellation_hash: original_action_hash,
        updated_cancellation: sample_2.clone(),
    };
    let update_record: Record = update_cancellation(&mut store, input).unwrap().clone();
    let entry = match update_record.entry.clone() {
        Some(EntryTypes::Cancellation(c)) => c,
        _ => panic!("the record carries the cancellation"),
    };
    assert_eq!(sample_2, entry);

    let get_record: Option<Record> =
        get_cancellation(&store, original_action_hash).unwrap().cloned();
    assert_eq!(update_record, get_record.unwrap());

    let input = UpdateCancellationInput {
        previous_cancellation_hash: update_record.signed_action.hash,
        updated_cancellation: sample_1.clone(),
    };
    let update_record: Record = update_cancellation(&mut store, input).unwrap().clone();
    let entry = match update_record.entry.clone() {
        Some(EntryTypes::Cancellation(c)) => c,
        _ => panic!("the record carries the cancellation"),
    };
    assert_eq!(sample_1, entry);

    let get_record: Option<Record> =
        get_cancellation(&store, original_action_hash).unwrap().cloned();
    assert_eq!(update_record, get_record.unwrap());
}

#[test]
fn create_and_delete_cancellation() {
    let mut store = new_store();
    let sample_1 = sample_cancellation_1(&mut store);
    let record: Record = create_cancellation(&mut store, sample_1.clone()).unwrap().clone();
    let original_action_hash = record.signed_action.hash;

    let _delete_action_hash: ActionHash =
        delete_cancellation(&mut store, original_action_hash).unwrap();

    let get_record: Option<Record> =
        get_cancellation(&store, original_action_hash).unwrap().cloned();
    assert!(get_record.is_none());
}

#[test]
fn create_a_event_and_get_events_by_author() {
    let mut store = new_store();
    let record: Record = create_event(&mut store, meetup()).unwrap().clone();
    store.set_agent(AgentPubKey(2));
    let get_records: Vec<Record> =
        get_events_by_author(&store, alice()).into_iter().cloned().collect();
    assert_eq!(get_records.len(), 1);
    assert_eq!(get_records[0], record);
}

#[test]
fn events_are_listed_under_their_own_author() {
    let mut store = new_store();
    let first = create_event(&mut store, meetup()).unwrap().clone();
    store.set_agent(AgentPubKey(2));
    let second = create_event(&mut store, meetup()).unwrap().clone();
    let of_alice: Vec<Record> =
        get_events_by_author(&store, alice()).into_iter().cloned().collect();
    assert_eq!(of_alice, vec![first]);
    let of_bob: Vec<Record> =
        get_events_by_author(&store, AgentPubKey(2)).into_iter().cloned().collect();
    assert_eq!(of_bob, vec![second]);
    assert!(get_events_by_author(&store, AgentPubKey(3)).is_empty());
}

#[test]
fn missing_cancellation_is_nothing() {
    let store = new_store();
    let r = get_cancellation(&store, ActionHash(3)).map(|r| r.cloned());
    assert_eq!(r, Ok(None));
    let r = gather::cancellation::get_cancellation(&store, ActionHash(3)).map(|r| r.cloned());
    assert_eq!(r, Ok(None));
}

#[test]
fn update_of_what_is_no_entry_is_refused() {
    let mut store = new_store();
    let input = UpdateCancellationInput {
        previous_cancellation_hash: ActionHash(5),
        updated_cancellation: Cancellation { reason: "r".to_string(), event_hash: ActionHash(0) },
    };
    let r = update_cancellation(&mut store, input).map(|r| r.clone());
    assert_eq!(r, Err(GatherError::PolicyViolation(StoreError::NotAnEntryCommit(ActionHash(5)))));
    assert_eq!(store.len(), 0);
    assert_eq!(
        delete_cancellation(&mut store, ActionHash(5)),
        Err(GatherError::PolicyViolation(StoreError::NotAnEntryCommit(ActionHash(5))))
    );
}

#[test]
fn event_revisions_resolve_to_the_newest() {
    let mut store = new_store();
    store.set_time(Timestamp(1));
    let original = create_event(&mut store, meetup()).unwrap().signed_action.hash;
    assert_eq!(
        get_latest_event(&store, original).unwrap().unwrap().signed_action.hash,
        original
    );
    let mut second = meetup();
    second.title = "Meetup, moved".to_string();
    store.set_time(Timestamp(2));
    let r2 = update_event(
        &mut store,
        UpdateEventInput {
            original_event_hash: original,
            previous_event_hash: original,
            updated_event: second.clone(),
        },
    )
    .unwrap()
    .clone();
    let mut third = meetup();
    third.title = "Meetup, moved again".to_string();
    store.set_time(Timestamp(3));
    let r3 = update_event(
        &mut store,
        UpdateEventInput {
            original_event_hash: original,
            previous_event_hash: r2.signed_action.hash,
            updated_event: third.clone(),
        },
    )
    .unwrap()
    .clone();
    assert_eq!(r3.entry, Some(EntryTypes::Event(third)));
    assert_eq!(get_latest_event(&store, original).unwrap().cloned(), Some(r3.clone()));
    assert_eq!(
        get_original_event(&store, original).unwrap().unwrap().entry,
        Some(EntryTypes::Event(meetup()))
    );
    let revisions: Vec<ActionHash> = get_all_event_revisions(&store, original)
        .into_iter()
        .map(|r| r.signed_action.hash)
        .collect();
    assert_eq!(revisions, vec![original, r2.signed_action.hash, r3.signed_action.hash]);
    assert!(get_all_event_revisions(&store, ActionHash(500)).is_empty());
    assert_eq!(get_original_event(&store, ActionHash(500)).unwrap(), None);
}
