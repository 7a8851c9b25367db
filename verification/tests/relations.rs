use gather::all_events::get_all_events;
use gather::attendees_attestation::{
    create_attendees_attestation, get_attendees_attestation,
    get_attendees_attestations_for_ateendee, get_attendees_attestations_for_event,
    update_attendees_attestation, UpdateAttendeesAttestationInput,
};
use gather::cancellation::{get_cancellations_for_event, only_actions};
use gather::cancellations::create_cancellation;
use gather::error::{GatherError, Malformed, Missing, StoreError};
use gather::event::create_event;
use gather::event_to_attendees::{
    add_attendee_for_event, get_attendees_for_event, get_events_for_attendee,
    remove_attendee_for_event, AddAttendeeForEventInput, RemoveAttendeeForEventInput,
};
use gather::global_collections::Path;
use gather::hash::{ActionHash, AgentPubKey, AnyLinkableHash, DnaHash, EntryHash, ExternalHash};
use gather::integrity::cancellation::{
    validate_create_cancellation, validate_create_link_event_to_cancellations,
    validate_delete_cancellation, validate_delete_link_event_to_cancellations,
    validate_update_cancellation,
};
use gather::integrity::event::{
    validate_create_link_events_by_author, validate_delete_link_events_by_author,
};
use gather::integrity::{
    must_get_entry, must_get_linked_entry, validate, AttendeesAttestation, Cancellation,
    EntryTypes, Event, EventTime, LinkTypes, Proposal, ValidateCallbackResult,
};
use gather::interested::{add_myself_as_interested, get_interested_in, remove_myself_as_interested};
use gather::my_events::{add_to_my_events, get_my_events, remove_from_my_events};
use gather::possible_participant::{
    add_myself_as_possible_participant, get_possible_participants,
    remove_myself_as_a_possible_participant,
};
use gather::proposal::{
    create_proposal, get_all_proposal_revisions, get_proposal, update_proposal,
    UpdateProposalInput,
};
use gather::record::{
    Action, Create, CreateLink, Delete, DeleteLink, EntryCreationAction, LinkTag, Timestamp, Update,
};
use gather::relations::{found_hashes, found_records, link};
use gather::commits::{fetch_created, supersede, tombstone};
use gather::error::EntryKind;
use gather::revisions::{
    chain_step, current_revision, latest_revision, record_from_details, revision_hashes,
    revisions_step, Resolution,
};
use gather::store::Store;

fn new_store() -> Store {
    Store::new(AgentPubKey(1), DnaHash(7))
}

fn event(title: &str) -> Event {
    Event {
        hosts: vec![],
        title: title.to_string(),
        description: String::new(),
        image: EntryHash(0),
        location: String::new(),
        time: EventTime::Unique { start_time: Timestamp(100), end_time: Timestamp(200) },
        cost: None,
        call_to_action_hash: ActionHash(1000),
        from_proposal: None,
    }
}

fn proposal(title: &str) -> Proposal {
    Proposal {
        hosts: vec![],
        title: title.to_string(),
        description: String::new(),
        image: EntryHash(0),
        location: None,
        time: None,
        cost: None,
        call_to_action_hash: ActionHash(1000),
    }
}

fn create() -> Create {
    Create { author: AgentPubKey(1), timestamp: Timestamp(0) }
}

fn create_link_action() -> CreateLink {
    CreateLink {
        author: AgentPubKey(1),
        timestamp: Timestamp(0),
        base_address: AnyLinkableHash::Action(ActionHash(0)),
        target_address: AnyLinkableHash::Action(ActionHash(1)),
        zome_index: 0,
        link_type: 12,
        tag: LinkTag::Unit,
    }
}

fn delete_link_action() -> DeleteLink {
    DeleteLink {
        author: AgentPubKey(1),
        timestamp: Timestamp(0),
        base_address: AnyLinkableHash::Action(ActionHash(0)),
        link_add_address: ActionHash(2),
    }
}

#[test]
fn attendees_come_and_go() {
    let mut store = new_store();
    let e = create_event(&mut store, event("a")).unwrap().signed_action.hash;
    let bob = AgentPubKey(2);
    let carol = AgentPubKey(3);
    add_attendee_for_event(&mut store, AddAttendeeForEventInput { event_hash: e, attendee: bob });
    add_attendee_for_event(&mut store, AddAttendeeForEventInput { event_hash: e, attendee: carol });
    add_attendee_for_event(&mut store, AddAttendeeForEventInput { event_hash: e, attendee: bob });
    assert_eq!(get_attendees_for_event(&store, e), vec![bob, carol]);
    assert_eq!(get_events_for_attendee(&store, bob), vec![e]);
    remove_attendee_for_event(&mut store, RemoveAttendeeForEventInput { event_hash: e, attendee: bob });
    assert_eq!(get_attendees_for_event(&store, e), vec![carol]);
    assert!(get_events_for_attendee(&store, bob).is_empty());
    assert_eq!(get_events_for_attendee(&store, carol), vec![e]);
    let before = store.clone();
    remove_attendee_for_event(&mut store, RemoveAttendeeForEventInput { event_hash: e, attendee: bob });
    assert_eq!(store, before);
    // an event that is tombstoned is no longer listed for the attendee
    store.delete_entry(e).unwrap();
    assert!(get_events_for_attendee(&store, carol).is_empty());
}

#[test]
fn interest_is_recorded_both_ways() {
    let mut store = new_store();
    let e = create_event(&mut store, event("a")).unwrap().signed_action.hash;
    store.set_agent(AgentPubKey(2));
    add_myself_as_interested(&mut store, e);
    let interested = get_interested_in(&store, e);
    assert_eq!(interested.len(), 1);
    assert_eq!(interested[0].target, AgentPubKey(2).into_linkable());
    assert_eq!(get_my_events(&store).len(), 1);
    assert_eq!(get_my_events(&store)[0].target, AnyLinkableHash::Action(e));
    remove_myself_as_interested(&mut store, e);
    assert!(get_interested_in(&store, e).is_empty());
    assert!(get_my_events(&store).is_empty());
    let before = store.clone();
    remove_myself_as_interested(&mut store, e);
    assert_eq!(store, before);
}

#[test]
fn possible_participants_are_listed_once() {
    let mut store = new_store();
    let e = create_event(&mut store, event("a")).unwrap().signed_action.hash;
    store.set_agent(AgentPubKey(2));
    add_myself_as_possible_participant(&mut store, e);
    add_myself_as_possible_participant(&mut store, e);
    store.set_agent(AgentPubKey(3));
    add_myself_as_possible_participant(&mut store, e);
    assert_eq!(get_possible_participants(&store, e), vec![AgentPubKey(2), AgentPubKey(3)]);
    store.set_agent(AgentPubKey(2));
    remove_myself_as_a_possible_participant(&mut store, e);
    assert_eq!(get_possible_participants(&store, e), vec![AgentPubKey(3)]);
    assert!(get_my_events(&store).is_empty());
}

#[test]
fn my_events_are_kept_by_participant() {
    let mut store = new_store();
    add_to_my_events(&mut store, ActionHash(30));
    add_to_my_events(&mut store, ActionHash(31));
    assert_eq!(get_my_events(&store).len(), 2);
    store.set_agent(AgentPubKey(2));
    assert!(get_my_events(&store).is_empty());
    remove_from_my_events(&mut store, ActionHash(30));
    store.set_agent(AgentPubKey(1));
    assert_eq!(get_my_events(&store).len(), 2);
    remove_from_my_events(&mut store, ActionHash(30));
    assert_eq!(get_my_events(&store).len(), 1);
    assert_eq!(get_my_events(&store)[0].target, AnyLinkableHash::Action(ActionHash(31)));
}

#[test]
fn all_events_lists_what_is_found() {
    let mut store = new_store();
    let e1 = create_event(&mut store, event("a")).unwrap().signed_action.hash;
    let e2 = create_event(&mut store, event("b")).unwrap().signed_action.hash;
    let anchor = AnyLinkableHash::Entry(Path::AllEvents.path_entry_hash());
    link(&mut store, anchor, AnyLinkableHash::Action(e1), LinkTypes::AllEvents);
    link(&mut store, anchor, AnyLinkableHash::Action(e2), LinkTypes::AllEvents);
    link(&mut store, anchor, AnyLinkableHash::Action(e1), LinkTypes::AllEvents);
    link(&mut store, anchor, AnyLinkableHash::Action(ActionHash(900)), LinkTypes::AllEvents);
    link(&mut store, anchor, AnyLinkableHash::External(ExternalHash(1)), LinkTypes::AllEvents);
    assert_eq!(get_all_events(&store), vec![e1, e2]);
    store.delete_entry(e1).unwrap();
    assert_eq!(get_all_events(&store), vec![e2]);
    assert_eq!(found_hashes(&store, &vec![e1, e2, ActionHash(900)]), vec![e2]);
    assert_eq!(found_records(&store, &vec![e1, e2, ActionHash(900)]).len(), 1);
}

#[test]
fn attestations_link_attendees_and_event() {
    let mut store = new_store();
    let e = create_event(&mut store, event("a")).unwrap().signed_action.hash;
    let attestation =
        AttendeesAttestation { ateendees: vec![AgentPubKey(2), AgentPubKey(3)], event_hash: e };
    let record = create_attendees_attestation(&mut store, attestation.clone()).unwrap().clone();
    assert_eq!(record.entry, Some(EntryTypes::AttendeesAttestation(attestation.clone())));
    let h = record.signed_action.hash;
    assert_eq!(store.len(), 4 + 1 + 2 + 1);
    assert_eq!(get_attendees_attestations_for_ateendee(&store, AgentPubKey(2)), vec![h]);
    assert_eq!(get_attendees_attestations_for_ateendee(&store, AgentPubKey(3)), vec![h]);
    assert!(get_attendees_attestations_for_ateendee(&store, AgentPubKey(4)).is_empty());
    assert_eq!(get_attendees_attestations_for_event(&store, e), vec![h]);
    assert_eq!(get_attendees_attestation(&store, h).unwrap().cloned(), Some(record));

    let updated = AttendeesAttestation { ateendees: vec![AgentPubKey(2)], event_hash: e };
    let second = update_attendees_attestation(
        &mut store,
        UpdateAttendeesAttestationInput {
            previous_attendees_attestation_hash: h,
            updated_attendees_attestation: updated.clone(),
        },
    )
    .unwrap()
    .clone();
    assert_eq!(second.entry, Some(EntryTypes::AttendeesAttestation(updated)));
    assert_eq!(get_attendees_attestation(&store, h).unwrap().cloned(), Some(second));
    assert_eq!(
        get_attendees_attestation(&store, ActionHash(400)).map(|r| r.cloned()),
        Ok(None)
    );
}

#[test]
fn proposals_are_created_open() {
    let mut store = new_store();
    store.set_time(Timestamp(1));
    let record = create_proposal(&mut store, proposal("Picnic")).unwrap().clone();
    assert_eq!(record.entry, Some(EntryTypes::Proposal(proposal("Picnic"))));
    let p = record.signed_action.hash;
    assert_eq!(store.len(), 3);
    assert_eq!(gather::global_collections::current_anchors(&store, p), vec![Path::AllOpenProposals]);
    assert_eq!(get_my_events(&store)[0].target, AnyLinkableHash::Action(p));
    assert_eq!(get_proposal(&store, p).unwrap().cloned(), Some(record));
    store.set_time(Timestamp(2));
    let second = update_proposal(
        &mut store,
        UpdateProposalInput {
            original_proposal_hash: p,
            previous_proposal_hash: p,
            updated_proposal: proposal("Picnic in the park"),
        },
    )
    .unwrap()
    .clone();
    assert_eq!(get_proposal(&store, p).unwrap().cloned(), Some(second.clone()));
    let revisions: Vec<ActionHash> =
        get_all_proposal_revisions(&store, p).iter().map(|r| r.signed_action.hash).collect();
    assert_eq!(revisions, vec![p, second.signed_action.hash]);
    let r = update_proposal(
        &mut store,
        UpdateProposalInput {
            original_proposal_hash: p,
            previous_proposal_hash: ActionHash(77),
            updated_proposal: proposal("x"),
        },
    )
    .map(|r| r.clone());
    assert_eq!(r, Err(GatherError::PolicyViolation(StoreError::NotAnEntryCommit(ActionHash(77)))));
}

#[test]
fn revisions_branch_and_are_listed_root_first() {
    let mut store = new_store();
    let root = store.create_entry(EntryTypes::Event(event("root")));
    let a = store.update_entry(root, EntryTypes::Event(event("a"))).unwrap();
    let b = store.update_entry(root, EntryTypes::Event(event("b"))).unwrap();
    let a1 = store.update_entry(a, EntryTypes::Event(event("a1"))).unwrap();
    let b1 = store.update_entry(b, EntryTypes::Event(event("b1"))).unwrap();
    let a2 = store.update_entry(a, EntryTypes::Event(event("a2"))).unwrap();
    assert_eq!(revision_hashes(&store, root), vec![root, a, a1, a2, b, b1]);
    assert_eq!(revision_hashes(&store, b), vec![b, b1]);
    assert_eq!(revision_hashes(&store, ActionHash(99)), Vec::<ActionHash>::new());
}

#[test]
fn steps_of_the_walk() {
    let mut store = new_store();
    let h = store.create_entry(EntryTypes::Event(event("root")));
    let details = store.get_details(h.into_any_dht_hash());
    assert_eq!(chain_step(&details), Ok(Resolution::Current));
    assert_eq!(record_from_details(details).unwrap().unwrap().signed_action.hash, h);
    let u1 = store.update_entry(h, EntryTypes::Event(event("a"))).unwrap();
    let u2 = store.update_entry(h, EntryTypes::Event(event("b"))).unwrap();
    assert_ne!(u1, u2);
    let details = store.get_details(h.into_any_dht_hash());
    assert_eq!(chain_step(&details), Ok(Resolution::Follow(u2)));
    store.delete_entry(h).unwrap();
    let details = store.get_details(h.into_any_dht_hash());
    assert_eq!(chain_step(&details), Ok(Resolution::Deleted));
    assert_eq!(chain_step(&None), Ok(Resolution::Absent));
    let entry_details = Some(gather::record::Details::Entry(gather::record::EntryDetails {
        actions: vec![h],
    }));
    assert_eq!(
        chain_step(&entry_details),
        Err(GatherError::MalformedData(Malformed::Details))
    );
    assert_eq!(
        record_from_details(entry_details).map(|r| r.cloned()),
        Err(GatherError::MalformedData(Malformed::Details))
    );
    assert_eq!(record_from_details(None).map(|r| r.cloned()), Ok(None));
    assert_eq!(latest_revision(h, None), Ok(h));
}

#[test]
fn an_updates_edge_that_names_no_commit_is_malformed() {
    let mut store = new_store();
    let h = store.create_entry(EntryTypes::Event(event("root")));
    link(
        &mut store,
        AnyLinkableHash::Action(h),
        AnyLinkableHash::Entry(EntryHash(3)),
        LinkTypes::Updates,
    );
    assert_eq!(
        gather::event::get_latest_event(&store, h).map(|r| r.cloned()),
        Err(GatherError::MalformedData(Malformed::NoActionHash))
    );
}

#[test]
fn cancellations_of_an_event_are_fetched() {
    let mut store = new_store();
    let e = create_event(&mut store, event("a")).unwrap().signed_action.hash;
    let c = create_cancellation(&mut store, Cancellation { reason: "r".to_string(), event_hash: e })
        .unwrap()
        .clone();
    link(
        &mut store,
        AnyLinkableHash::Action(e),
        AnyLinkableHash::Action(c.signed_action.hash),
        LinkTypes::EventToCancellations,
    );
    let found: Vec<_> =
        get_cancellations_for_event(&store, e).unwrap().into_iter().cloned().collect();
    assert_eq!(found, vec![c]);
    link(
        &mut store,
        AnyLinkableHash::Action(e),
        AnyLinkableHash::Entry(EntryHash(5)),
        LinkTypes::EventToCancellations,
    );
    assert_eq!(
        get_cancellations_for_event(&store, e).map(|v| v.len()),
        Err(GatherError::MalformedData(Malformed::NoActionHash))
    );
    assert_eq!(
        only_actions(&vec![AnyLinkableHash::Action(ActionHash(1)), AnyLinkableHash::Action(ActionHash(2))]),
        Ok(vec![ActionHash(1), ActionHash(2)])
    );
}

#[test]
fn validation_of_cancellations() {
    let mut store = new_store();
    let e = create_event(&mut store, event("a")).unwrap().signed_action.hash;
    let p = create_proposal(&mut store, proposal("p")).unwrap().signed_action.hash;
    let good = Cancellation { reason: "r".to_string(), event_hash: e };
    let c = create_cancellation(&mut store, good.clone()).unwrap().signed_action.hash;
    let action = EntryCreationAction::Create(create());
    assert_eq!(
        validate_create_cancellation(&store, action, &good),
        Ok(ValidateCallbackResult::Valid)
    );
    assert_eq!(
        validate_create_cancellation(
            &store,
            action,
            &Cancellation { reason: "r".to_string(), event_hash: p }
        ),
        Err(GatherError::MalformedData(Malformed::NotAnEvent))
    );
    assert_eq!(
        validate_create_cancellation(
            &store,
            action,
            &Cancellation { reason: "r".to_string(), event_hash: ActionHash(1) }
        ),
        Err(GatherError::MalformedData(Malformed::NoEntry))
    );
    assert_eq!(
        validate_create_cancellation(
            &store,
            action,
            &Cancellation { reason: "r".to_string(), event_hash: ActionHash(600) }
        ),
        Err(GatherError::PolicyViolation(StoreError::NoSuchCommit(ActionHash(600))))
    );
    let update = Update {
        author: AgentPubKey(1),
        timestamp: Timestamp(0),
        original_action_address: c,
    };
    assert_eq!(
        validate_update_cancellation(update, &good, action, &good),
        Ok(ValidateCallbackResult::Valid)
    );
    let delete = Delete { author: AgentPubKey(1), timestamp: Timestamp(0), deletes_address: c };
    assert_eq!(validate_delete_cancellation(delete, action, &good), Ok(ValidateCallbackResult::Valid));

    let from = AnyLinkableHash::Action(e);
    let to = AnyLinkableHash::Action(c);
    assert_eq!(
        validate_create_link_event_to_cancellations(&store, create_link_action(), from, to, LinkTag::Unit),
        Ok(ValidateCallbackResult::Valid)
    );
    assert_eq!(
        validate_create_link_event_to_cancellations(&store, create_link_action(), to, from, LinkTag::Unit),
        Err(GatherError::MalformedData(Malformed::NotAnEvent))
    );
    assert_eq!(
        validate_create_link_event_to_cancellations(&store, create_link_action(), from, from, LinkTag::Unit),
        Err(GatherError::MalformedData(Malformed::NotACancellation))
    );
    assert_eq!(
        validate_create_link_event_to_cancellations(
            &store,
            create_link_action(),
            AnyLinkableHash::Entry(EntryHash(1)),
            to,
            LinkTag::Unit
        ),
        Err(GatherError::MalformedData(Malformed::NoActionHash))
    );
    assert_eq!(
        validate_create_link_event_to_cancellations(
            &store,
            create_link_action(),
            from,
            AnyLinkableHash::External(ExternalHash(1)),
            LinkTag::Unit
        ),
        Err(GatherError::MalformedData(Malformed::NoActionHash))
    );
    assert_eq!(
        validate_delete_link_event_to_cancellations(
            delete_link_action(),
            create_link_action(),
            from,
            to,
            LinkTag::Unit
        ),
        Ok(ValidateCallbackResult::Invalid(
            "EventToCancellations links cannot be deleted".to_string()
        ))
    );
}

#[test]
fn validation_of_events_by_author() {
    let mut store = new_store();
    let e = create_event(&mut store, event("a")).unwrap().signed_action.hash;
    let p = create_proposal(&mut store, proposal("p")).unwrap().signed_action.hash;
    let author = AgentPubKey(1).into_linkable();
    assert_eq!(
        validate_create_link_events_by_author(
            &store,
            create_link_action(),
            author,
            AnyLinkableHash::Action(e),
            LinkTag::Unit
        ),
        Ok(ValidateCallbackResult::Valid)
    );
    assert_eq!(
        validate_create_link_events_by_author(
            &store,
            create_link_action(),
            author,
            AnyLinkableHash::Action(p),
            LinkTag::Unit
        ),
        Err(GatherError::MalformedData(Malformed::NotAnEvent))
    );
    assert_eq!(
        validate_create_link_events_by_author(&store, create_link_action(), author, author, LinkTag::Unit),
        Err(GatherError::MalformedData(Malformed::NoActionHash))
    );
    assert_eq!(
        validate_delete_link_events_by_author(
            delete_link_action(),
            create_link_action(),
            author,
            AnyLinkableHash::Action(e),
            LinkTag::Unit
        ),
        Ok(ValidateCallbackResult::Invalid("EventsByAuthor links cannot be deleted".to_string()))
    );
    let record = store.get(e).unwrap();
    assert_eq!(validate(record), ValidateCallbackResult::Valid);
    assert_eq!(gather::alerts_integrity::validate(record), ValidateCallbackResult::Valid);
    assert!(matches!(record.action(), Action::Create(_)));
    assert_eq!(must_get_entry(&store, e).cloned(), Ok(EntryTypes::Event(event("a"))));
    assert_eq!(
        must_get_linked_entry(&store, author).cloned(),
        Err(GatherError::MalformedData(Malformed::NoActionHash))
    );
}

#[test]
fn what_was_written_is_read_back() {
    let mut store = new_store();
    let h = store.create_entry(EntryTypes::Event(event("a")));
    assert_eq!(
        fetch_created(&store, h, Missing::Created(EntryKind::Event)).map(|r| r.signed_action.hash),
        Ok(h)
    );
    assert_eq!(
        fetch_created(&store, ActionHash(9), Missing::Created(EntryKind::Event)).map(|r| r.clone()),
        Err(GatherError::NotFound(Missing::Created(EntryKind::Event)))
    );
    assert_eq!(
        fetch_created(&store, ActionHash(9), Missing::Updated(EntryKind::Proposal))
            .map(|r| r.clone()),
        Err(GatherError::NotFound(Missing::Updated(EntryKind::Proposal)))
    );
    let second = supersede(&mut store, h, EntryTypes::Event(event("b")), EntryKind::Event)
        .unwrap()
        .clone();
    assert_eq!(second.entry, Some(EntryTypes::Event(event("b"))));
    assert_eq!(second.signed_action.hash, ActionHash(1));
    assert_eq!(tombstone(&mut store, h), Ok(ActionHash(2)));
    assert_eq!(
        tombstone(&mut store, ActionHash(2)),
        Err(GatherError::PolicyViolation(StoreError::NotAnEntryCommit(ActionHash(2))))
    );
}

#[test]
fn the_revision_to_fetch() {
    let original = ActionHash(3);
    let edge = |instance: u64, target: AnyLinkableHash, at: i64| gather::record::Link {
        author: AgentPubKey(1),
        base: AnyLinkableHash::Action(original),
        target,
        timestamp: Timestamp(at),
        zome_index: 0,
        link_type: 0,
        tag: LinkTag::Unit,
        create_link_hash: ActionHash(instance),
    };
    let links = vec![
        edge(10, AnyLinkableHash::Action(ActionHash(4)), 7),
        edge(11, AnyLinkableHash::Action(ActionHash(5)), 9),
        edge(12, AnyLinkableHash::Action(ActionHash(6)), 8),
    ];
    assert_eq!(current_revision(original, &vec![], &vec![]), Ok(Some(original)));
    assert_eq!(current_revision(original, &vec![], &links), Ok(Some(ActionHash(5))));
    assert_eq!(current_revision(original, &vec![ActionHash(20)], &links), Ok(None));
    assert_eq!(
        current_revision(original, &vec![], &vec![edge(10, AnyLinkableHash::Entry(EntryHash(1)), 7)]),
        Err(GatherError::MalformedData(Malformed::NoActionHash))
    );
    assert_eq!(latest_revision(original, Some(links[0])), Ok(ActionHash(4)));
}

#[test]
fn steps_of_the_listing() {
    let mut store = new_store();
    let h = store.create_entry(EntryTypes::Event(event("root")));
    let details = store.get_details(h.into_any_dht_hash());
    assert_eq!(revisions_step(&details), Some(&vec![]));
    let u1 = store.update_entry(h, EntryTypes::Event(event("a"))).unwrap();
    let u2 = store.update_entry(h, EntryTypes::Event(event("b"))).unwrap();
    let details = store.get_details(h.into_any_dht_hash());
    assert_eq!(revisions_step(&details), Some(&vec![u1, u2]));
    assert_eq!(revisions_step(&None), None);
    let entry_details = Some(gather::record::Details::Entry(gather::record::EntryDetails {
        actions: vec![h],
    }));
    assert_eq!(revisions_step(&entry_details), None);
}
