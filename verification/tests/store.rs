use gather::error::StoreError;
use gather::hash::{ActionHash, AgentPubKey, AnyDhtHash, AnyLinkableHash, DnaHash, EntryHash};
use gather::integrity::{Cancellation, EntryTypes, LinkTypes};
use gather::record::{Action, Details, LinkTag, Timestamp};
use gather::store::{without_instance, Store};

fn note(reason: &str) -> EntryTypes {
    EntryTypes::Cancellation(Cancellation { reason: reason.to_string(), event_hash: ActionHash(0) })
}

fn base() -> AnyLinkableHash {
    AnyLinkableHash::Entry(EntryHash(11))
}

fn target(n: u64) -> AnyLinkableHash {
    AnyLinkableHash::Action(ActionHash(n))
}

#[test]
fn new_store_is_empty() {
    let store = Store::new(AgentPubKey(3), DnaHash(4));
    assert_eq!(store.len(), 0);
    assert_eq!(store.agent_info().agent_initial_pubkey, AgentPubKey(3));
    assert_eq!(store.agent_info().agent_latest_pubkey, AgentPubKey(3));
    assert_eq!(store.dna_info().hash, DnaHash(4));
    assert_eq!(store.sys_time(), Timestamp(0));
    assert!(store.get(ActionHash(0)).is_none());
    assert!(store.get_details(AnyDhtHash::Action(ActionHash(0))).is_none());
    assert_eq!(
        store.must_get_valid_record(ActionHash(0)).map(|r| r.clone()),
        Err(StoreError::NoSuchCommit(ActionHash(0)))
    );
}

#[test]
fn commits_are_identified_by_position() {
    let mut store = Store::new(AgentPubKey(3), DnaHash(4));
    store.set_time(Timestamp(5));
    assert_eq!(store.create_entry(note("a")), ActionHash(0));
    store.set_agent(AgentPubKey(8));
    store.set_time(Timestamp(6));
    assert_eq!(store.create_entry(note("b")), ActionHash(1));
    let first = store.get(ActionHash(0)).unwrap();
    assert_eq!(first.entry, Some(note("a")));
    assert_eq!(first.action_address(), ActionHash(0));
    assert_eq!(first.action().author(), AgentPubKey(3));
    assert_eq!(first.action().timestamp(), Timestamp(5));
    assert_eq!(first.entry(), Some(&note("a")));
    let second = store.get(ActionHash(1)).unwrap();
    assert_eq!(second.action().author(), AgentPubKey(8));
    assert_eq!(second.action().timestamp(), Timestamp(6));
    assert!(store.holds_entry_commit(ActionHash(1)));
    assert!(!store.holds_entry_commit(ActionHash(2)));
}

#[test]
fn updates_and_deletes_are_listed_oldest_first() {
    let mut store = Store::new(AgentPubKey(3), DnaHash(4));
    let h = store.create_entry(note("a"));
    let u1 = store.update_entry(h, note("b")).unwrap();
    let u2 = store.update_entry(h, note("c")).unwrap();
    assert_eq!(store.updates(h), vec![u1, u2]);
    assert!(store.deletes(h).is_empty());
    let d1 = store.delete_entry(h).unwrap();
    let d2 = store.delete_entry(h).unwrap();
    assert_eq!(store.deletes(h), vec![d1, d2]);
    assert!(store.get(h).is_none());
    assert_eq!(store.must_get_valid_record(h).unwrap().entry, Some(note("a")));
    match store.get_details(AnyDhtHash::Action(h)) {
        Some(Details::Record(details)) => {
            assert_eq!(details.record.entry, Some(note("a")));
            assert_eq!(details.updates, vec![u1, u2]);
            assert_eq!(details.deletes, vec![d1, d2]);
        }
        _ => panic!("details of a record"),
    }
    assert!(store.get_details(AnyDhtHash::Entry(EntryHash(0))).is_none());
    match store.get(u1).unwrap().action() {
        Action::Update(u) => assert_eq!(u.original_action_address, h),
        _ => panic!("an update"),
    }
}

#[test]
fn what_is_not_there_cannot_be_superseded_or_tombstoned() {
    let mut store = Store::new(AgentPubKey(3), DnaHash(4));
    let l = store.create_link(base(), target(1), LinkTypes::MyEvents.scoped(), LinkTag::Unit);
    assert_eq!(store.update_entry(l, note("b")), Err(StoreError::NotAnEntryCommit(l)));
    assert_eq!(store.update_entry(ActionHash(9), note("b")), Err(StoreError::NotAnEntryCommit(ActionHash(9))));
    assert_eq!(store.delete_entry(l), Err(StoreError::NotAnEntryCommit(l)));
    let h = store.create_entry(note("a"));
    assert_eq!(store.delete_link(h), Err(StoreError::NotALinkCommit(h)));
    assert_eq!(store.delete_link(ActionHash(9)), Err(StoreError::NotALinkCommit(ActionHash(9))));
    assert_eq!(store.len(), 2);
}

#[test]
fn links_are_live_until_tombstoned() {
    let mut store = Store::new(AgentPubKey(3), DnaHash(4));
    let scoped = LinkTypes::MyEvents.scoped();
    let l1 = store.create_link(base(), target(1), scoped, LinkTag::Unit);
    let l2 = store.create_link(base(), target(2), scoped, LinkTag::Unit);
    let _other_type =
        store.create_link(base(), target(3), LinkTypes::Interested.scoped(), LinkTag::Unit);
    let _other_base = store.create_link(target(9), target(4), scoped, LinkTag::Unit);
    let links = store.get_links(base(), scoped);
    assert_eq!(links.len(), 2);
    assert_eq!(links[0].create_link_hash, l1);
    assert_eq!(links[0].target, target(1));
    assert_eq!(links[0].base, base());
    assert_eq!(links[0].author, AgentPubKey(3));
    assert_eq!(links[1].create_link_hash, l2);
    let t = store.delete_link(l1).unwrap();
    let links = store.get_links(base(), scoped);
    assert_eq!(links.len(), 1);
    assert_eq!(links[0].create_link_hash, l2);
    assert_eq!(store.link_deletes(l1).len(), 1);
    assert_eq!(store.link_deletes(l1)[0].hash, t);
    assert!(store.link_deletes(l2).is_empty());
    let details = store.get_link_details(base(), scoped);
    assert_eq!(details.len(), 2);
    assert_eq!(details[0].0.hash, l1);
    assert_eq!(details[0].1.len(), 1);
    assert_eq!(details[1].0.hash, l2);
    assert!(details[1].1.is_empty());
    // the commit of a tombstoned edge is still found
    assert!(store.get(l1).is_some());
    assert_eq!(without_instance(&store.get_links(base(), scoped), l2).len(), 0);
}

#[test]
fn link_types_round_trip() {
    let all = [
        LinkTypes::Updates,
        LinkTypes::AllEvents,
        LinkTypes::AllProposals,
        LinkTypes::MyEvents,
        LinkTypes::PossibleParticipants,
        LinkTypes::UpcomingEvents,
        LinkTypes::PastEvents,
        LinkTypes::CancelledEvents,
        LinkTypes::OpenProposals,
        LinkTypes::ExpiredProposals,
        LinkTypes::CancelledProposals,
        LinkTypes::ProposalToEvent,
        LinkTypes::EventToCancellations,
        LinkTypes::Cancellations,
        LinkTypes::AteendeeToAttendeesAttestations,
        LinkTypes::EventToAttendeesAttestations,
        LinkTypes::EventToAttendees,
        LinkTypes::AttendeeToEvents,
        LinkTypes::EventsByAuthor,
        LinkTypes::Interested,
    ];
    for (i, t) in all.iter().enumerate() {
        let scoped = t.scoped();
        assert_eq!(scoped.zome_index, 0);
        assert_eq!(scoped.zome_type as usize, i);
        assert_eq!(LinkTypes::from_type(scoped.zome_index, scoped.zome_type), Some(*t));
    }
    assert_eq!(LinkTypes::from_type(0, 20), None);
    assert_eq!(LinkTypes::from_type(1, 0), None);
    assert_eq!(gather::alerts_integrity::LinkTypes::MyAlerts.scoped().zome_index, 1);
    assert_eq!(
        gather::alerts_integrity::LinkTypes::from_type(1, 0),
        Some(gather::alerts_integrity::LinkTypes::MyAlerts)
    );
    assert_eq!(gather::alerts_integrity::LinkTypes::from_type(0, 0), None);
    assert_eq!(gather::alerts_integrity::LinkTypes::from_type(1, 1), None);
}
