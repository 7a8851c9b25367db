//! Events: creating one, finding its current revision, listing its
//! revisions, and writing a new revision.

use vstd::prelude::*;
use crate::commits::{created_record, fetch_created, lemma_committed_found, updated_record};
use crate::effects::{extends, lemma_entry_after_commit, lemma_follows, lemma_fresh, reaches};
use crate::relations::{link, records_at};
use crate::error::{EntryKind, GatherError, Missing, StoreError};
use crate::global_collections::{all_open_proposals, all_upcoming_events, holds, remove_from_collection, Path};
use crate::hash::ActionHash;
use crate::integrity::{EntryTypes, Event, LinkTypes};
use crate::log::is_entry_commit;
use crate::record::{LinkTag, Record};
use crate::revisions::{
    all_revisions, get_original, resolve, resolve_latest, revisions_of, same_resolution, stored,
};
use crate::store::{Store, StoreView};

verus! {

/// What is needed to write a new revision of an event.
#[derive(Clone, Debug, PartialEq)]
pub struct UpdateEventInput {
    pub original_event_hash: ActionHash,
    pub previous_event_hash: ActionHash,
    pub updated_event: Event,
}

/// The store after `event` was created: the entry is committed, an edge
/// leads to it from the anchor of the upcoming events and one from the
/// acting participant; where the event comes from a proposal, the proposal
/// has left the open proposals and an edge leads from it to the event; and
/// an edge leads to the event from its author.
pub open spec fn created_event(s: StoreView, event: Event) -> StoreView {
    let h = ActionHash(s.log.len() as u64);
    let listed = s.with_entry(EntryTypes::Event(event)).with_link(
        Path::AllUpcomingEvents.base(),
        h.linkable(),
        LinkTypes::UpcomingEvents.scoped_spec(),
        LinkTag::Unit,
    ).with_link(s.agent.linkable(), h.linkable(), LinkTypes::MyEvents.scoped_spec(), LinkTag::Unit);
    let linked = match event.from_proposal {
        None => listed,
        Some(from) => listed.without_links_to(
            Path::AllOpenProposals.base(),
            LinkTypes::OpenProposals.scoped_spec(),
            from.proposal_hash.linkable(),
        ).with_link(
            from.proposal_hash.linkable(),
            h.linkable(),
            LinkTypes::ProposalToEvent.scoped_spec(),
            LinkTag::Unit,
        ),
    };
    linked.with_link(
        s.agent.linkable(),
        h.linkable(),
        LinkTypes::EventsByAuthor.scoped_spec(),
        LinkTag::Unit,
    )
}

/// Creates an event and hands back its record. The event is then among the
/// upcoming events, among the acting participant's events, and among the
/// events of its author.
pub fn create_event<'a>(store: &'a mut Store, event: Event) -> (r: Result<&'a Record, GatherError>)
    requires
        old(store).wf(),
    ensures
        final(store).wf(),
        final(store)@ == created_event(old(store)@, event),
        extends(old(store)@.log, final(store)@.log),
        r matches Ok(record) && *record == created_record(old(store)@, EntryTypes::Event(event)),
        holds(final(store)@.log, Path::AllUpcomingEvents, ActionHash(old(store)@.log.len() as u64)),
        reaches(
            final(store)@.log,
            old(store)@.agent.linkable(),
            LinkTypes::MyEvents.scoped_spec(),
            ActionHash(old(store)@.log.len() as u64).linkable(),
        ),
        reaches(
            final(store)@.log,
            old(store)@.agent.linkable(),
            LinkTypes::EventsByAuthor.scoped_spec(),
            ActionHash(old(store)@.log.len() as u64).linkable(),
        ),
        event.from_proposal matches Some(from) ==> reaches(
            final(store)@.log,
            from.proposal_hash.linkable(),
            LinkTypes::ProposalToEvent.scoped_spec(),
            ActionHash(old(store)@.log.len() as u64).linkable(),
        ) && !holds(final(store)@.log, Path::AllOpenProposals, from.proposal_hash),
{
    let ghost s0 = store@;
    let from_proposal = event.from_proposal;
    let event_hash = store.create_entry(EntryTypes::Event(event));
    let ghost s1 = store@;
    let path = all_upcoming_events();
    link(
        store,
        path.path_entry_hash().into_linkable(),
        event_hash.into_linkable(),
        LinkTypes::UpcomingEvents,
    );
    let my_agent_pub_key = store.agent_info().agent_latest_pubkey;
    link(
        store,
        my_agent_pub_key.into_linkable(),
        event_hash.into_linkable(),
        LinkTypes::MyEvents,
    );
    let ghost s3 = store@;
    proof {
        lemma_follows(s1.log, s1.log, s3.log);
    }
    match from_proposal {
        Some(from) => {
            remove_from_collection(
                store,
                &from.proposal_hash,
                all_open_proposals(),
                LinkTypes::OpenProposals,
            );
            let ghost s4 = store@;
            link(
                store,
                from.proposal_hash.into_linkable(),
                event_hash.into_linkable(),
                LinkTypes::ProposalToEvent,
            );
            proof {
                lemma_follows(s3.log, s4.log, store@.log);
                lemma_follows(s1.log, s3.log, store@.log);
            }
        },
        None => {},
    }
    let ghost s5 = store@;
    link(
        store,
        my_agent_pub_key.into_linkable(),
        event_hash.into_linkable(),
        LinkTypes::EventsByAuthor,
    );
    proof {
        lemma_follows(s1.log, s5.log, store@.log);
        lemma_committed_found(
            s0,
            s1.log.last().signed_action.action,
            Some(EntryTypes::Event(event)),
            store@.log,
        );
    }
    fetch_created(store, event_hash, Missing::Created(EntryKind::Event))
}

/// The record at `original_event_hash`, tombstoned or not; nothing where the
/// store does not hold it.
pub fn get_original_event<'a>(store: &'a Store, original_event_hash: ActionHash) -> (r: Result<
    Option<&'a Record>,
    GatherError,
>)
    ensures
        same_resolution(r, Ok(stored(store@.log, original_event_hash))),
{
    get_original(store, original_event_hash)
}

/// The current revision of the event: nothing where the original is
/// tombstoned; else what the newest `Updates` edge from the original names;
/// the original where there is no such edge.
pub fn get_latest_event<'a>(store: &'a Store, original_event_hash: ActionHash) -> (r: Result<
    Option<&'a Record>,
    GatherError,
>)
    ensures
        same_resolution(r, resolve(store@.log, original_event_hash)),
{
    resolve_latest(store, original_event_hash)
}

/// Every revision of the event, the original first, each followed by the
/// revisions that supersede it, oldest first.
pub fn get_all_event_revisions<'a>(store: &'a Store, original_event_hash: ActionHash) -> (r: Vec<
    &'a Record,
>)
    requires
        store.wf(),
    ensures
        records_at(store@.log, revisions_of(store@.log, original_event_hash), r@),
{
    all_revisions(store, original_event_hash)
}

/// The store after a new revision of a record was written: the entry is
/// committed as superseding the previous revision, and an `Updates` edge
/// leads from the original to it.
pub open spec fn updated(s: StoreView, original: ActionHash, previous: ActionHash, entry: EntryTypes) -> StoreView {
    s.with_update(previous, entry).with_link(
        original.linkable(),
        ActionHash(s.log.len() as u64).linkable(),
        LinkTypes::Updates.scoped_spec(),
        LinkTag::Unit,
    )
}

/// What it means that `entry` was written as a new revision, with the
/// outcome `r`: the new record is handed back; or, where `previous` is no
/// entry commit, the store is as it was and the revision is refused.
pub open spec fn revised(
    before: StoreView,
    after: StoreView,
    original: ActionHash,
    previous: ActionHash,
    entry: EntryTypes,
    r: Result<&Record, GatherError>,
) -> bool {
    if is_entry_commit(before.log, previous) {
        &&& after == updated(before, original, previous, entry)
        &&& r matches Ok(record) && *record == updated_record(before, previous, entry)
    } else {
        &&& after == before
        &&& r == Err::<&Record, GatherError>(
            GatherError::PolicyViolation(StoreError::NotAnEntryCommit(previous)),
        )
    }
}

/// Writes `entry` as a new revision that supersedes `previous`, with an
/// `Updates` edge from `original` to it, and hands back its record. Refused,
/// with the store unchanged, where `previous` is no entry commit.
pub fn write_revision<'a>(
    store: &'a mut Store,
    original: ActionHash,
    previous: ActionHash,
    entry: EntryTypes,
    kind: EntryKind,
) -> (r: Result<&'a Record, GatherError>)
    requires
        old(store).wf(),
    ensures
        final(store).wf(),
        revised(old(store)@, final(store)@, original, previous, entry, r),
{
    let ghost s0 = store@;
    let ghost h = ActionHash(s0.log.len() as u64);
    proof {
        lemma_fresh(s0.log, h);
    }
    let updated_hash = match store.update_entry(previous, entry) {
        Ok(h) => h,
        Err(e) => {
            return Err(GatherError::PolicyViolation(e));
        },
    };
    let ghost s1 = store@;
    store.create_link(
        original.into_linkable(),
        updated_hash.into_linkable(),
        LinkTypes::Updates.scoped(),
        LinkTag::Unit,
    );
    let ghost s2 = store@;
    proof {
        lemma_entry_after_commit(s0, s1.log.last().signed_action.action, s1.log.last().entry, h);
        lemma_entry_after_commit(s1, s2.log.last().signed_action.action, None, h);
        assert(s2.log[h.0 as int] == s1.log[h.0 as int]);
    }
    match store.get(updated_hash) {
        Some(record) => Ok(record),
        None => Err(GatherError::NotFound(Missing::Updated(kind))),
    }
}

/// Writes a new revision of an event and hands back its record. Refused,
/// with the store unchanged, where the previous revision is no entry commit.
pub fn update_event<'a>(store: &'a mut Store, input: UpdateEventInput) -> (r: Result<
    &'a Record,
    GatherError,
>)
    requires
        old(store).wf(),
    ensures
        final(store).wf(),
        revised(
            old(store)@,
            final(store)@,
            input.original_event_hash,
            input.previous_event_hash,
            EntryTypes::Event(input.updated_event),
            r,
        ),
{
    write_revision(
        store,
        input.original_event_hash,
        input.previous_event_hash,
        EntryTypes::Event(input.updated_event),
        EntryKind::Event,
    )
}

} // verus!
