//! Proposals: creating one, finding its current revision, listing its
//! revisions, writing a new revision, and listing the events that came of it.

use vstd::prelude::*;
use crate::relations::records_at;
use crate::commits::{created_record, fetch_created, lemma_committed_found};
use crate::effects::{extends, reaches};
use crate::error::{EntryKind, GatherError, Missing};
use crate::event::{revised, write_revision};
use crate::global_collections::{all_open_proposals, holds, Path};
use crate::hash::ActionHash;
use crate::integrity::{EntryTypes, LinkTypes, Proposal};

use crate::record::{LinkTag, Record};

use crate::relations::{link, query_actions, reached_actions};
use crate::revisions::{all_revisions, resolve, resolve_latest, revisions_of, same_resolution};
use crate::store::{Store, StoreView};

verus! {

/// What is needed to write a new revision of a proposal.
#[derive(Clone, Debug, PartialEq)]
pub struct UpdateProposalInput {
    pub original_proposal_hash: ActionHash,
    pub previous_proposal_hash: ActionHash,
    pub updated_proposal: Proposal,
}

/// The store after `proposal` was created: the entry is committed, an edge
/// leads to it from the anchor of the open proposals and one from the
/// acting participant.
pub open spec fn created_proposal(s: StoreView, proposal: Proposal) -> StoreView {
    let h = ActionHash(s.log.len() as u64);
    s.with_entry(EntryTypes::Proposal(proposal)).with_link(
        Path::AllOpenProposals.base(),
        h.linkable(),
        LinkTypes::OpenProposals.scoped_spec(),
        LinkTag::Unit,
    ).with_link(s.agent.linkable(), h.linkable(), LinkTypes::MyEvents.scoped_spec(), LinkTag::Unit)
}

/// Creates a proposal and hands back its record. The proposal is then among
/// the open proposals and among the acting participant's events.
pub fn create_proposal<'a>(store: &'a mut Store, proposal: Proposal) -> (r: Result<
    &'a Record,
    GatherError,
>)
    requires
        old(store).wf(),
    ensures
        final(store).wf(),
        final(store)@ == created_proposal(old(store)@, proposal),
        extends(old(store)@.log, final(store)@.log),
        r matches Ok(record) && *record == created_record(
            old(store)@,
            EntryTypes::Proposal(proposal),
        ),
        holds(final(store)@.log, Path::AllOpenProposals, ActionHash(old(store)@.log.len() as u64)),
        reaches(
            final(store)@.log,
            old(store)@.agent.linkable(),
            LinkTypes::MyEvents.scoped_spec(),
            ActionHash(old(store)@.log.len() as u64).linkable(),
        ),
{
    let ghost s0 = store@;
    let proposal_hash = store.create_entry(EntryTypes::Proposal(proposal));
    let ghost s1 = store@;
    let path = all_open_proposals();
    link(
        store,
        path.path_entry_hash().into_linkable(),
        proposal_hash.into_linkable(),
        LinkTypes::OpenProposals,
    );
    let my_agent_pub_key = store.agent_info().agent_latest_pubkey;
    link(
        store,
        my_agent_pub_key.into_linkable(),
        proposal_hash.into_linkable(),
        LinkTypes::MyEvents,
    );
    proof {
        lemma_committed_found(
            s0,
            s1.log.last().signed_action.action,
            Some(EntryTypes::Proposal(proposal)),
            store@.log,
        );
    }
    fetch_created(store, proposal_hash, Missing::Created(EntryKind::Proposal))
}

/// The current revision of the proposal: nothing where the original is
/// tombstoned; else what the newest `Updates` edge from the original names;
/// the original where there is no such edge.
pub fn get_proposal<'a>(store: &'a Store, original_proposal_hash: ActionHash) -> (r: Result<
    Option<&'a Record>,
    GatherError,
>)
    ensures
        same_resolution(r, resolve(store@.log, original_proposal_hash)),
{
    resolve_latest(store, original_proposal_hash)
}

/// Every revision of the proposal, the original first, each followed by the
/// revisions that supersede it, oldest first.
pub fn get_all_proposal_revisions<'a>(store: &'a Store, original_proposal_hash: ActionHash) -> (r:
    Vec<&'a Record>)
    requires
        store.wf(),
    ensures
        records_at(store@.log, revisions_of(store@.log, original_proposal_hash), r@),
{
    all_revisions(store, original_proposal_hash)
}

/// Writes a new revision of a proposal and hands back its record. Refused,
/// with the store unchanged, where the previous revision is no entry commit.
pub fn update_proposal<'a>(store: &'a mut Store, input: UpdateProposalInput) -> (r: Result<
    &'a Record,
    GatherError,
>)
    requires
        old(store).wf(),
    ensures
        final(store).wf(),
        revised(
            old(store)@,
            final(store)@,
            input.original_proposal_hash,
            input.previous_proposal_hash,
            EntryTypes::Proposal(input.updated_proposal),
            r,
        ),
{
    write_revision(
        store,
        input.original_proposal_hash,
        input.previous_proposal_hash,
        EntryTypes::Proposal(input.updated_proposal),
        EntryKind::Proposal,
    )
}

/// The events that came of the proposal, each once.
pub fn get_events_for_proposal(store: &Store, proposal_hash: ActionHash) -> (r: Vec<ActionHash>)
    requires
        store.wf(),
    ensures
        r@ == reached_actions(
            store@.log,
            proposal_hash.linkable(),
            LinkTypes::ProposalToEvent.scoped_spec(),
        ),
        r@.no_duplicates(),
        forall|h: ActionHash| #[trigger]
            r@.contains(h) <==> reaches(
                store@.log,
                proposal_hash.linkable(),
                LinkTypes::ProposalToEvent.scoped_spec(),
                h.linkable(),
            ),
{
    query_actions(store, proposal_hash.into_linkable(), LinkTypes::ProposalToEvent)
}

} // verus!
