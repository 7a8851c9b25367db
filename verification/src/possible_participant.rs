//! Who may take part in an event or a proposal.

use vstd::prelude::*;
use crate::effects::{extends, reaches, same_entries};
use crate::hash::{ActionHash, AgentPubKey, AnyLinkableHash};
use crate::integrity::LinkTypes;

use crate::my_events::remove_from_my_events;
use crate::record::{LinkTag, ScopedLinkType};
use crate::relations::{link, query_agents, reached_agents, unlink};
use crate::store::{Store, StoreView};

verus! {

/// The store after the acting participant was recorded as a possible participant: an
/// edge leads from the event or proposal to the participant, and one from
/// the participant to the event or proposal.
pub open spec fn possible_participant_added(s: StoreView, h: ActionHash) -> StoreView {
    s.with_link(h.linkable(), s.agent.linkable(), LinkTypes::PossibleParticipants.scoped_spec(), LinkTag::Unit)
        .with_link(s.agent.linkable(), h.linkable(), LinkTypes::MyEvents.scoped_spec(), LinkTag::Unit)
}

/// The store after the acting participant was withdrawn as a possible participant: the
/// live edges from the event or proposal to the participant are tombstoned,
/// then those from the participant to the event or proposal.
pub open spec fn possible_participant_removed(s: StoreView, h: ActionHash) -> StoreView {
    s.without_links_to(h.linkable(), LinkTypes::PossibleParticipants.scoped_spec(), s.agent.linkable())
        .without_links_to(s.agent.linkable(), LinkTypes::MyEvents.scoped_spec(), h.linkable())
}

/// Records the acting participant as a possible participant in an event or a proposal,
/// and puts it among the participant's events.
pub fn add_myself_as_possible_participant(store: &mut Store, event_or_proposal_hash: ActionHash)
    requires
        old(store).wf(),
    ensures
        final(store).wf(),
        final(store)@ == possible_participant_added(old(store)@, event_or_proposal_hash),
        extends(old(store)@.log, final(store)@.log),
        same_entries(old(store)@.log, final(store)@.log),
        final(store)@.same_setting(old(store)@),
        forall|base: AnyLinkableHash, t: ScopedLinkType, x: AnyLinkableHash| #[trigger]
            reaches(final(store)@.log, base, t, x) <==> (reaches(old(store)@.log, base, t, x) || (
            base == event_or_proposal_hash.linkable() && t == LinkTypes::PossibleParticipants.scoped_spec() && x
                == old(store)@.agent.linkable()) || (base == old(store)@.agent.linkable() && t
                == LinkTypes::MyEvents.scoped_spec() && x == event_or_proposal_hash.linkable())),
{
    let my_pub_key = store.agent_info().agent_initial_pubkey;
    link(
        store,
        event_or_proposal_hash.into_linkable(),
        my_pub_key.into_linkable(),
        LinkTypes::PossibleParticipants,
    );
    link(
        store,
        my_pub_key.into_linkable(),
        event_or_proposal_hash.into_linkable(),
        LinkTypes::MyEvents,
    );
}

/// Withdraws the acting participant as a possible participant in an event or a
/// proposal, and takes it out of the participant's events. What is not there
/// is left alone.
pub fn remove_myself_as_a_possible_participant(store: &mut Store, event_or_proposal_hash: ActionHash)
    requires
        old(store).wf(),
    ensures
        final(store).wf(),
        final(store)@ == possible_participant_removed(old(store)@, event_or_proposal_hash),
        extends(old(store)@.log, final(store)@.log),
        same_entries(old(store)@.log, final(store)@.log),
        final(store)@.same_setting(old(store)@),
        forall|base: AnyLinkableHash, t: ScopedLinkType, x: AnyLinkableHash| #[trigger]
            reaches(final(store)@.log, base, t, x) <==> (reaches(old(store)@.log, base, t, x)
                && !(base == event_or_proposal_hash.linkable() && t
                == LinkTypes::PossibleParticipants.scoped_spec() && x == old(store)@.agent.linkable()) && !(base
                == old(store)@.agent.linkable() && t == LinkTypes::MyEvents.scoped_spec() && x
                == event_or_proposal_hash.linkable())),
{
    let my_pub_key = store.agent_info().agent_initial_pubkey;
    unlink(
        store,
        event_or_proposal_hash.into_linkable(),
        my_pub_key.into_linkable(),
        LinkTypes::PossibleParticipants,
    );
    remove_from_my_events(store, event_or_proposal_hash);
}

/// Those who may take part in an event or a proposal, each once.
pub fn get_possible_participants(store: &Store, event_or_proposal_hash: ActionHash) -> (r: Vec<
    AgentPubKey,
>)
    requires
        store.wf(),
    ensures
        r@ == reached_agents(
            store@.log,
            event_or_proposal_hash.linkable(),
            LinkTypes::PossibleParticipants.scoped_spec(),
        ),
        r@.no_duplicates(),
        forall|k: AgentPubKey| #[trigger]
            r@.contains(k) <==> reaches(
                store@.log,
                event_or_proposal_hash.linkable(),
                LinkTypes::PossibleParticipants.scoped_spec(),
                k.linkable(),
            ),
{
    query_agents(
        store,
        event_or_proposal_hash.into_linkable(),
        LinkTypes::PossibleParticipants,
    )
}

} // verus!
