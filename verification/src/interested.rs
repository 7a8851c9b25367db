//! Who is interested in an event or a proposal.

use vstd::prelude::*;
use crate::effects::{extends, reaches, same_entries};
use crate::hash::{ActionHash, AnyLinkableHash};
use crate::integrity::LinkTypes;

use crate::log::live_links;
use crate::my_events::remove_from_my_events;
use crate::record::{Link, LinkTag, ScopedLinkType};
use crate::relations::{link, unlink};
use crate::store::{Store, StoreView};

verus! {

/// The store after the acting participant was recorded as interested: an
/// edge leads from the event or proposal to the participant, and one from
/// the participant to the event or proposal.
pub open spec fn interest_added(s: StoreView, h: ActionHash) -> StoreView {
    s.with_link(h.linkable(), s.agent.linkable(), LinkTypes::Interested.scoped_spec(), LinkTag::Unit)
        .with_link(s.agent.linkable(), h.linkable(), LinkTypes::MyEvents.scoped_spec(), LinkTag::Unit)
}

/// The store after the acting participant was withdrawn as interested: the
/// live edges from the event or proposal to the participant are tombstoned,
/// then those from the participant to the event or proposal.
pub open spec fn interest_removed(s: StoreView, h: ActionHash) -> StoreView {
    s.without_links_to(h.linkable(), LinkTypes::Interested.scoped_spec(), s.agent.linkable())
        .without_links_to(s.agent.linkable(), LinkTypes::MyEvents.scoped_spec(), h.linkable())
}

/// Records the acting participant as interested in an event or a proposal,
/// and puts it among the participant's events.
pub fn add_myself_as_interested(store: &mut Store, event_or_proposal_hash: ActionHash)
    requires
        old(store).wf(),
    ensures
        final(store).wf(),
        final(store)@ == interest_added(old(store)@, event_or_proposal_hash),
        extends(old(store)@.log, final(store)@.log),
        same_entries(old(store)@.log, final(store)@.log),
        final(store)@.same_setting(old(store)@),
        forall|base: AnyLinkableHash, t: ScopedLinkType, x: AnyLinkableHash| #[trigger]
            reaches(final(store)@.log, base, t, x) <==> (reaches(old(store)@.log, base, t, x) || (
            base == event_or_proposal_hash.linkable() && t == LinkTypes::Interested.scoped_spec() && x
                == old(store)@.agent.linkable()) || (base == old(store)@.agent.linkable() && t
                == LinkTypes::MyEvents.scoped_spec() && x == event_or_proposal_hash.linkable())),
{
    let my_pub_key = store.agent_info().agent_initial_pubkey;
    link(
        store,
        event_or_proposal_hash.into_linkable(),
        my_pub_key.into_linkable(),
        LinkTypes::Interested,
    );
    link(
        store,
        my_pub_key.into_linkable(),
        event_or_proposal_hash.into_linkable(),
        LinkTypes::MyEvents,
    );
}

/// Withdraws the acting participant as interested in an event or a
/// proposal, and takes it out of the participant's events. What is not there
/// is left alone.
pub fn remove_myself_as_interested(store: &mut Store, event_or_proposal_hash: ActionHash)
    requires
        old(store).wf(),
    ensures
        final(store).wf(),
        final(store)@ == interest_removed(old(store)@, event_or_proposal_hash),
        extends(old(store)@.log, final(store)@.log),
        same_entries(old(store)@.log, final(store)@.log),
        final(store)@.same_setting(old(store)@),
        forall|base: AnyLinkableHash, t: ScopedLinkType, x: AnyLinkableHash| #[trigger]
            reaches(final(store)@.log, base, t, x) <==> (reaches(old(store)@.log, base, t, x)
                && !(base == event_or_proposal_hash.linkable() && t
                == LinkTypes::Interested.scoped_spec() && x == old(store)@.agent.linkable()) && !(base
                == old(store)@.agent.linkable() && t == LinkTypes::MyEvents.scoped_spec() && x
                == event_or_proposal_hash.linkable())),
{
    let my_pub_key = store.agent_info().agent_initial_pubkey;
    unlink(
        store,
        event_or_proposal_hash.into_linkable(),
        my_pub_key.into_linkable(),
        LinkTypes::Interested,
    );
    remove_from_my_events(store, event_or_proposal_hash);
}

/// The live edges from an event or a proposal to those who are interested
/// in it, oldest first.
pub fn get_interested_in(store: &Store, event_or_proposal_hash: ActionHash) -> (r: Vec<Link>)
    ensures
        r@ == live_links(
            store@.log,
            event_or_proposal_hash.linkable(),
            LinkTypes::Interested.scoped_spec(),
        ),
{
    store.get_links(event_or_proposal_hash.into_linkable(), LinkTypes::Interested.scoped())
}

} // verus!
