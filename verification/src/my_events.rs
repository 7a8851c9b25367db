//! The events and proposals that the acting participant keeps track of.

use vstd::prelude::*;
use crate::effects::{extends, reaches, same_entries};
use crate::hash::{ActionHash, AnyLinkableHash};
use crate::integrity::LinkTypes;
use crate::log::live_links;
use crate::record::{Link, LinkTag, ScopedLinkType};
use crate::relations::{link, unlink};
use crate::store::Store;

verus! {

/// The live edges from the acting participant to the participant's events
/// and proposals, oldest first.
pub fn get_my_events(store: &Store) -> (r: Vec<Link>)
    ensures
        r@ == live_links(store@.log, store@.agent.linkable(), LinkTypes::MyEvents.scoped_spec()),
{
    let agent_pub_key = store.agent_info();
    store.get_links(agent_pub_key.agent_initial_pubkey.into_linkable(), LinkTypes::MyEvents.scoped())
}

/// Puts an event or a proposal among the acting participant's events.
pub fn add_to_my_events(store: &mut Store, event_or_proposal_hash: ActionHash)
    requires
        old(store).wf(),
    ensures
        final(store).wf(),
        final(store)@ == old(store)@.with_link(
            old(store)@.agent.linkable(),
            event_or_proposal_hash.linkable(),
            LinkTypes::MyEvents.scoped_spec(),
            LinkTag::Unit,
        ),
        extends(old(store)@.log, final(store)@.log),
        same_entries(old(store)@.log, final(store)@.log),
        final(store)@.same_setting(old(store)@),
        forall|base: AnyLinkableHash, t: ScopedLinkType, x: AnyLinkableHash| #[trigger]
            reaches(final(store)@.log, base, t, x) <==> (reaches(old(store)@.log, base, t, x) || (
            base == old(store)@.agent.linkable() && t == LinkTypes::MyEvents.scoped_spec() && x
                == event_or_proposal_hash.linkable())),
{
    let my_pub_key = store.agent_info().agent_initial_pubkey;
    link(
        store,
        my_pub_key.into_linkable(),
        event_or_proposal_hash.into_linkable(),
        LinkTypes::MyEvents,
    );
}

/// Takes an event or a proposal out of the acting participant's events.
/// Where it is not among them the store stays as it is.
pub fn remove_from_my_events(store: &mut Store, event_or_proposal_hash: ActionHash)
    requires
        old(store).wf(),
    ensures
        final(store).wf(),
        final(store)@ == old(store)@.without_links_to(
            old(store)@.agent.linkable(),
            LinkTypes::MyEvents.scoped_spec(),
            event_or_proposal_hash.linkable(),
        ),
        extends(old(store)@.log, final(store)@.log),
        same_entries(old(store)@.log, final(store)@.log),
        final(store)@.same_setting(old(store)@),
        forall|base: AnyLinkableHash, t: ScopedLinkType, x: AnyLinkableHash| #[trigger]
            reaches(final(store)@.log, base, t, x) <==> (reaches(old(store)@.log, base, t, x)
                && !(base == old(store)@.agent.linkable() && t
                == LinkTypes::MyEvents.scoped_spec() && x == event_or_proposal_hash.linkable())),
{
    let my_pub_key = store.agent_info().agent_initial_pubkey;
    unlink(
        store,
        my_pub_key.into_linkable(),
        event_or_proposal_hash.into_linkable(),
        LinkTypes::MyEvents,
    );
}

} // verus!
