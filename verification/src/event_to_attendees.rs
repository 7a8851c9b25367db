//! Who attends an event, and which events a participant attends.

use vstd::prelude::*;
use crate::effects::{extends, reaches, same_entries};
use crate::hash::{ActionHash, AgentPubKey, AnyLinkableHash};
use crate::integrity::LinkTypes;

use crate::record::{LinkTag, ScopedLinkType};
use crate::relations::{
    found_actions, found_hashes, link, query_actions, query_agents, reached_agents, unlink,
};
use crate::store::{Store, StoreView};

verus! {

/// An event and a participant to record as attending it.
#[derive(Clone, Copy, Debug, PartialEq, Eq, Structural)]
pub struct AddAttendeeForEventInput {
    pub event_hash: ActionHash,
    pub attendee: AgentPubKey,
}

/// An event and a participant to withdraw from it.
#[derive(Clone, Copy, Debug, PartialEq, Eq, Structural)]
pub struct RemoveAttendeeForEventInput {
    pub event_hash: ActionHash,
    pub attendee: AgentPubKey,
}

/// The store after the attendee was recorded: an edge leads from the event
/// to the attendee, and one from the attendee to the event.
pub open spec fn attendee_added(s: StoreView, event: ActionHash, attendee: AgentPubKey) -> StoreView {
    s.with_link(
        event.linkable(),
        attendee.linkable(),
        LinkTypes::EventToAttendees.scoped_spec(),
        LinkTag::Unit,
    ).with_link(
        attendee.linkable(),
        event.linkable(),
        LinkTypes::AttendeeToEvents.scoped_spec(),
        LinkTag::Unit,
    )
}

/// The store after the attendee was withdrawn: the live edges from the
/// event to the attendee are tombstoned, then those from the attendee to
/// the event.
pub open spec fn attendee_removed(s: StoreView, event: ActionHash, attendee: AgentPubKey) -> StoreView {
    s.without_links_to(
        event.linkable(),
        LinkTypes::EventToAttendees.scoped_spec(),
        attendee.linkable(),
    ).without_links_to(
        attendee.linkable(),
        LinkTypes::AttendeeToEvents.scoped_spec(),
        event.linkable(),
    )
}

/// Records a participant as attending an event.
pub fn add_attendee_for_event(store: &mut Store, input: AddAttendeeForEventInput)
    requires
        old(store).wf(),
    ensures
        final(store).wf(),
        final(store)@ == attendee_added(old(store)@, input.event_hash, input.attendee),
        extends(old(store)@.log, final(store)@.log),
        same_entries(old(store)@.log, final(store)@.log),
        final(store)@.same_setting(old(store)@),
        forall|base: AnyLinkableHash, t: ScopedLinkType, x: AnyLinkableHash| #[trigger]
            reaches(final(store)@.log, base, t, x) <==> (reaches(old(store)@.log, base, t, x) || (
            base == input.event_hash.linkable() && t == LinkTypes::EventToAttendees.scoped_spec()
                && x == input.attendee.linkable()) || (base == input.attendee.linkable() && t
                == LinkTypes::AttendeeToEvents.scoped_spec() && x == input.event_hash.linkable())),
{
    link(
        store,
        input.event_hash.into_linkable(),
        input.attendee.into_linkable(),
        LinkTypes::EventToAttendees,
    );
    link(
        store,
        input.attendee.into_linkable(),
        input.event_hash.into_linkable(),
        LinkTypes::AttendeeToEvents,
    );
}

/// Those who attend the event, each once.
pub fn get_attendees_for_event(store: &Store, event_hash: ActionHash) -> (r: Vec<AgentPubKey>)
    requires
        store.wf(),
    ensures
        r@ == reached_agents(
            store@.log,
            event_hash.linkable(),
            LinkTypes::EventToAttendees.scoped_spec(),
        ),
        r@.no_duplicates(),
        forall|k: AgentPubKey| #[trigger]
            r@.contains(k) <==> reaches(
                store@.log,
                event_hash.linkable(),
                LinkTypes::EventToAttendees.scoped_spec(),
                k.linkable(),
            ),
{
    query_agents(store, event_hash.into_linkable(), LinkTypes::EventToAttendees)
}

/// The events that the participant attends and that a fetch still finds,
/// each once.
pub fn get_events_for_attendee(store: &Store, attendee: AgentPubKey) -> (r: Vec<ActionHash>)
    requires
        store.wf(),
    ensures
        r@ == found_actions(
            store@.log,
            attendee.linkable(),
            LinkTypes::AttendeeToEvents.scoped_spec(),
        ),
{
    let hashes = query_actions(store, attendee.into_linkable(), LinkTypes::AttendeeToEvents);
    found_hashes(store, &hashes)
}

/// Withdraws a participant from an event. What is not there is left alone.
pub fn remove_attendee_for_event(store: &mut Store, input: RemoveAttendeeForEventInput)
    requires
        old(store).wf(),
    ensures
        final(store).wf(),
        final(store)@ == attendee_removed(old(store)@, input.event_hash, input.attendee),
        extends(old(store)@.log, final(store)@.log),
        same_entries(old(store)@.log, final(store)@.log),
        final(store)@.same_setting(old(store)@),
        forall|base: AnyLinkableHash, t: ScopedLinkType, x: AnyLinkableHash| #[trigger]
            reaches(final(store)@.log, base, t, x) <==> (reaches(old(store)@.log, base, t, x)
                && !(base == input.event_hash.linkable() && t
                == LinkTypes::EventToAttendees.scoped_spec() && x == input.attendee.linkable())
                && !(base == input.attendee.linkable() && t
                == LinkTypes::AttendeeToEvents.scoped_spec() && x
                == input.event_hash.linkable())),
{
    unlink(
        store,
        input.event_hash.into_linkable(),
        input.attendee.into_linkable(),
        LinkTypes::EventToAttendees,
    );
    unlink(
        store,
        input.attendee.into_linkable(),
        input.event_hash.into_linkable(),
        LinkTypes::AttendeeToEvents,
    );
}

} // verus!
