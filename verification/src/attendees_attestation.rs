//! Attestations of attendance: creating one, finding its current revision,
//! superseding it, and listing the attestations of a participant or of an
//! event.

use vstd::prelude::*;
use crate::commits::{created_record, fetch_created, lemma_committed_found, supersede, superseded};
use crate::effects::{extends, same_entries};
use crate::error::{EntryKind, GatherError, Missing};
use crate::hash::{ActionHash, AgentPubKey};
use crate::integrity::{AttendeesAttestation, EntryTypes, LinkTypes};

use crate::record::{LinkTag, Record};
use crate::relations::{found_actions, found_hashes, link, query_actions};
use crate::revisions::{latest_in_chain, same_resolution, walk_latest};
use crate::store::{Store, StoreView};

verus! {

/// What is needed to supersede an attestation.
#[derive(Clone, Debug, PartialEq)]
pub struct UpdateAttendeesAttestationInput {
    pub previous_attendees_attestation_hash: ActionHash,
    pub updated_attendees_attestation: AttendeesAttestation,
}

/// The store after an edge leads to the attestation `h` from each of the
/// first `n` of `attendees`, in order.
pub open spec fn attested(s: StoreView, attendees: Seq<AgentPubKey>, h: ActionHash, n: nat) -> StoreView
    decreases n,
{
    if n == 0 || n > attendees.len() {
        s
    } else {
        attested(s, attendees, h, (n - 1) as nat).with_link(
            attendees[n - 1].linkable(),
            h.linkable(),
            LinkTypes::AteendeeToAttendeesAttestations.scoped_spec(),
            LinkTag::Unit,
        )
    }
}

/// The store after the attestation was created: the entry is committed, an
/// edge leads to it from each attendee, in order, and one from the event.
pub open spec fn created_attendees_attestation(s: StoreView, attestation: AttendeesAttestation) -> StoreView {
    let h = ActionHash(s.log.len() as u64);
    attested(
        s.with_entry(EntryTypes::AttendeesAttestation(attestation)),
        attestation.ateendees@,
        h,
        attestation.ateendees@.len(),
    ).with_link(
        attestation.event_hash.linkable(),
        h.linkable(),
        LinkTypes::EventToAttendeesAttestations.scoped_spec(),
        LinkTag::Unit,
    )
}

fn copy_agents(agents: &Vec<AgentPubKey>) -> (r: Vec<AgentPubKey>)
    ensures
        r@ == agents@,
{
    let mut out: Vec<AgentPubKey> = Vec::new();
    let mut i: usize = 0;
    while i < agents.len()
        invariant
            i <= agents@.len(),
            out@ == agents@.take(i as int),
        decreases agents@.len() - i,
    {
        out.push(agents[i]);
        proof {
            assert(agents@.take(i + 1) =~= agents@.take(i as int).push(agents@[i as int]));
        }
        i = i + 1;
    }
    proof {
        assert(agents@.take(i as int) =~= agents@);
    }
    out
}

/// Creates an attestation and hands back its record.
pub fn create_attendees_attestation<'a>(
    store: &'a mut Store,
    attendees_attestation: AttendeesAttestation,
) -> (r: Result<&'a Record, GatherError>)
    requires
        old(store).wf(),
    ensures
        final(store).wf(),
        final(store)@ == created_attendees_attestation(old(store)@, attendees_attestation),
        extends(old(store)@.log, final(store)@.log),
        r matches Ok(record) && *record == created_record(
            old(store)@,
            EntryTypes::AttendeesAttestation(attendees_attestation),
        ),
{
    let ghost s0 = store@;
    let ghost h = ActionHash(s0.log.len() as u64);
    let attendees = copy_agents(&attendees_attestation.ateendees);
    let event_hash = attendees_attestation.event_hash;
    let attendees_attestation_hash = store.create_entry(
        EntryTypes::AttendeesAttestation(attendees_attestation),
    );
    let ghost s1 = store@;
    let mut i: usize = 0;
    while i < attendees.len()
        invariant
            i <= attendees@.len(),
            store.wf(),
            attendees_attestation_hash == h,
            store@ == attested(s1, attendees@, h, i as nat),
            extends(s1.log, store@.log),
            same_entries(s1.log, store@.log),
        decreases attendees@.len() - i,
    {
        link(
            store,
            attendees[i].into_linkable(),
            attendees_attestation_hash.into_linkable(),
            LinkTypes::AteendeeToAttendeesAttestations,
        );
        i = i + 1;
    }
    link(
        store,
        event_hash.into_linkable(),
        attendees_attestation_hash.into_linkable(),
        LinkTypes::EventToAttendeesAttestations,
    );
    proof {
        lemma_committed_found(
            s0,
            s1.log.last().signed_action.action,
            Some(EntryTypes::AttendeesAttestation(attendees_attestation)),
            store@.log,
        );
    }
    fetch_created(
        store,
        attendees_attestation_hash,
        Missing::Created(EntryKind::AttendeesAttestation),
    )
}

/// The current revision of the attestation, found by walking from each
/// revision to the last of those that supersede it: nothing where a
/// revision on the way is tombstoned, and nothing where the store does not
/// hold the attestation.
pub fn get_attendees_attestation<'a>(
    store: &'a Store,
    original_attendees_attestation_hash: ActionHash,
) -> (r: Result<Option<&'a Record>, GatherError>)
    requires
        store.wf(),
    ensures
        same_resolution(
            r,
            latest_in_chain(store@.log, original_attendees_attestation_hash),
        ),
{
    walk_latest(store, original_attendees_attestation_hash)
}

/// Supersedes an attestation and hands back the new record. Refused, with
/// the store unchanged, where the previous revision is no entry commit.
pub fn update_attendees_attestation<'a>(
    store: &'a mut Store,
    input: UpdateAttendeesAttestationInput,
) -> (r: Result<&'a Record, GatherError>)
    requires
        old(store).wf(),
    ensures
        final(store).wf(),
        superseded(
            old(store)@,
            final(store)@,
            input.previous_attendees_attestation_hash,
            EntryTypes::AttendeesAttestation(input.updated_attendees_attestation),
            r,
        ),
{
    supersede(
        store,
        input.previous_attendees_attestation_hash,
        EntryTypes::AttendeesAttestation(input.updated_attendees_attestation),
        EntryKind::AttendeesAttestation,
    )
}

/// The attestations that name the participant and that a fetch still
/// finds, each once.
pub fn get_attendees_attestations_for_ateendee(store: &Store, ateendee: AgentPubKey) -> (r: Vec<
    ActionHash,
>)
    requires
        store.wf(),
    ensures
        r@ == found_actions(
            store@.log,
            ateendee.linkable(),
            LinkTypes::AteendeeToAttendeesAttestations.scoped_spec(),
        ),
{
    let hashes = query_actions(
        store,
        ateendee.into_linkable(),
        LinkTypes::AteendeeToAttendeesAttestations,
    );
    found_hashes(store, &hashes)
}

/// The attestations of the event that a fetch still finds, each once.
pub fn get_attendees_attestations_for_event(store: &Store, event_hash: ActionHash) -> (r: Vec<
    ActionHash,
>)
    requires
        store.wf(),
    ensures
        r@ == found_actions(
            store@.log,
            event_hash.linkable(),
            LinkTypes::EventToAttendeesAttestations.scoped_spec(),
        ),
{
    let hashes = query_actions(
        store,
        event_hash.into_linkable(),
        LinkTypes::EventToAttendeesAttestations,
    );
    found_hashes(store, &hashes)
}

} // verus!
