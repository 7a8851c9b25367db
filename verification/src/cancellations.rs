//! Cancellations as records of their own: creating one, finding its
//! current revision, superseding and tombstoning it, and listing the
//! cancellations of a record.

use vstd::prelude::*;
use crate::commits::{
    created_record, entry_tombstoned, fetch_created, lemma_committed_found, supersede,
    superseded, tombstone,
};
use crate::effects::{extends, reaches};
use crate::error::{EntryKind, GatherError, Missing};
use crate::hash::ActionHash;
use crate::integrity::{Cancellation, EntryTypes, LinkTypes};

use crate::record::{LinkTag, Record};
use crate::relations::{link, query_actions, reached_actions};
use crate::revisions::{latest_in_chain, same_resolution, walk_latest};
use crate::store::{Store, StoreView};

verus! {

/// What is needed to supersede a cancellation.
#[derive(Clone, Debug, PartialEq)]
pub struct UpdateCancellationInput {
    pub previous_cancellation_hash: ActionHash,
    pub updated_cancellation: Cancellation,
}

/// The store after `cancellation` was created: the entry is committed, and
/// an edge leads to it from the record that it cancels.
pub open spec fn created_cancellation(s: StoreView, cancellation: Cancellation) -> StoreView {
    s.with_entry(EntryTypes::Cancellation(cancellation)).with_link(
        cancellation.event_hash.linkable(),
        ActionHash(s.log.len() as u64).linkable(),
        LinkTypes::Cancellations.scoped_spec(),
        LinkTag::Unit,
    )
}

/// Creates a cancellation and hands back its record.
pub fn create_cancellation<'a>(store: &'a mut Store, cancellation: Cancellation) -> (r: Result<
    &'a Record,
    GatherError,
>)
    requires
        old(store).wf(),
    ensures
        final(store).wf(),
        final(store)@ == created_cancellation(old(store)@, cancellation),
        extends(old(store)@.log, final(store)@.log),
        r matches Ok(record) && *record == created_record(
            old(store)@,
            EntryTypes::Cancellation(cancellation),
        ),
        reaches(
            final(store)@.log,
            cancellation.event_hash.linkable(),
            LinkTypes::Cancellations.scoped_spec(),
            ActionHash(old(store)@.log.len() as u64).linkable(),
        ),
{
    let ghost s0 = store@;
    let event_hash = cancellation.event_hash;
    let cancellation_hash = store.create_entry(EntryTypes::Cancellation(cancellation));
    let ghost s1 = store@;
    link(
        store,
        event_hash.into_linkable(),
        cancellation_hash.into_linkable(),
        LinkTypes::Cancellations,
    );
    proof {
        lemma_committed_found(
            s0,
            s1.log.last().signed_action.action,
            Some(EntryTypes::Cancellation(cancellation)),
            store@.log,
        );
    }
    fetch_created(store, cancellation_hash, Missing::Created(EntryKind::Cancellation))
}

/// The current revision of the cancellation, found by walking from each
/// revision to the last of those that supersede it: nothing where a
/// revision on the way is tombstoned, and nothing where the store does not
/// hold the cancellation.
pub fn get_cancellation<'a>(store: &'a Store, original_cancellation_hash: ActionHash) -> (r: Result<
    Option<&'a Record>,
    GatherError,
>)
    requires
        store.wf(),
    ensures
        same_resolution(
            r,
            latest_in_chain(store@.log, original_cancellation_hash),
        ),
{
    walk_latest(store, original_cancellation_hash)
}

/// Supersedes a cancellation and hands back the new record. Refused, with
/// the store unchanged, where the previous revision is no entry commit.
pub fn update_cancellation<'a>(store: &'a mut Store, input: UpdateCancellationInput) -> (r: Result<
    &'a Record,
    GatherError,
>)
    requires
        old(store).wf(),
    ensures
        final(store).wf(),
        superseded(
            old(store)@,
            final(store)@,
            input.previous_cancellation_hash,
            EntryTypes::Cancellation(input.updated_cancellation),
            r,
        ),
{
    supersede(
        store,
        input.previous_cancellation_hash,
        EntryTypes::Cancellation(input.updated_cancellation),
        EntryKind::Cancellation,
    )
}

/// Tombstones a cancellation and hands back the tombstone's identifier.
/// Refused, with the store unchanged, where there is no such entry commit.
pub fn delete_cancellation(store: &mut Store, original_cancellation_hash: ActionHash) -> (r: Result<
    ActionHash,
    GatherError,
>)
    requires
        old(store).wf(),
    ensures
        final(store).wf(),
        entry_tombstoned(old(store)@, final(store)@, original_cancellation_hash, r),
{
    tombstone(store, original_cancellation_hash)
}

/// The cancellations of a record, each once.
pub fn get_cancellations_for(store: &Store, action_hash: ActionHash) -> (r: Vec<ActionHash>)
    requires
        store.wf(),
    ensures
        r@ == reached_actions(
            store@.log,
            action_hash.linkable(),
            LinkTypes::Cancellations.scoped_spec(),
        ),
        r@.no_duplicates(),
        forall|h: ActionHash| #[trigger]
            r@.contains(h) <==> reaches(
                store@.log,
                action_hash.linkable(),
                LinkTypes::Cancellations.scoped_spec(),
                h.linkable(),
            ),
{
    query_actions(store, action_hash.into_linkable(), LinkTypes::Cancellations)
}

} // verus!
