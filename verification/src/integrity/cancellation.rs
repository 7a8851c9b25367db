//! Cancellations.

use vstd::prelude::*;
use crate::error::{GatherError, Malformed};
use crate::hash::{ActionHash, AnyLinkableHash};
use crate::integrity::{
    entry_at, entry_at_endpoint, must_get_entry, must_get_linked_entry, EntryTypes,
    ValidateCallbackResult,
};
use crate::record::{CreateLink, Delete, DeleteLink, EntryCreationAction, LinkTag, Record, Update};
use crate::store::Store;

verus! {

/// The cancellation of an event, with the reason given for it.
#[derive(Clone, Debug, PartialEq)]
pub struct Cancellation {
    pub reason: String,
    pub event_hash: ActionHash,
}

/// Whether a cancellation may be created: the commit that it cancels must
/// carry an event.
pub open spec fn create_cancellation_verdict(log: Seq<Record>, cancellation: Cancellation) -> Result<
    ValidateCallbackResult,
    GatherError,
> {
    match entry_at(log, cancellation.event_hash) {
        Err(e) => Err(e),
        Ok(EntryTypes::Event(_)) => Ok(ValidateCallbackResult::Valid),
        Ok(_) => Err(GatherError::MalformedData(Malformed::NotAnEvent)),
    }
}

/// Whether a cancellation may be created.
pub fn validate_create_cancellation(
    store: &Store,
    _action: EntryCreationAction,
    cancellation: &Cancellation,
) -> (r: Result<ValidateCallbackResult, GatherError>)
    ensures
        r == create_cancellation_verdict(store@.log, *cancellation),
{
    match must_get_entry(store, cancellation.event_hash) {
        Err(e) => Err(e),
        Ok(EntryTypes::Event(_)) => Ok(ValidateCallbackResult::Valid),
        Ok(_) => Err(GatherError::MalformedData(Malformed::NotAnEvent)),
    }
}

/// Whether a cancellation may be superseded: always.
pub fn validate_update_cancellation(
    _action: Update,
    _cancellation: &Cancellation,
    _original_action: EntryCreationAction,
    _original_cancellation: &Cancellation,
) -> (r: Result<ValidateCallbackResult, GatherError>)
    ensures
        r == Ok::<ValidateCallbackResult, GatherError>(ValidateCallbackResult::Valid),
{
    Ok(ValidateCallbackResult::Valid)
}

/// Whether a cancellation may be tombstoned: always.
pub fn validate_delete_cancellation(
    _action: Delete,
    _original_action: EntryCreationAction,
    _original_cancellation: &Cancellation,
) -> (r: Result<ValidateCallbackResult, GatherError>)
    ensures
        r == Ok::<ValidateCallbackResult, GatherError>(ValidateCallbackResult::Valid),
{
    Ok(ValidateCallbackResult::Valid)
}

/// Whether an edge from an event to a cancellation may be created: the
/// base must name a commit that carries an event, and the target one that
/// carries a cancellation. The base is looked at first.
pub open spec fn create_link_event_to_cancellations_verdict(
    log: Seq<Record>,
    base_address: AnyLinkableHash,
    target_address: AnyLinkableHash,
) -> Result<ValidateCallbackResult, GatherError> {
    match entry_at_endpoint(log, base_address) {
        Err(e) => Err(e),
        Ok(EntryTypes::Event(_)) => match entry_at_endpoint(log, target_address) {
            Err(e) => Err(e),
            Ok(EntryTypes::Cancellation(_)) => Ok(ValidateCallbackResult::Valid),
            Ok(_) => Err(GatherError::MalformedData(Malformed::NotACancellation)),
        },
        Ok(_) => Err(GatherError::MalformedData(Malformed::NotAnEvent)),
    }
}

/// Whether an edge from an event to a cancellation may be created.
pub fn validate_create_link_event_to_cancellations(
    store: &Store,
    _action: CreateLink,
    base_address: AnyLinkableHash,
    target_address: AnyLinkableHash,
    _tag: LinkTag,
) -> (r: Result<ValidateCallbackResult, GatherError>)
    ensures
        r == create_link_event_to_cancellations_verdict(store@.log, base_address, target_address),
{
    match must_get_linked_entry(store, base_address) {
        Err(e) => {
            return Err(e);
        },
        Ok(EntryTypes::Event(_)) => {},
        Ok(_) => {
            return Err(GatherError::MalformedData(Malformed::NotAnEvent));
        },
    }
    match must_get_linked_entry(store, target_address) {
        Err(e) => Err(e),
        Ok(EntryTypes::Cancellation(_)) => Ok(ValidateCallbackResult::Valid),
        Ok(_) => Err(GatherError::MalformedData(Malformed::NotACancellation)),
    }
}

/// Whether an edge from an event to a cancellation may be tombstoned:
/// never.
pub fn validate_delete_link_event_to_cancellations(
    _action: DeleteLink,
    _original_action: CreateLink,
    _base: AnyLinkableHash,
    _target: AnyLinkableHash,
    _tag: LinkTag,
) -> (r: Result<ValidateCallbackResult, GatherError>)
    ensures
        r matches Ok(ValidateCallbackResult::Invalid(reason)) && reason@
            == "EventToCancellations links cannot be deleted"@,
{
    Ok(ValidateCallbackResult::Invalid("EventToCancellations links cannot be deleted".to_owned()))
}

} // verus!
