//! Events.

use vstd::prelude::*;
use crate::hash::{ActionHash, AgentPubKey, EntryHash};
use crate::error::{GatherError, Malformed};
use crate::hash::AnyLinkableHash;
use crate::integrity::{entry_at_endpoint, must_get_linked_entry, EntryTypes, ValidateCallbackResult};
use crate::record::{CreateLink, DeleteLink, LinkTag, Record, Timestamp};
use crate::store::Store;

verus! {

/// A span of time.
#[derive(Clone, Copy, Debug, PartialEq, Eq, Structural)]
pub struct Duration {
    pub secs: u64,
    pub nanos: u32,
}

/// When an event takes place.
#[derive(Clone, Copy, Debug, PartialEq, Eq, Structural)]
pub enum EventTime {
    Periodic {
        start_time: Timestamp,
        event_duration: Duration,
        period_duration: Duration,
        ocurrences: Option<u64>,
    },
    Unique { start_time: Timestamp, end_time: Timestamp },
}

/// The proposal that an event came from, and the assembly that fulfilled it.
#[derive(Clone, Copy, Debug, PartialEq, Eq, Structural)]
pub struct FromProposal {
    pub proposal_hash: ActionHash,
    pub assembly_hash: ActionHash,
}

/// An event.
#[derive(Clone, Debug, PartialEq)]
pub struct Event {
    pub hosts: Vec<AgentPubKey>,
    pub title: String,
    pub description: String,
    pub image: EntryHash,
    pub location: String,
    pub time: EventTime,
    pub cost: Option<String>,
    pub call_to_action_hash: ActionHash,
    pub from_proposal: Option<FromProposal>,
}

/// Whether an edge from an author to an event may be created: the target
/// must name a commit that carries an event.
pub open spec fn create_link_events_by_author_verdict(
    log: Seq<Record>,
    target_address: AnyLinkableHash,
) -> Result<ValidateCallbackResult, GatherError> {
    match entry_at_endpoint(log, target_address) {
        Err(e) => Err(e),
        Ok(EntryTypes::Event(_)) => Ok(ValidateCallbackResult::Valid),
        Ok(_) => Err(GatherError::MalformedData(Malformed::NotAnEvent)),
    }
}

/// Whether an edge from an author to an event may be created.
pub fn validate_create_link_events_by_author(
    store: &Store,
    _action: CreateLink,
    _base_address: AnyLinkableHash,
    target_address: AnyLinkableHash,
    _tag: LinkTag,
) -> (r: Result<ValidateCallbackResult, GatherError>)
    ensures
        r == create_link_events_by_author_verdict(store@.log, target_address),
{
    match must_get_linked_entry(store, target_address) {
        Err(e) => Err(e),
        Ok(EntryTypes::Event(_)) => Ok(ValidateCallbackResult::Valid),
        Ok(_) => Err(GatherError::MalformedData(Malformed::NotAnEvent)),
    }
}

/// Whether an edge from an author to an event may be tombstoned: never.
pub fn validate_delete_link_events_by_author(
    _action: DeleteLink,
    _original_action: CreateLink,
    _base: AnyLinkableHash,
    _target: AnyLinkableHash,
    _tag: LinkTag,
) -> (r: Result<ValidateCallbackResult, GatherError>)
    ensures
        r matches Ok(ValidateCallbackResult::Invalid(reason)) && reason@
            == "EventsByAuthor links cannot be deleted"@,
{
    Ok(ValidateCallbackResult::Invalid("EventsByAuthor links cannot be deleted".to_owned()))
}

} // verus!
