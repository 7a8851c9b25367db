//! Proposals.

use vstd::prelude::*;
use crate::hash::{ActionHash, AgentPubKey, EntryHash};
use crate::integrity::event::EventTime;

verus! {

/// A proposal for an event.
#[derive(Clone, Debug, PartialEq)]
pub struct Proposal {
    pub hosts: Vec<AgentPubKey>,
    pub title: String,
    pub description: String,
    pub image: EntryHash,
    pub location: Option<String>,
    pub time: Option<EventTime>,
    pub cost: Option<String>,
    pub call_to_action_hash: ActionHash,
}

} // verus!
