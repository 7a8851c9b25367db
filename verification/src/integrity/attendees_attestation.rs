//! Attestations of attendance.

use vstd::prelude::*;
use crate::hash::{ActionHash, AgentPubKey};

verus! {

/// A statement of who attended an event.
#[derive(Clone, Debug, PartialEq)]
pub struct AttendeesAttestation {
    pub ateendees: Vec<AgentPubKey>,
    pub event_hash: ActionHash,
}

} // verus!
