//! Revision resolution and index maintenance for collaboratively edited records.

pub mod hash;
pub mod record;
pub mod error;
pub mod integrity;
pub mod notifications;
pub mod pending_notifications;
pub mod log;
pub mod store;
pub mod links;
pub mod effects;
pub mod global_collections;
pub mod revisions;
pub mod relations;
pub mod commits;
pub mod event;
pub mod proposal;
pub mod my_events;
pub mod interested;
pub mod possible_participant;
pub mod event_to_attendees;
pub mod events_by_author;
pub mod all_events;
pub mod cancellations;
pub mod cancellation;
pub mod alerts_integrity;
pub mod alerts;
pub mod zome_traits;
pub mod laws;
pub mod attendees_attestation;

use vstd::prelude::*;

verus! {

/// Starts the gathering module: there is nothing to prepare.
pub fn init() -> (r: alerts::InitCallbackResult)
    ensures
        r == alerts::InitCallbackResult::Pass,
{
    alerts::InitCallbackResult::Pass
}

} // verus!
