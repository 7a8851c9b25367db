//! What can go wrong.

use vstd::prelude::*;
use crate::hash::ActionHash;

verus! {

/// Why the store refused a commit or a fetch.
#[derive(Clone, Copy, Debug, PartialEq, Eq, Structural)]
pub enum StoreError {
    /// The commit to supersede or tombstone is not in the store, or carries
    /// no entry.
    NotAnEntryCommit(ActionHash),
    /// The edge to tombstone is not in the store.
    NotALinkCommit(ActionHash),
    /// No commit has this identifier.
    NoSuchCommit(ActionHash),
}

/// The kinds of entry.
#[derive(Clone, Copy, Debug, PartialEq, Eq, Structural)]
pub enum EntryKind {
    Event,
    Proposal,
    Cancellation,
    AttendeesAttestation,
}

/// What was looked for and not found.
#[derive(Clone, Copy, Debug, PartialEq, Eq, Structural)]
pub enum Missing {
    /// The event to cancel.
    Event,
    /// The record that was just created.
    Created(EntryKind),
    /// The record that was just written as an update.
    Updated(EntryKind),
    /// The commit of the edge that a tombstone names.
    CreateLinkAction,
    /// The current revision of the event that an alert is about.
    LatestEvent,
    /// The current revision of the proposal that an alert is about.
    LatestProposal,
}

/// What did not have the expected shape.
#[derive(Clone, Copy, Debug, PartialEq, Eq, Structural)]
pub enum Malformed {
    /// Details of an entry where those of a record were expected.
    Details,
    /// An endpoint of an edge that names no commit.
    NoActionHash,
    /// A record without an entry where one was expected.
    NoEntry,
    /// An entry that is no event.
    NotAnEvent,
    /// An entry that is no proposal.
    NotAProposal,
    /// An entry that is no cancellation.
    NotACancellation,
    /// A commit that creates no edge where one was expected.
    NotACreateLink,
    /// An edge that carries no alert.
    NotANotification,
}

/// How a call into another module failed.
#[derive(Clone, Copy, Debug, PartialEq, Eq, Structural)]
pub enum RemoteFailure {
    Unauthorized,
    AuthenticationFailed,
    NetworkError,
    CountersigningSession,
}

/// Why an operation failed.
#[derive(Clone, Copy, Debug, PartialEq, Eq, Structural)]
pub enum GatherError {
    /// Something that must exist is absent.
    NotFound(Missing),
    /// Stored data does not have the expected shape.
    MalformedData(Malformed),
    /// A call into another module failed.
    RemoteFailure(RemoteFailure),
    /// The store refused a commit.
    PolicyViolation(StoreError),
}

} // verus!
