//! The entry and edge types of the gathering module, and its validation rules.

use vstd::prelude::*;
use crate::error::{GatherError, Malformed, StoreError};
use crate::hash::{ActionHash, AnyLinkableHash};
use crate::record::{Record, ScopedLinkType};
use crate::store::Store;

pub mod event;
pub mod proposal;
pub mod cancellation;
pub mod attendees_attestation;

pub use event::{Event, EventTime, FromProposal, Duration};
pub use proposal::Proposal;
pub use cancellation::Cancellation;
pub use attendees_attestation::AttendeesAttestation;

verus! {

/// Position of the gathering module among the modules that declare edge types.
pub const GATHER_ZOME_INDEX: u8 = 0;

/// The payloads that a record can carry.
#[derive(Clone, Debug, PartialEq)]
pub enum EntryTypes {
    Event(Event),
    Proposal(Proposal),
    Cancellation(Cancellation),
    AttendeesAttestation(AttendeesAttestation),
}

/// The edge types of the gathering module.
#[derive(Clone, Copy, Debug, PartialEq, Eq, Structural, Hash)]
pub enum LinkTypes {
    Updates,
    AllEvents,
    AllProposals,
    MyEvents,
    PossibleParticipants,
    UpcomingEvents,
    PastEvents,
    CancelledEvents,
    OpenProposals,
    ExpiredProposals,
    CancelledProposals,
    ProposalToEvent,
    EventToCancellations,
    Cancellations,
    AteendeeToAttendeesAttestations,
    EventToAttendeesAttestations,
    EventToAttendees,
    AttendeeToEvents,
    EventsByAuthor,
    Interested,
}

/// What a validation rule answers.
#[derive(Clone, Debug, PartialEq)]
pub enum ValidateCallbackResult {
    Valid,
    Invalid(String),
}

impl LinkTypes {
    /// Position of the type in the module's declaration.
    pub open spec fn ordinal(self) -> u8 {
        match self {
            LinkTypes::Updates => 0,
            LinkTypes::AllEvents => 1,
            LinkTypes::AllProposals => 2,
            LinkTypes::MyEvents => 3,
            LinkTypes::PossibleParticipants => 4,
            LinkTypes::UpcomingEvents => 5,
            LinkTypes::PastEvents => 6,
            LinkTypes::CancelledEvents => 7,
            LinkTypes::OpenProposals => 8,
            LinkTypes::ExpiredProposals => 9,
            LinkTypes::CancelledProposals => 10,
            LinkTypes::ProposalToEvent => 11,
            LinkTypes::EventToCancellations => 12,
            LinkTypes::Cancellations => 13,
            LinkTypes::AteendeeToAttendeesAttestations => 14,
            LinkTypes::EventToAttendeesAttestations => 15,
            LinkTypes::EventToAttendees => 16,
            LinkTypes::AttendeeToEvents => 17,
            LinkTypes::EventsByAuthor => 18,
            LinkTypes::Interested => 19,
        }
    }

    /// The type as the store records it.
    pub open spec fn scoped_spec(self) -> ScopedLinkType {
        ScopedLinkType { zome_index: GATHER_ZOME_INDEX, zome_type: self.ordinal() }
    }

    /// The type that the store records as `zome_type` of module `zome_index`:
    /// none for another module, none past the last declared type.
    pub open spec fn from_type_spec(zome_index: u8, zome_type: u8) -> Option<LinkTypes> {
        if zome_index != GATHER_ZOME_INDEX {
            None
        } else if zome_type == 0 {
            Some(LinkTypes::Updates)
        } else if zome_type == 1 {
            Some(LinkTypes::AllEvents)
        } else if zome_type == 2 {
            Some(LinkTypes::AllProposals)
        } else if zome_type == 3 {
            Some(LinkTypes::MyEvents)
        } else if zome_type == 4 {
            Some(LinkTypes::PossibleParticipants)
        } else if zome_type == 5 {
            Some(LinkTypes::UpcomingEvents)
        } else if zome_type == 6 {
            Some(LinkTypes::PastEvents)
        } else if zome_type == 7 {
            Some(LinkTypes::CancelledEvents)
        } else if zome_type == 8 {
            Some(LinkTypes::OpenProposals)
        } else if zome_type == 9 {
            Some(LinkTypes::ExpiredProposals)
        } else if zome_type == 10 {
            Some(LinkTypes::CancelledProposals)
        } else if zome_type == 11 {
            Some(LinkTypes::ProposalToEvent)
        } else if zome_type == 12 {
            Some(LinkTypes::EventToCancellations)
        } else if zome_type == 13 {
            Some(LinkTypes::Cancellations)
        } else if zome_type == 14 {
            Some(LinkTypes::AteendeeToAttendeesAttestations)
        } else if zome_type == 15 {
            Some(LinkTypes::EventToAttendeesAttestations)
        } else if zome_type == 16 {
            Some(LinkTypes::EventToAttendees)
        } else if zome_type == 17 {
            Some(LinkTypes::AttendeeToEvents)
        } else if zome_type == 18 {
            Some(LinkTypes::EventsByAuthor)
        } else if zome_type == 19 {
            Some(LinkTypes::Interested)
        } else {
            None
        }
    }

    /// The type as the store records it.
    pub fn scoped(self) -> (r: ScopedLinkType)
        ensures
            r == self.scoped_spec(),
            LinkTypes::from_type_spec(r.zome_index, r.zome_type) == Some(self),
    {
        let zome_type: u8 = match self {
            LinkTypes::Updates => 0,
            LinkTypes::AllEvents => 1,
            LinkTypes::AllProposals => 2,
            LinkTypes::MyEvents => 3,
            LinkTypes::PossibleParticipants => 4,
            LinkTypes::UpcomingEvents => 5,
            LinkTypes::PastEvents => 6,
            LinkTypes::CancelledEvents => 7,
            LinkTypes::OpenProposals => 8,
            LinkTypes::ExpiredProposals => 9,
            LinkTypes::CancelledProposals => 10,
            LinkTypes::ProposalToEvent => 11,
            LinkTypes::EventToCancellations => 12,
            LinkTypes::Cancellations => 13,
            LinkTypes::AteendeeToAttendeesAttestations => 14,
            LinkTypes::EventToAttendeesAttestations => 15,
            LinkTypes::EventToAttendees => 16,
            LinkTypes::AttendeeToEvents => 17,
            LinkTypes::EventsByAuthor => 18,
            LinkTypes::Interested => 19,
        };
        ScopedLinkType { zome_index: GATHER_ZOME_INDEX, zome_type }
    }

    /// The declared type of an edge that the store records as `zome_type` of
    /// module `zome_index`.
    pub fn from_type(zome_index: u8, zome_type: u8) -> (r: Option<LinkTypes>)
        ensures
            r == LinkTypes::from_type_spec(zome_index, zome_type),
            r matches Some(t) ==> t.scoped_spec() == (ScopedLinkType { zome_index, zome_type }),
    {
        if zome_index != GATHER_ZOME_INDEX {
            return None;
        }
        match zome_type {
            0 => Some(LinkTypes::Updates),
            1 => Some(LinkTypes::AllEvents),
            2 => Some(LinkTypes::AllProposals),
            3 => Some(LinkTypes::MyEvents),
            4 => Some(LinkTypes::PossibleParticipants),
            5 => Some(LinkTypes::UpcomingEvents),
            6 => Some(LinkTypes::PastEvents),
            7 => Some(LinkTypes::CancelledEvents),
            8 => Some(LinkTypes::OpenProposals),
            9 => Some(LinkTypes::ExpiredProposals),
            10 => Some(LinkTypes::CancelledProposals),
            11 => Some(LinkTypes::ProposalToEvent),
            12 => Some(LinkTypes::EventToCancellations),
            13 => Some(LinkTypes::Cancellations),
            14 => Some(LinkTypes::AteendeeToAttendeesAttestations),
            15 => Some(LinkTypes::EventToAttendeesAttestations),
            16 => Some(LinkTypes::EventToAttendees),
            17 => Some(LinkTypes::AttendeeToEvents),
            18 => Some(LinkTypes::EventsByAuthor),
            19 => Some(LinkTypes::Interested),
            _ => None,
        }
    }
}

/// Whether a commit may stand: the gathering module accepts every commit.
pub fn validate(_op: &Record) -> (r: ValidateCallbackResult)
    ensures
        r == ValidateCallbackResult::Valid,
{
    ValidateCallbackResult::Valid
}

/// The entry that the commit `h` carries, tombstoned or not: a failure
/// where the log does not hold the commit, or the commit carries no entry.
pub open spec fn entry_at(log: Seq<Record>, h: ActionHash) -> Result<EntryTypes, GatherError> {
    if h.0 >= log.len() {
        Err(GatherError::PolicyViolation(StoreError::NoSuchCommit(h)))
    } else {
        match log[h.0 as int].entry {
            None => Err(GatherError::MalformedData(Malformed::NoEntry)),
            Some(entry) => Ok(entry),
        }
    }
}

/// The entry that the commit at the endpoint `hash` carries: a failure
/// where the endpoint names no commit.
pub open spec fn entry_at_endpoint(log: Seq<Record>, hash: AnyLinkableHash) -> Result<
    EntryTypes,
    GatherError,
> {
    match hash {
        AnyLinkableHash::Action(h) => entry_at(log, h),
        _ => Err(GatherError::MalformedData(Malformed::NoActionHash)),
    }
}

/// Whether a fetched entry, or a failure, is what was to be found.
pub open spec fn same_entry(r: Result<&EntryTypes, GatherError>, m: Result<EntryTypes, GatherError>) -> bool {
    match (r, m) {
        (Ok(a), Ok(b)) => *a == b,
        (Err(e), Err(f)) => e == f,
        _ => false,
    }
}

/// The entry that the commit `h` carries, tombstoned or not.
pub fn must_get_entry<'a>(store: &'a Store, h: ActionHash) -> (r: Result<&'a EntryTypes, GatherError>)
    ensures
        same_entry(r, entry_at(store@.log, h)),
{
    match store.must_get_valid_record(h) {
        Err(e) => Err(GatherError::PolicyViolation(e)),
        Ok(record) => match &record.entry {
            None => Err(GatherError::MalformedData(Malformed::NoEntry)),
            Some(entry) => Ok(entry),
        },
    }
}

/// The entry that the commit at the endpoint `hash` carries.
pub fn must_get_linked_entry<'a>(store: &'a Store, hash: AnyLinkableHash) -> (r: Result<
    &'a EntryTypes,
    GatherError,
>)
    ensures
        same_entry(r, entry_at_endpoint(store@.log, hash)),
{
    match hash.into_action_hash() {
        None => Err(GatherError::MalformedData(Malformed::NoActionHash)),
        Some(h) => must_get_entry(store, h),
    }
}

} // verus!
