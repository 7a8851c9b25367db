//! Identifiers of commits, entries, agents and foreign resources.
//!
//! An identifier is a kind together with a number. The number tells the
//! things of one kind apart: two identifiers of one kind name the same thing
//! exactly when their numbers are equal. Changing the kind of an identifier
//! keeps the number.

use vstd::prelude::*;

verus! {

/// Identifier of one commit.
#[derive(Clone, Copy, Debug, PartialEq, Eq, Structural, Hash)]
pub struct ActionHash(pub u64);

/// Identifier of one entry, or of an anchor.
#[derive(Clone, Copy, Debug, PartialEq, Eq, Structural, Hash)]
pub struct EntryHash(pub u64);

/// Identity of a participant.
#[derive(Clone, Copy, Debug, PartialEq, Eq, Structural, Hash)]
pub struct AgentPubKey(pub u64);

/// Identifier of something that lives outside the store.
#[derive(Clone, Copy, Debug, PartialEq, Eq, Structural, Hash)]
pub struct ExternalHash(pub u64);

/// Identifier of one store.
#[derive(Clone, Copy, Debug, PartialEq, Eq, Structural, Hash)]
pub struct DnaHash(pub u64);

/// Identifier of anything that can be fetched: an entry or a commit.
#[derive(Clone, Copy, Debug, PartialEq, Eq, Structural, Hash)]
pub enum AnyDhtHash {
    Entry(EntryHash),
    Action(ActionHash),
}

/// Identifier of anything an edge can start from or point to.
#[derive(Clone, Copy, Debug, PartialEq, Eq, Structural, Hash)]
pub enum AnyLinkableHash {
    Entry(EntryHash),
    Action(ActionHash),
    External(ExternalHash),
}

impl AgentPubKey {
    /// The identity read as an entry identifier.
    pub open spec fn entry_hash_spec(self) -> EntryHash {
        EntryHash(self.0)
    }

    /// The identity read as an entry identifier: a participant's key is an entry.
    pub fn into_entry_hash(self) -> (r: EntryHash)
        ensures
            r == self.entry_hash_spec(),
    {
        EntryHash(self.0)
    }

    /// The identity as an edge endpoint.
    pub open spec fn linkable(self) -> AnyLinkableHash {
        AnyLinkableHash::Entry(EntryHash(self.0))
    }

    /// The identity as an edge endpoint. It is of the entry kind.
    pub fn into_linkable(self) -> (r: AnyLinkableHash)
        ensures
            r == self.linkable(),
    {
        AnyLinkableHash::Entry(EntryHash(self.0))
    }
}

impl EntryHash {
    /// The entry identifier read as a participant's identity.
    pub open spec fn agent_spec(self) -> AgentPubKey {
        AgentPubKey(self.0)
    }

    /// The entry identifier read as a participant's identity.
    pub fn into_agent_pub_key(self) -> (r: AgentPubKey)
        ensures
            r == self.agent_spec(),
    {
        AgentPubKey(self.0)
    }

    /// The entry identifier as an edge endpoint.
    pub open spec fn linkable(self) -> AnyLinkableHash {
        AnyLinkableHash::Entry(self)
    }

    /// The entry identifier as an edge endpoint.
    pub fn into_linkable(self) -> (r: AnyLinkableHash)
        ensures
            r == self.linkable(),
    {
        AnyLinkableHash::Entry(self)
    }
}

impl ActionHash {
    /// The commit identifier as an edge endpoint.
    pub open spec fn linkable(self) -> AnyLinkableHash {
        AnyLinkableHash::Action(self)
    }

    /// The commit identifier as an edge endpoint.
    pub fn into_linkable(self) -> (r: AnyLinkableHash)
        ensures
            r == self.linkable(),
    {
        AnyLinkableHash::Action(self)
    }

    /// The commit identifier as something that can be fetched.
    pub fn into_any_dht_hash(self) -> (r: AnyDhtHash)
        ensures
            r == AnyDhtHash::Action(self),
    {
        AnyDhtHash::Action(self)
    }
}

impl AnyDhtHash {
    /// The commit identifier, where this names a commit.
    pub fn into_action_hash(self) -> (r: Option<ActionHash>)
        ensures
            r == (match self {
                AnyDhtHash::Action(h) => Some(h),
                AnyDhtHash::Entry(_) => None,
            }),
    {
        match self {
            AnyDhtHash::Action(h) => Some(h),
            AnyDhtHash::Entry(_) => None,
        }
    }

    /// The entry identifier, where this names an entry.
    pub fn into_entry_hash(self) -> (r: Option<EntryHash>)
        ensures
            r == (match self {
                AnyDhtHash::Entry(h) => Some(h),
                AnyDhtHash::Action(_) => None,
            }),
    {
        match self {
            AnyDhtHash::Entry(h) => Some(h),
            AnyDhtHash::Action(_) => None,
        }
    }

    /// The same identifier as an edge endpoint.
    pub fn into_linkable(self) -> (r: AnyLinkableHash)
        ensures
            r == (match self {
                AnyDhtHash::Entry(h) => AnyLinkableHash::Entry(h),
                AnyDhtHash::Action(h) => AnyLinkableHash::Action(h),
            }),
    {
        match self {
            AnyDhtHash::Entry(h) => AnyLinkableHash::Entry(h),
            AnyDhtHash::Action(h) => AnyLinkableHash::Action(h),
        }
    }
}

impl AnyLinkableHash {
    /// The commit that this endpoint names, if it names one.
    pub open spec fn action_hash(self) -> Option<ActionHash> {
        match self {
            AnyLinkableHash::Action(h) => Some(h),
            _ => None,
        }
    }

    /// The participant that this endpoint names, if it is of the entry kind.
    pub open spec fn agent_pub_key(self) -> Option<AgentPubKey> {
        match self {
            AnyLinkableHash::Entry(h) => Some(AgentPubKey(h.0)),
            _ => None,
        }
    }

    /// What can be fetched under this endpoint: nothing for a foreign resource.
    pub open spec fn any_dht_hash(self) -> Option<AnyDhtHash> {
        match self {
            AnyLinkableHash::Entry(h) => Some(AnyDhtHash::Entry(h)),
            AnyLinkableHash::Action(h) => Some(AnyDhtHash::Action(h)),
            AnyLinkableHash::External(_) => None,
        }
    }

    /// The commit identifier, where this endpoint names a commit.
    pub fn into_action_hash(self) -> (r: Option<ActionHash>)
        ensures
            r == self.action_hash(),
    {
        match self {
            AnyLinkableHash::Action(h) => Some(h),
            _ => None,
        }
    }

    /// The entry identifier, where this endpoint names an entry.
    pub fn into_entry_hash(self) -> (r: Option<EntryHash>)
        ensures
            r == (match self {
                AnyLinkableHash::Entry(h) => Some(h),
                _ => None,
            }),
    {
        match self {
            AnyLinkableHash::Entry(h) => Some(h),
            _ => None,
        }
    }

    /// The participant, where this endpoint is of the entry kind.
    pub fn into_agent_pub_key(self) -> (r: Option<AgentPubKey>)
        ensures
            r == self.agent_pub_key(),
    {
        match self {
            AnyLinkableHash::Entry(h) => Some(AgentPubKey(h.0)),
            _ => None,
        }
    }

    /// The foreign resource, where this endpoint names one.
    pub fn into_external_hash(self) -> (r: Option<ExternalHash>)
        ensures
            r == (match self {
                AnyLinkableHash::External(h) => Some(h),
                _ => None,
            }),
    {
        match self {
            AnyLinkableHash::External(h) => Some(h),
            _ => None,
        }
    }

    /// What can be fetched under this endpoint.
    pub fn into_any_dht_hash(self) -> (r: Option<AnyDhtHash>)
        ensures
            r == self.any_dht_hash(),
    {
        match self {
            AnyLinkableHash::Entry(h) => Some(AnyDhtHash::Entry(h)),
            AnyLinkableHash::Action(h) => Some(AnyDhtHash::Action(h)),
            AnyLinkableHash::External(_) => None,
        }
    }
}

} // verus!
