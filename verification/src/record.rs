//! Commits, records and edges as plain values.

use vstd::prelude::*;
use crate::hash::{ActionHash, AgentPubKey, AnyLinkableHash};
use crate::integrity::EntryTypes;
use crate::notifications::GatherNotification;

verus! {

/// A point in time, in microseconds since the epoch.
#[derive(Clone, Copy, Debug, PartialEq, Eq, Structural, Hash)]
pub struct Timestamp(pub i64);

/// The type of an edge: the module that declares it and its position there.
#[derive(Clone, Copy, Debug, PartialEq, Eq, Structural, Hash)]
pub struct ScopedLinkType {
    pub zome_index: u8,
    pub zome_type: u8,
}

/// What an edge carries besides its endpoints.
#[derive(Clone, Copy, Debug, PartialEq, Eq, Structural)]
pub enum LinkTag {
    /// Nothing.
    Unit,
    /// An alert addressed to the participant at the edge's base.
    Alert(GatherNotification),
}

/// The commit of a new entry.
#[derive(Clone, Copy, Debug, PartialEq, Eq, Structural)]
pub struct Create {
    pub author: AgentPubKey,
    pub timestamp: Timestamp,
}

/// The commit of an entry that supersedes an earlier one.
#[derive(Clone, Copy, Debug, PartialEq, Eq, Structural)]
pub struct Update {
    pub author: AgentPubKey,
    pub timestamp: Timestamp,
    pub original_action_address: ActionHash,
}

/// The tombstone of an entry commit.
#[derive(Clone, Copy, Debug, PartialEq, Eq, Structural)]
pub struct Delete {
    pub author: AgentPubKey,
    pub timestamp: Timestamp,
    pub deletes_address: ActionHash,
}

/// The commit of an edge.
#[derive(Clone, Copy, Debug, PartialEq, Eq, Structural)]
pub struct CreateLink {
    pub author: AgentPubKey,
    pub timestamp: Timestamp,
    pub base_address: AnyLinkableHash,
    pub target_address: AnyLinkableHash,
    pub zome_index: u8,
    pub link_type: u8,
    pub tag: LinkTag,
}

/// The tombstone of one edge instance.
#[derive(Clone, Copy, Debug, PartialEq, Eq, Structural)]
pub struct DeleteLink {
    pub author: AgentPubKey,
    pub timestamp: Timestamp,
    pub base_address: AnyLinkableHash,
    pub link_add_address: ActionHash,
}

/// What a commit does.
#[derive(Clone, Copy, Debug, PartialEq, Eq, Structural)]
pub enum Action {
    Create(Create),
    Update(Update),
    Delete(Delete),
    CreateLink(CreateLink),
    DeleteLink(DeleteLink),
}

/// A commit that carries an entry.
#[derive(Clone, Copy, Debug, PartialEq, Eq, Structural)]
pub enum EntryCreationAction {
    Create(Create),
    Update(Update),
}

/// A commit together with its identifier.
#[derive(Clone, Copy, Debug, PartialEq, Eq, Structural)]
pub struct SignedActionHashed {
    pub hash: ActionHash,
    pub action: Action,
}

/// A commit together with the entry it carries, if it carries one.
#[derive(Clone, Debug, PartialEq)]
pub struct Record {
    pub signed_action: SignedActionHashed,
    pub entry: Option<EntryTypes>,
}

/// One live edge, as a reader of the store sees it.
#[derive(Clone, Copy, Debug, PartialEq, Eq, Structural)]
pub struct Link {
    pub author: AgentPubKey,
    pub base: AnyLinkableHash,
    pub target: AnyLinkableHash,
    pub timestamp: Timestamp,
    pub zome_index: u8,
    pub link_type: u8,
    pub tag: LinkTag,
    pub create_link_hash: ActionHash,
}

/// What the store knows of one commit: the record, and the commits that
/// supersede or tombstone it, oldest first.
pub struct RecordDetails<'a> {
    pub record: &'a Record,
    pub updates: Vec<ActionHash>,
    pub deletes: Vec<ActionHash>,
}

/// What the store knows of one entry.
pub struct EntryDetails {
    pub actions: Vec<ActionHash>,
}

/// What a lookup of details can hand back.
pub enum Details<'a> {
    Record(RecordDetails<'a>),
    Entry(EntryDetails),
}

impl Action {
    /// Who made the commit.
    pub open spec fn author_spec(self) -> AgentPubKey {
        match self {
            Action::Create(a) => a.author,
            Action::Update(a) => a.author,
            Action::Delete(a) => a.author,
            Action::CreateLink(a) => a.author,
            Action::DeleteLink(a) => a.author,
        }
    }

    /// When the commit was made.
    pub open spec fn timestamp_spec(self) -> Timestamp {
        match self {
            Action::Create(a) => a.timestamp,
            Action::Update(a) => a.timestamp,
            Action::Delete(a) => a.timestamp,
            Action::CreateLink(a) => a.timestamp,
            Action::DeleteLink(a) => a.timestamp,
        }
    }

    /// Whether the commit carries an entry.
    pub open spec fn carries_entry(self) -> bool {
        self is Create || self is Update
    }

    /// Who made the commit.
    pub fn author(&self) -> (r: AgentPubKey)
        ensures
            r == self.author_spec(),
    {
        match self {
            Action::Create(a) => a.author,
            Action::Update(a) => a.author,
            Action::Delete(a) => a.author,
            Action::CreateLink(a) => a.author,
            Action::DeleteLink(a) => a.author,
        }
    }

    /// When the commit was made.
    pub fn timestamp(&self) -> (r: Timestamp)
        ensures
            r == self.timestamp_spec(),
    {
        match self {
            Action::Create(a) => a.timestamp,
            Action::Update(a) => a.timestamp,
            Action::Delete(a) => a.timestamp,
            Action::CreateLink(a) => a.timestamp,
            Action::DeleteLink(a) => a.timestamp,
        }
    }
}

impl CreateLink {
    /// The edge's type.
    pub open spec fn scoped_type(self) -> ScopedLinkType {
        ScopedLinkType { zome_index: self.zome_index, zome_type: self.link_type }
    }
}

impl Record {
    /// The commit.
    pub fn action(&self) -> (r: &Action)
        ensures
            *r == self.signed_action.action,
    {
        &self.signed_action.action
    }

    /// The commit's identifier.
    pub fn action_address(&self) -> (r: ActionHash)
        ensures
            r == self.signed_action.hash,
    {
        self.signed_action.hash
    }

    /// The entry that the commit carries, if any.
    pub fn entry(&self) -> (r: Option<&EntryTypes>)
        ensures
            r == match self.entry {
                Some(e) => Some(&e),
                None => None,
            },
    {
        self.entry.as_ref()
    }
}

} // verus!
