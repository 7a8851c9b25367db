//! The edge type of the alerts module, and its validation rule.

use vstd::prelude::*;
use crate::integrity::ValidateCallbackResult;
use crate::record::{Record, ScopedLinkType};

verus! {

/// Position of the alerts module among the modules that declare edge types.
pub const ALERTS_ZOME_INDEX: u8 = 1;

/// The edge types of the alerts module.
#[derive(Clone, Copy, Debug, PartialEq, Eq, Structural, Hash)]
pub enum LinkTypes {
    MyAlerts,
}

impl LinkTypes {
    /// The type as the store records it.
    pub open spec fn scoped_spec(self) -> ScopedLinkType {
        ScopedLinkType { zome_index: ALERTS_ZOME_INDEX, zome_type: 0 }
    }

    /// The type that the store records as `zome_type` of module
    /// `zome_index`: none for another module, none past the last declared
    /// type.
    pub open spec fn from_type_spec(zome_index: u8, zome_type: u8) -> Option<LinkTypes> {
        if zome_index == ALERTS_ZOME_INDEX && zome_type == 0 {
            Some(LinkTypes::MyAlerts)
        } else {
            None
        }
    }

    /// The type as the store records it.
    pub fn scoped(self) -> (r: ScopedLinkType)
        ensures
            r == self.scoped_spec(),
            LinkTypes::from_type_spec(r.zome_index, r.zome_type) == Some(self),
    {
        ScopedLinkType { zome_index: ALERTS_ZOME_INDEX, zome_type: 0 }
    }

    /// The declared type of an edge that the store records as `zome_type`
    /// of module `zome_index`.
    pub fn from_type(zome_index: u8, zome_type: u8) -> (r: Option<LinkTypes>)
        ensures
            r == LinkTypes::from_type_spec(zome_index, zome_type),
    {
        if zome_index == ALERTS_ZOME_INDEX && zome_type == 0 {
            Some(LinkTypes::MyAlerts)
        } else {
            None
        }
    }
}

/// Whether a commit may stand: the alerts module accepts every commit.
pub fn validate(_op: &Record) -> (r: ValidateCallbackResult)
    ensures
        r == ValidateCallbackResult::Valid,
{
    ValidateCallbackResult::Valid
}

} // verus!
