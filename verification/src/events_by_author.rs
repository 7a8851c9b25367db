//! The events that a participant created.

use vstd::prelude::*;
use crate::hash::AgentPubKey;
use crate::integrity::LinkTypes;

use crate::record::Record;
use crate::relations::{found_actions, found_records, query_actions, records_at};
use crate::store::Store;

verus! {

/// The records that the author's edges lead to and that a fetch still
/// finds, each once.
pub fn get_events_by_author<'a>(store: &'a Store, author: AgentPubKey) -> (r: Vec<&'a Record>)
    requires
        store.wf(),
    ensures
        records_at(
            store@.log,
            found_actions(store@.log, author.linkable(), LinkTypes::EventsByAuthor.scoped_spec()),
            r@,
        ),
{
    let hashes = query_actions(store, author.into_linkable(), LinkTypes::EventsByAuthor);
    found_records(store, &hashes)
}

} // verus!
