//! Every event.

use vstd::prelude::*;
use crate::global_collections::Path;
use crate::hash::ActionHash;
use crate::integrity::LinkTypes;

use crate::relations::{found_actions, found_hashes, query_actions};
use crate::store::Store;

verus! {

/// The events that the anchor of all events leads to and that a fetch still
/// finds, each once.
pub fn get_all_events(store: &Store) -> (r: Vec<ActionHash>)
    requires
        store.wf(),
    ensures
        r@ == found_actions(store@.log, Path::AllEvents.base(), LinkTypes::AllEvents.scoped_spec()),
{
    let path = Path::AllEvents;
    let hashes = query_actions(
        store,
        path.path_entry_hash().into_linkable(),
        LinkTypes::AllEvents,
    );
    found_hashes(store, &hashes)
}

} // verus!
