//! Reading back what was just written.

use vstd::prelude::*;
use crate::effects::{
    extends, lemma_entry_after_commit, lemma_found_stays, lemma_fresh, same_entries,
};
use crate::error::{EntryKind, GatherError, Missing, StoreError};
use crate::hash::ActionHash;
use crate::integrity::EntryTypes;
use crate::log::{is_entry_commit, next_record, record_of, wf_log};
use crate::record::{Action, Create, Record, Update};
use crate::store::{Store, StoreView};

verus! {

/// The record that the commit of a new entry writes.
pub open spec fn created_record(s: StoreView, entry: EntryTypes) -> Record {
    next_record(
        s.log,
        Action::Create(Create { author: s.agent, timestamp: s.now }),
        Some(entry),
    )
}

/// The record that the commit of a superseding entry writes.
pub open spec fn updated_record(s: StoreView, previous: ActionHash, entry: EntryTypes) -> Record {
    next_record(
        s.log,
        Action::Update(
            Update { author: s.agent, timestamp: s.now, original_action_address: previous },
        ),
        Some(entry),
    )
}

/// What it means that `entry` was committed as superseding `previous`, with
/// the outcome `r`: the new record is handed back; or, where `previous` is
/// no entry commit, the store is as it was and the commit is refused.
pub open spec fn superseded(
    before: StoreView,
    after: StoreView,
    previous: ActionHash,
    entry: EntryTypes,
    r: Result<&Record, GatherError>,
) -> bool {
    if is_entry_commit(before.log, previous) {
        &&& after == before.with_update(previous, entry)
        &&& r matches Ok(record) && *record == updated_record(before, previous, entry)
    } else {
        &&& after == before
        &&& r == Err::<&Record, GatherError>(
            GatherError::PolicyViolation(StoreError::NotAnEntryCommit(previous)),
        )
    }
}

/// What it means that the entry commit `h` was tombstoned, with the outcome
/// `r`: the tombstone's identifier is handed back; or, where `h` is no
/// entry commit, the store is as it was and the tombstone is refused.
pub open spec fn entry_tombstoned(
    before: StoreView,
    after: StoreView,
    h: ActionHash,
    r: Result<ActionHash, GatherError>,
) -> bool {
    if is_entry_commit(before.log, h) {
        &&& after == before.with_delete(h)
        &&& r == Ok::<ActionHash, GatherError>(ActionHash(before.log.len() as u64))
    } else {
        &&& after == before
        &&& r == Err::<ActionHash, GatherError>(
            GatherError::PolicyViolation(StoreError::NotAnEntryCommit(h)),
        )
    }
}

/// A record that was just committed is found as long as the commits that
/// follow leave every entry as it was.
pub proof fn lemma_committed_found(
    s: StoreView,
    action: Action,
    entry: Option<EntryTypes>,
    after: Seq<Record>,
)
    requires
        wf_log(s.log),
        !(action is Delete),
        extends(s.with_commit(action, entry).log, after),
        same_entries(s.with_commit(action, entry).log, after),
    ensures
        record_of(after, ActionHash(s.log.len() as u64)) == Some(
            next_record(s.log, action, entry),
        ),
{
    let h = ActionHash(s.log.len() as u64);
    let mid = s.with_commit(action, entry).log;
    lemma_fresh(s.log, h);
    lemma_entry_after_commit(s, action, entry, h);
    assert(mid[h.0 as int] == next_record(s.log, action, entry));
    lemma_found_stays(mid, after, h);
}

/// Fetches the commit `h`, which is expected to be there.
pub fn fetch_created<'a>(store: &'a Store, h: ActionHash, missing: Missing) -> (r: Result<
    &'a Record,
    GatherError,
>)
    ensures
        record_of(store@.log, h) matches Some(record) ==> (r matches Ok(x) && *x == record),
        record_of(store@.log, h) is None ==> r == Err::<&Record, GatherError>(
            GatherError::NotFound(missing),
        ),
{
    match store.get(h) {
        Some(record) => Ok(record),
        None => Err(GatherError::NotFound(missing)),
    }
}

/// Commits `entry` as superseding `previous` and hands back its record.
/// Refused, with the store unchanged, where `previous` is no entry commit.
pub fn supersede<'a>(store: &'a mut Store, previous: ActionHash, entry: EntryTypes, kind: EntryKind) -> (r:
    Result<&'a Record, GatherError>)
    requires
        old(store).wf(),
    ensures
        final(store).wf(),
        superseded(old(store)@, final(store)@, previous, entry, r),
{
    let ghost s0 = store@;
    let updated_hash = match store.update_entry(previous, entry) {
        Ok(h) => h,
        Err(e) => {
            return Err(GatherError::PolicyViolation(e));
        },
    };
    proof {
        lemma_committed_found(s0, store@.log.last().signed_action.action, Some(entry), store@.log);
    }
    fetch_created(store, updated_hash, Missing::Updated(kind))
}

/// Commits a tombstone for the entry commit `h` and hands back the
/// tombstone's identifier. Refused, with the store unchanged, where `h` is
/// no entry commit.
pub fn tombstone(store: &mut Store, h: ActionHash) -> (r: Result<ActionHash, GatherError>)
    requires
        old(store).wf(),
    ensures
        final(store).wf(),
        entry_tombstoned(old(store)@, final(store)@, h, r),
{
    match store.delete_entry(h) {
        Ok(t) => Ok(t),
        Err(e) => Err(GatherError::PolicyViolation(e)),
    }
}

} // verus!
