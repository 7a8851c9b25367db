//! Cancelling an event.
//!
//! Whether a cancelled record counts as a cancelled event or as a cancelled
//! proposal depends on what another module knows: whether an assembly has
//! formed for the record's call to action. That module is asked first. Only
//! when its answer is there is anything written, so a failed call leaves
//! the store as it was.

use vstd::prelude::*;
use crate::commits::{created_record, entry_tombstoned, fetch_created, superseded};
use crate::effects::{extends, lemma_entry_after_commit, lemma_fresh, lemma_reaches_after_entry_commit, reaches};
use crate::error::{EntryKind, GatherError, Malformed, Missing};
use crate::global_collections::{assign, assigned, holds, same_family, Path};
use crate::hash::{ActionHash, AnyLinkableHash};
use crate::integrity::{Cancellation, EntryTypes, LinkTypes};
use crate::links::distinct_targets;
use crate::log::{is_entry_commit, live_links, record_of, wf_record};
use crate::notifications::{remote_failure, ZomeCallResponse};
use crate::record::{LinkTag, Record};
use crate::relations::{found, found_records, link, query, records_at};
use crate::revisions::{latest_in_chain, same_resolution};
use crate::store::{Store, StoreView};

pub use crate::cancellations::UpdateCancellationInput;

verus! {

/// The call to action of the event to cancel: a failure where the event is
/// not found, or where what is found is no event.
pub open spec fn call_to_action_of(log: Seq<Record>, event_hash: ActionHash) -> Result<
    ActionHash,
    GatherError,
> {
    match record_of(log, event_hash) {
        None => Err(GatherError::NotFound(Missing::Event)),
        Some(record) => match record.entry {
            Some(EntryTypes::Event(event)) => Ok(event.call_to_action_hash),
            _ => Err(GatherError::MalformedData(Malformed::NotAnEvent)),
        },
    }
}

/// Where a cancelled record goes: to the cancelled events where an assembly
/// has formed, to the cancelled proposals where none has; a failure where
/// the call did not succeed.
pub open spec fn anchor_for(response: ZomeCallResponse) -> Result<Path, GatherError> {
    match response {
        ZomeCallResponse::Returned(assemblies) => Ok(
            if assemblies@.len() > 0 {
                Path::AllCancelledEvents
            } else {
                Path::AllCancelledProposals
            },
        ),
        _ => Err(GatherError::RemoteFailure(remote_failure(response))),
    }
}

/// The store after the event was cancelled into `target`: the event has
/// entered the collection at `target`, the cancellation is committed, an
/// edge leads to it from the event, and the event is tombstoned.
pub open spec fn cancelled(s: StoreView, cancellation: Cancellation, target: Path) -> StoreView {
    let entered = assigned(s, cancellation.event_hash, target);
    entered.with_entry(EntryTypes::Cancellation(cancellation)).with_link(
        cancellation.event_hash.linkable(),
        ActionHash(entered.log.len() as u64).linkable(),
        LinkTypes::EventToCancellations.scoped_spec(),
        LinkTag::Unit,
    ).with_delete(cancellation.event_hash)
}

/// The call to action of the event to cancel, given what a fetch of the
/// event found: a failure where nothing was found, or where what was found
/// is no event.
pub fn event_to_cancel(found: Option<&Record>) -> (r: Result<ActionHash, GatherError>)
    ensures
        r == (match found {
            None => Err::<ActionHash, GatherError>(GatherError::NotFound(Missing::Event)),
            Some(record) => match record.entry {
                Some(EntryTypes::Event(event)) => Ok(event.call_to_action_hash),
                _ => Err(GatherError::MalformedData(Malformed::NotAnEvent)),
            },
        }),
{
    match found {
        None => Err(GatherError::NotFound(Missing::Event)),
        Some(record) => match &record.entry {
            Some(EntryTypes::Event(event)) => Ok(event.call_to_action_hash),
            _ => Err(GatherError::MalformedData(Malformed::NotAnEvent)),
        },
    }
}

/// The call to action of the event that `cancellation` is about: what the
/// other module is to be asked about.
pub fn call_to_action(store: &Store, cancellation: &Cancellation) -> (r: Result<
    ActionHash,
    GatherError,
>)
    ensures
        r == call_to_action_of(store@.log, cancellation.event_hash),
{
    event_to_cancel(store.get(cancellation.event_hash))
}

/// Where a cancelled record goes, by the other module's answer.
pub fn cancellation_anchor(response: &ZomeCallResponse) -> (r: Result<Path, GatherError>)
    ensures
        r == anchor_for(*response),
{
    match response {
        ZomeCallResponse::Returned(assemblies) => {
            if assemblies.len() > 0 {
                Ok(Path::AllCancelledEvents)
            } else {
                Ok(Path::AllCancelledProposals)
            }
        },
        ZomeCallResponse::Unauthorized => Err(
            GatherError::RemoteFailure(crate::error::RemoteFailure::Unauthorized),
        ),
        ZomeCallResponse::AuthenticationFailed => Err(
            GatherError::RemoteFailure(crate::error::RemoteFailure::AuthenticationFailed),
        ),
        ZomeCallResponse::NetworkError => Err(
            GatherError::RemoteFailure(crate::error::RemoteFailure::NetworkError),
        ),
        ZomeCallResponse::CountersigningSession => Err(
            GatherError::RemoteFailure(crate::error::RemoteFailure::CountersigningSession),
        ),
    }
}

/// Cancels an event, given the other module's answer to the question which
/// assemblies have formed for the event's call to action, and hands back
/// the record of the cancellation.
///
/// Nothing is written where the event is not found, is no event, or the
/// call failed. Else the event enters the cancelled events or the cancelled
/// proposals, the cancellation is committed with an edge from the event,
/// and the event is tombstoned.
pub fn cancel_event<'a>(store: &'a mut Store, cancellation: Cancellation, response: &ZomeCallResponse) -> (r:
    Result<&'a Record, GatherError>)
    requires
        old(store).wf(),
    ensures
        final(store).wf(),
        match (call_to_action_of(old(store)@.log, cancellation.event_hash), anchor_for(*response)) {
            (Err(e), _) => r == Err::<&Record, GatherError>(e) && final(store)@ == old(store)@,
            (Ok(_), Err(e)) => r == Err::<&Record, GatherError>(e) && final(store)@ == old(store)@,
            (Ok(_), Ok(target)) => {
                &&& final(store)@ == cancelled(old(store)@, cancellation, target)
                &&& extends(old(store)@.log, final(store)@.log)
                &&& r matches Ok(record) && *record == created_record(
                    assigned(old(store)@, cancellation.event_hash, target),
                    EntryTypes::Cancellation(cancellation),
                )
                &&& forall|p: Path|
                    same_family(p, target) ==> (#[trigger] holds(
                        final(store)@.log,
                        p,
                        cancellation.event_hash,
                    ) <==> p == target)
                &&& reaches(
                    final(store)@.log,
                    cancellation.event_hash.linkable(),
                    LinkTypes::EventToCancellations.scoped_spec(),
                    ActionHash(
                        assigned(old(store)@, cancellation.event_hash, target).log.len() as u64,
                    ).linkable(),
                )
                &&& record_of(final(store)@.log, cancellation.event_hash) is None
            },
        },
{
    let ghost s0 = store@;
    let event_hash = cancellation.event_hash;
    match call_to_action(store, &cancellation) {
        Err(e) => {
            return Err(e);
        },
        Ok(_) => {},
    }
    let target = match cancellation_anchor(response) {
        Err(e) => {
            return Err(e);
        },
        Ok(target) => target,
    };
    proof {
        assert(wf_record(s0.log, event_hash.0 as int));
        assert(is_entry_commit(s0.log, event_hash));
    }
    assign(store, event_hash, target);
    let ghost s1 = store@;
    let ghost ch = ActionHash(s1.log.len() as u64);
    let cancellation_hash = store.create_entry(EntryTypes::Cancellation(cancellation));
    let ghost s2 = store@;
    link(
        store,
        event_hash.into_linkable(),
        cancellation_hash.into_linkable(),
        LinkTypes::EventToCancellations,
    );
    let ghost s3 = store@;
    proof {
        assert(s3.log[event_hash.0 as int] == s0.log[event_hash.0 as int]);
    }
    let _ = store.delete_entry(event_hash);
    let ghost s4 = store@;
    proof {
        let create = s2.log.last().signed_action.action;
        let delete = s4.log.last().signed_action.action;
        lemma_fresh(s1.log, ch);
        lemma_entry_after_commit(s1, create, Some(EntryTypes::Cancellation(cancellation)), ch);
        lemma_entry_after_commit(s3, delete, None, ch);
        lemma_entry_after_commit(s3, delete, None, event_hash);
        assert(s4.log[ch.0 as int] == s2.log[ch.0 as int]);
        assert(s2.log[ch.0 as int] == s2.log.last());
        assert forall|p: Path| same_family(p, target) implies (#[trigger] holds(
            s4.log,
            p,
            event_hash,
        ) <==> p == target) by {
            let b = p.base();
            let t = p.membership().scoped_spec();
            let x = event_hash.linkable();
            lemma_reaches_after_entry_commit(
                s1,
                create,
                Some(EntryTypes::Cancellation(cancellation)),
                b,
                t,
                x,
            );
            lemma_reaches_after_entry_commit(s3, delete, None, b, t, x);
            assert(holds(s1.log, p, event_hash) <==> p == target);
            assert(reaches(s3.log, b, t, x) <==> reaches(s2.log, b, t, x));
        }
        lemma_reaches_after_entry_commit(
            s3,
            delete,
            None,
            event_hash.linkable(),
            LinkTypes::EventToCancellations.scoped_spec(),
            ch.linkable(),
        );
    }
    fetch_created(store, cancellation_hash, Missing::Created(EntryKind::Cancellation))
}

/// The current revision of a cancellation.
pub fn get_cancellation<'a>(store: &'a Store, original_cancellation_hash: ActionHash) -> (r: Result<
    Option<&'a Record>,
    GatherError,
>)
    requires
        store.wf(),
    ensures
        same_resolution(
            r,
            latest_in_chain(store@.log, original_cancellation_hash),
        ),
{
    crate::cancellations::get_cancellation(store, original_cancellation_hash)
}

/// Supersedes a cancellation and hands back the new record. Refused, with
/// the store unchanged, where the previous revision is no entry commit.
pub fn update_cancellation<'a>(store: &'a mut Store, input: UpdateCancellationInput) -> (r: Result<
    &'a Record,
    GatherError,
>)
    requires
        old(store).wf(),
    ensures
        final(store).wf(),
        superseded(
            old(store)@,
            final(store)@,
            input.previous_cancellation_hash,
            EntryTypes::Cancellation(input.updated_cancellation),
            r,
        ),
{
    crate::cancellations::update_cancellation(store, input)
}

/// Tombstones a cancellation and hands back the tombstone's identifier.
/// Refused, with the store unchanged, where there is no such entry commit.
pub fn delete_cancellation(store: &mut Store, original_cancellation_hash: ActionHash) -> (r: Result<
    ActionHash,
    GatherError,
>)
    requires
        old(store).wf(),
    ensures
        final(store).wf(),
        entry_tombstoned(old(store)@, final(store)@, original_cancellation_hash, r),
{
    crate::cancellations::delete_cancellation(store, original_cancellation_hash)
}

/// The commits that `targets` name, in order: a failure where one of them
/// names no commit.
pub open spec fn all_action_hashes(targets: Seq<AnyLinkableHash>) -> Result<
    Seq<ActionHash>,
    GatherError,
>
    decreases targets.len(),
{
    if targets.len() == 0 {
        Ok(Seq::empty())
    } else {
        match (all_action_hashes(targets.drop_last()), targets.last()) {
            (Ok(prev), AnyLinkableHash::Action(h)) => Ok(prev.push(h)),
            _ => Err(GatherError::MalformedData(Malformed::NoActionHash)),
        }
    }
}

/// The commits that `targets` name, in order: refused where one of them
/// names no commit.
pub fn only_actions(targets: &Vec<AnyLinkableHash>) -> (r: Result<Vec<ActionHash>, GatherError>)
    ensures
        match (r, all_action_hashes(targets@)) {
            (Ok(v), Ok(s)) => v@ == s,
            (Err(e), Err(f)) => e == f,
            _ => false,
        },
{
    let mut out: Vec<ActionHash> = Vec::new();
    let mut i: usize = 0;
    while i < targets.len()
        invariant
            i <= targets@.len(),
            all_action_hashes(targets@.take(i as int)) == Ok::<Seq<ActionHash>, GatherError>(out@),
        decreases targets@.len() - i,
    {
        proof {
            crate::log::lemma_take_step(targets@, i as int);
        }
        match targets[i].into_action_hash() {
            Some(h) => {
                out.push(h);
            },
            None => {
                proof {
                    lemma_all_action_hashes_fails(targets@, i as int);
                }
                return Err(GatherError::MalformedData(Malformed::NoActionHash));
            },
        }
        i = i + 1;
    }
    proof {
        assert(targets@.take(i as int) =~= targets@);
    }
    Ok(out)
}

/// Where one target names no commit, the selection fails.
pub proof fn lemma_all_action_hashes_fails(targets: Seq<AnyLinkableHash>, i: int)
    requires
        0 <= i < targets.len(),
        !(targets[i] is Action),
    ensures
        all_action_hashes(targets) == Err::<Seq<ActionHash>, GatherError>(
            GatherError::MalformedData(Malformed::NoActionHash),
        ),
    decreases targets.len(),
{
    if i < targets.len() - 1 {
        lemma_all_action_hashes_fails(targets.drop_last(), i);
    }
}

/// The cancellations of an event that a fetch still finds, each once, as
/// records. Refused where an edge from the event names no commit.
pub fn get_cancellations_for_event<'a>(store: &'a Store, event_hash: ActionHash) -> (r: Result<
    Vec<&'a Record>,
    GatherError,
>)
    requires
        store.wf(),
    ensures
        match (
            r,
            all_action_hashes(
                distinct_targets(
                    live_links(
                        store@.log,
                        event_hash.linkable(),
                        LinkTypes::EventToCancellations.scoped_spec(),
                    ),
                ),
            ),
        ) {
            (Ok(records), Ok(hashes)) => records_at(store@.log, found(store@.log, hashes), records@),
            (Err(e), Err(f)) => e == f,
            _ => false,
        },
{
    let targets = query(store, event_hash.into_linkable(), LinkTypes::EventToCancellations);
    match only_actions(&targets) {
        Ok(hashes) => Ok(found_records(store, &hashes)),
        Err(e) => Err(e),
    }
}

} // verus!
