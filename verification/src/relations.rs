//! Relations between records and participants: an edge of a given type
//! from one to the other, any number of them side by side.
//!
//! An edge is withdrawn instance by instance: the live edges of the type are
//! listed, and each one that leads to the target is tombstoned. To withdraw
//! what is not there changes nothing. What is reached is listed as a set:
//! each target once, however many edges lead to it.

use vstd::prelude::*;
use crate::effects::{
    extends, lemma_reaches, lemma_reaches_after_link, lemma_same_entries_after_link, reaches,
    same_entries,
};
use crate::global_collections::remove_links_to;
use crate::hash::{ActionHash, AgentPubKey, AnyLinkableHash};
use crate::integrity::LinkTypes;
use crate::links::{
    action_hashes, action_targets, agent_pub_keys, agent_targets, distinct_targets, members,
};
use crate::log::{lemma_take_step, live_links, record_of};
use crate::record::{LinkTag, Record, ScopedLinkType};
use crate::store::Store;

verus! {

/// Commits an edge of type `link_type` from `a` to `b`: `b` is then reached
/// from `a`, and whatever else was reached still is.
pub fn link(store: &mut Store, a: AnyLinkableHash, b: AnyLinkableHash, link_type: LinkTypes) -> (h: ActionHash)
    requires
        old(store).wf(),
    ensures
        final(store).wf(),
        final(store)@ == old(store)@.with_link(a, b, link_type.scoped_spec(), LinkTag::Unit),
        h == ActionHash(old(store)@.log.len() as u64),
        extends(old(store)@.log, final(store)@.log),
        same_entries(old(store)@.log, final(store)@.log),
        final(store)@.same_setting(old(store)@),
        forall|base: AnyLinkableHash, t: ScopedLinkType, x: AnyLinkableHash| #[trigger]
            reaches(final(store)@.log, base, t, x) <==> (reaches(old(store)@.log, base, t, x) || (
            base == a && t == link_type.scoped_spec() && x == b)),
{
    let ghost before = store@;
    let h = store.create_link(a, b, link_type.scoped(), LinkTag::Unit);
    let n = store.len();
    proof {
        lemma_same_entries_after_link(before, a, b, link_type.scoped_spec(), LinkTag::Unit);
        assert forall|base: AnyLinkableHash, t: ScopedLinkType, x: AnyLinkableHash| #[trigger]
            reaches(store@.log, base, t, x) <==> (reaches(before.log, base, t, x) || (base == a
                && t == link_type.scoped_spec() && x == b)) by {
            lemma_reaches_after_link(
                before,
                a,
                b,
                link_type.scoped_spec(),
                LinkTag::Unit,
                base,
                t,
                x,
            );
        }
    }
    h
}

/// Withdraws every live edge of type `link_type` from `a` to `b`: `b` is
/// then no longer reached from `a`, and whatever else was reached still is.
/// Where no such edge is live the store stays as it is.
pub fn unlink(store: &mut Store, a: AnyLinkableHash, b: AnyLinkableHash, link_type: LinkTypes)
    requires
        old(store).wf(),
    ensures
        final(store).wf(),
        final(store)@ == old(store)@.without_links_to(a, link_type.scoped_spec(), b),
        extends(old(store)@.log, final(store)@.log),
        same_entries(old(store)@.log, final(store)@.log),
        final(store)@.same_setting(old(store)@),
        forall|base: AnyLinkableHash, t: ScopedLinkType, x: AnyLinkableHash| #[trigger]
            reaches(final(store)@.log, base, t, x) <==> (reaches(old(store)@.log, base, t, x)
                && !(base == a && t == link_type.scoped_spec() && x == b)),
{
    remove_links_to(store, a, link_type.scoped(), b);
}

/// What is reached from `a` by live edges of type `link_type`: each target
/// once, in the order in which it was first linked.
pub fn query(store: &Store, a: AnyLinkableHash, link_type: LinkTypes) -> (r: Vec<AnyLinkableHash>)
    requires
        store.wf(),
    ensures
        r@ == distinct_targets(live_links(store@.log, a, link_type.scoped_spec())),
        r@.no_duplicates(),
        forall|x: AnyLinkableHash| #[trigger]
            r@.contains(x) <==> reaches(store@.log, a, link_type.scoped_spec(), x),
{
    let links = store.get_links(a, link_type.scoped());
    let out = members(&links);
    proof {
        assert forall|x: AnyLinkableHash| #[trigger]
            out@.contains(x) <==> reaches(store@.log, a, link_type.scoped_spec(), x) by {
            lemma_reaches(store@.log, a, link_type.scoped_spec(), x);
        }
    }
    out
}

/// The commits that are reached from `a` by live edges of type `link_type`,
/// each once.
pub fn query_actions(store: &Store, a: AnyLinkableHash, link_type: LinkTypes) -> (r: Vec<ActionHash>)
    requires
        store.wf(),
    ensures
        r@ == reached_actions(store@.log, a, link_type.scoped_spec()),
        r@.no_duplicates(),
        forall|h: ActionHash| #[trigger]
            r@.contains(h) <==> reaches(store@.log, a, link_type.scoped_spec(), h.linkable()),
{
    let targets = query(store, a, link_type);
    action_targets(&targets)
}

/// The participants that are reached from `a` by live edges of type
/// `link_type`, each once.
pub fn query_agents(store: &Store, a: AnyLinkableHash, link_type: LinkTypes) -> (r: Vec<AgentPubKey>)
    requires
        store.wf(),
    ensures
        r@ == reached_agents(store@.log, a, link_type.scoped_spec()),
        r@.no_duplicates(),
        forall|k: AgentPubKey| #[trigger]
            r@.contains(k) <==> reaches(store@.log, a, link_type.scoped_spec(), k.linkable()),
{
    let targets = query(store, a, link_type);
    agent_targets(&targets)
}

/// Those of `hashes` that a fetch finds: the commits that the log holds and
/// that are not tombstoned, in order.
pub open spec fn found(log: Seq<Record>, hashes: Seq<ActionHash>) -> Seq<ActionHash>
    decreases hashes.len(),
{
    if hashes.len() == 0 {
        Seq::empty()
    } else {
        let prev = found(log, hashes.drop_last());
        if record_of(log, hashes.last()) is Some {
            prev.push(hashes.last())
        } else {
            prev
        }
    }
}

/// The commits that are reached from `a` by live edges of type
/// `link_type`, each once, in the order in which they were first linked.
pub open spec fn reached_actions(log: Seq<Record>, a: AnyLinkableHash, link_type: ScopedLinkType) -> Seq<
    ActionHash,
> {
    action_hashes(distinct_targets(live_links(log, a, link_type)))
}

/// The participants that are reached from `a` by live edges of type
/// `link_type`, each once, in the order in which they were first linked.
pub open spec fn reached_agents(log: Seq<Record>, a: AnyLinkableHash, link_type: ScopedLinkType) -> Seq<
    AgentPubKey,
> {
    agent_pub_keys(distinct_targets(live_links(log, a, link_type)))
}

/// The commits that are reached from `a` by live edges of type `link_type`
/// and that a fetch finds.
pub open spec fn found_actions(log: Seq<Record>, a: AnyLinkableHash, link_type: ScopedLinkType) -> Seq<
    ActionHash,
> {
    found(log, reached_actions(log, a, link_type))
}

/// Whether `records` are the records at `hashes`, in order.
pub open spec fn records_at(log: Seq<Record>, hashes: Seq<ActionHash>, records: Seq<&Record>) -> bool {
    &&& records.len() == hashes.len()
    &&& forall|k: int|
        0 <= k < records.len() ==> (#[trigger] hashes[k]).0 < log.len() && *records[k]
            == log[hashes[k].0 as int]
}

/// The records that a fetch of each of `hashes` finds, in order.
pub fn found_records<'a>(store: &'a Store, hashes: &Vec<ActionHash>) -> (r: Vec<&'a Record>)
    ensures
        records_at(store@.log, found(store@.log, hashes@), r@),
{
    let mut out: Vec<&'a Record> = Vec::new();
    let ghost mut seen: Seq<ActionHash> = Seq::empty();
    let mut i: usize = 0;
    while i < hashes.len()
        invariant
            i <= hashes@.len(),
            seen == found(store@.log, hashes@.take(i as int)),
            out@.len() == seen.len(),
            forall|k: int|
                0 <= k < out@.len() ==> {
                    &&& (#[trigger] seen[k]).0 < store@.log.len()
                    &&& *out@[k] == store@.log[seen[k].0 as int]
                },
        decreases hashes@.len() - i,
    {
        proof {
            lemma_take_step(hashes@, i as int);
        }
        let ghost before = out@;
        match store.get(hashes[i]) {
            Some(record) => {
                out.push(record);
                proof {
                    let next = seen.push(hashes@[i as int]);
                    assert forall|k: int| 0 <= k < out@.len() implies {
                        &&& (#[trigger] next[k]).0 < store@.log.len()
                        &&& *out@[k] == store@.log[next[k].0 as int]
                    } by {
                        if k < seen.len() {
                            assert(next[k] == seen[k]);
                            assert(out@[k] == before[k]);
                        }
                    }
                    seen = next;
                }
            },
            None => {},
        }
        i = i + 1;
    }
    proof {
        assert(hashes@.take(i as int) =~= hashes@);
    }
    out
}

/// Those of `hashes` that a fetch finds, in order.
pub fn found_hashes(store: &Store, hashes: &Vec<ActionHash>) -> (r: Vec<ActionHash>)
    ensures
        r@ == found(store@.log, hashes@),
{
    let mut out: Vec<ActionHash> = Vec::new();
    let mut i: usize = 0;
    while i < hashes.len()
        invariant
            i <= hashes@.len(),
            out@ == found(store@.log, hashes@.take(i as int)),
        decreases hashes@.len() - i,
    {
        proof {
            lemma_take_step(hashes@, i as int);
        }
        match store.get(hashes[i]) {
            Some(record) => {
                out.push(hashes[i]);
            },
            None => {},
        }
        i = i + 1;
    }
    proof {
        assert(hashes@.take(i as int) =~= hashes@);
    }
    out
}

} // verus!
