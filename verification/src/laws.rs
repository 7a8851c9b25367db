//! What holds of the engine whatever the store holds.

use vstd::prelude::*;
use crate::effects::{
    extends, lemma_reaches_after_link, lemma_reaches_after_removal, lemma_removal_instances,
    reaches,
};
use crate::error::GatherError;
use crate::global_collections::{
    anchor_among, assigned, family, holds, in_family_of, left, lemma_in_family, moved,
    same_family, Path,
};
use crate::hash::{ActionHash, AnyLinkableHash};
use crate::integrity::LinkTypes;
use crate::links::{at_least_as_new, instances_to, lemma_newest, lemma_newest_of_increasing, newest};
use crate::log::{deletes_of, lemma_updates_of, live_links, updates_of, wf_log};
use crate::record::{LinkTag, Record, ScopedLinkType};
use crate::revisions::{
    is_revision_of, latest_in_chain, lemma_revisions_of, resolve, revision_named, revisions_of,
    stored, supersedes,
};
use crate::store::StoreView;

verus! {

/// A record that was never superseded nor tombstoned is its own current
/// revision, by either way of finding it.
pub proof fn law_untouched_record_is_current(log: Seq<Record>, h: ActionHash)
    requires
        h.0 < log.len(),
        deletes_of(log, h).len() == 0,
    ensures
        live_links(log, h.linkable(), LinkTypes::Updates.scoped_spec()).len() == 0 ==> resolve(
            log,
            h,
        ) == Ok::<Option<Record>, GatherError>(Some(log[h.0 as int])),
        updates_of(log, h).len() == 0 ==> latest_in_chain(log, h) == Ok::<
            Option<Record>,
            GatherError,
        >(Some(log[h.0 as int])),
{
}

/// A tombstoned record has no current revision, however often it was
/// superseded, by either way of finding it.
pub proof fn law_deleted_record_is_gone(log: Seq<Record>, h: ActionHash)
    requires
        h.0 < log.len(),
        deletes_of(log, h).len() > 0,
    ensures
        resolve(log, h) == Ok::<Option<Record>, GatherError>(None),
        latest_in_chain(log, h) == Ok::<Option<Record>, GatherError>(None),
{
}

/// The current revision by the newest edge is the record that an edge names
/// to which no other edge is newer. Where the timestamps grow strictly from
/// each edge to the next, it is the record that the last edge names: the
/// one with the greatest timestamp.
pub proof fn law_newest_revision_wins(log: Seq<Record>, original: ActionHash)
    requires
        deletes_of(log, original).len() == 0,
        live_links(log, original.linkable(), LinkTypes::Updates.scoped_spec()).len() > 0,
    ensures
        ({
            let links = live_links(log, original.linkable(), LinkTypes::Updates.scoped_spec());
            &&& newest(links) matches Some(m) && links.contains(m) && (forall|k: int|
                0 <= k < links.len() ==> at_least_as_new(m, #[trigger] links[k])) && resolve(
                log,
                original,
            ) == (match revision_named(original, Some(m)) {
                Ok(h) => Ok::<Option<Record>, GatherError>(stored(log, h)),
                Err(e) => Err(e),
            })
            &&& (forall|a: int, b: int|
                0 <= a < b < links.len() ==> (#[trigger] links[a]).timestamp.0 < (
                #[trigger] links[b]).timestamp.0) ==> newest(links) == Some(links.last())
        }),
{
    let links = live_links(log, original.linkable(), LinkTypes::Updates.scoped_spec());
    lemma_newest(links);
    if forall|a: int, b: int|
        0 <= a < b < links.len() ==> (#[trigger] links[a]).timestamp.0 < (
        #[trigger] links[b]).timestamp.0 {
        lemma_newest_of_increasing(links);
    }
}

/// A revision chain has no cycles: each commit that supersedes another one
/// comes after it.
pub proof fn law_revisions_come_later(log: Seq<Record>, h: ActionHash)
    requires
        wf_log(log),
    ensures
        forall|k: int|
            0 <= k < updates_of(log, h).len() ==> h.0 < (#[trigger] updates_of(log, h)[k]).0
                < log.len(),
{
    lemma_updates_of(log, h);
}

/// The listing of all revisions of a record holds exactly the revisions of
/// the record, each once: the record first, and each other revision behind
/// the one that it supersedes.
pub proof fn law_revisions_listed(log: Seq<Record>, h: ActionHash)
    requires
        wf_log(log),
        h.0 < log.len(),
    ensures
        forall|x: ActionHash| #[trigger]
            revisions_of(log, h).contains(x) <==> is_revision_of(log, h, x),
        revisions_of(log, h).no_duplicates(),
        revisions_of(log, h).len() > 0 && revisions_of(log, h)[0] == h,
        forall|i: int|
            0 < i < revisions_of(log, h).len() ==> exists|j: int|
                0 <= j < i && supersedes(log, #[trigger] revisions_of(log, h)[i]) == Some(
                    #[trigger] revisions_of(log, h)[j],
                ),
{
    let listing = revisions_of(log, h);
    lemma_revisions_of(log, h);
    assert forall|i: int| 0 < i < listing.len() implies exists|j: int|
        0 <= j < i && supersedes(log, #[trigger] listing[i]) == Some(#[trigger] listing[j]) by {
        if seq![h].contains(listing[i]) {
            let z = choose|z: int| 0 <= z < seq![h].len() && seq![h][z] == listing[i];
            assert(listing[i] == listing[0]);
        }
    }
}

/// Tombstones make the log longer by one commit each.
pub proof fn lemma_tombstones_len(s: StoreView, instances: Seq<ActionHash>)
    ensures
        s.with_link_tombstones(instances).log.len() == s.log.len() + instances.len(),
    decreases instances.len(),
{
    if instances.len() > 0 {
        lemma_tombstones_len(s, instances.drop_last());
    }
}

/// Leaving anchors makes the log no shorter.
pub proof fn lemma_left_len(s: StoreView, record: ActionHash, paths: Seq<Path>, n: nat, m: nat)
    requires
        m <= n,
    ensures
        left(s, record, paths, m).log.len() <= left(s, record, paths, n).log.len(),
    decreases n,
{
    if m < n {
        lemma_left_len(s, record, paths, (n - 1) as nat, m);
        let mid = left(s, record, paths, (n - 1) as nat);
        let p = paths[n - 1];
        lemma_tombstones_len(
            mid,
            instances_to(
                live_links(mid.log, p.base(), p.membership().scoped_spec()),
                record.linkable(),
            ),
        );
    }
}

/// After a record has left the first `n` of `paths`, none of them holds it,
/// and whatever else was reached from anywhere still is.
pub proof fn lemma_left(s: StoreView, record: ActionHash, paths: Seq<Path>, n: nat)
    requires
        wf_log(s.log),
        n <= paths.len(),
        left(s, record, paths, n).log.len() <= u64::MAX,
    ensures
        wf_log(left(s, record, paths, n).log),
        extends(s.log, left(s, record, paths, n).log),
        left(s, record, paths, n).same_setting(s),
        forall|b: AnyLinkableHash, t: ScopedLinkType, x: AnyLinkableHash| #[trigger]
            reaches(left(s, record, paths, n).log, b, t, x) <==> (reaches(s.log, b, t, x) && !(x
                == record.linkable() && anchor_among(paths, n as int, b, t))),
    decreases n,
{
    if n == 0 {
        assert forall|b: AnyLinkableHash, t: ScopedLinkType, x: AnyLinkableHash| #[trigger]
            reaches(left(s, record, paths, n).log, b, t, x) <==> (reaches(s.log, b, t, x) && !(x
                == record.linkable() && anchor_among(paths, n as int, b, t))) by {}
    } else {
        let mid = left(s, record, paths, (n - 1) as nat);
        let p = paths[n - 1];
        let after = left(s, record, paths, n);
        let instances = instances_to(
            live_links(mid.log, p.base(), p.membership().scoped_spec()),
            record.linkable(),
        );
        lemma_tombstones_len(mid, instances);
        lemma_left(s, record, paths, (n - 1) as nat);
        lemma_removal_instances(mid, p.base(), p.membership().scoped_spec(), record.linkable());
        crate::effects::lemma_tombstones(mid, instances);
        assert forall|b: AnyLinkableHash, t: ScopedLinkType, x: AnyLinkableHash| #[trigger]
            reaches(after.log, b, t, x) <==> (reaches(s.log, b, t, x) && !(x == record.linkable()
                && anchor_among(paths, n as int, b, t))) by {
            lemma_reaches_after_removal(
                mid,
                p.base(),
                p.membership().scoped_spec(),
                record.linkable(),
                b,
                t,
                x,
            );
            if anchor_among(paths, n - 1, b, t) {
                let k = choose|k: int|
                    0 <= k < n - 1 && k < paths.len() && (#[trigger] paths[k]).base() == b
                        && paths[k].membership().scoped_spec() == t;
                assert(0 <= k < n && paths[k].base() == b);
            }
            if b == p.base() && t == p.membership().scoped_spec() {
                assert(paths[n - 1].base() == b);
                assert(anchor_among(paths, n as int, b, t));
            }
            if anchor_among(paths, n as int, b, t) {
                let k = choose|k: int|
                    0 <= k < n && k < paths.len() && (#[trigger] paths[k]).base() == b
                        && paths[k].membership().scoped_spec() == t;
                if k < n - 1 {
                    assert(anchor_among(paths, n - 1, b, t));
                }
            }
        }
        assert forall|k: int| 0 <= k < s.log.len() implies #[trigger] after.log[k]
            == s.log[k] by {
            assert(mid.log[k] == s.log[k]);
        }
    }
}

/// After a record has entered a collection, of the anchors of the
/// collection's family that one alone holds the record, and whatever else
/// was reached from anywhere, and nothing more, still is.
pub proof fn law_assign(s: StoreView, record: ActionHash, target: Path)
    requires
        wf_log(s.log),
        assigned(s, record, target).log.len() <= u64::MAX,
    ensures
        wf_log(assigned(s, record, target).log),
        extends(s.log, assigned(s, record, target).log),
        moved(s.log, assigned(s, record, target).log, record, target),
{
    let paths = family(target);
    let mid = left(s, record, paths, paths.len());
    let after = assigned(s, record, target);
    lemma_left(s, record, paths, paths.len());
    assert forall|b: AnyLinkableHash, t: ScopedLinkType, x: AnyLinkableHash|
        !(x == record.linkable() && in_family_of(target, b, t)) implies (#[trigger] reaches(
        after.log,
        b,
        t,
        x,
    ) <==> reaches(s.log, b, t, x)) by {
        lemma_reaches_after_link(
            mid,
            target.base(),
            record.linkable(),
            target.membership().scoped_spec(),
            LinkTag::Unit,
            b,
            t,
            x,
        );
        lemma_in_family(target, b, t);
        lemma_in_family(target, target.base(), target.membership().scoped_spec());
    }
    assert forall|p: Path| same_family(p, target) implies (#[trigger] holds(after.log, p, record)
        <==> p == target) by {
        lemma_reaches_after_link(
            mid,
            target.base(),
            record.linkable(),
            target.membership().scoped_spec(),
            LinkTag::Unit,
            p.base(),
            p.membership().scoped_spec(),
            record.linkable(),
        );
        lemma_in_family(target, p.base(), p.membership().scoped_spec());
    }
    lemma_reaches_after_link(
        mid,
        target.base(),
        record.linkable(),
        target.membership().scoped_spec(),
        LinkTag::Unit,
        target.base(),
        target.membership().scoped_spec(),
        record.linkable(),
    );
    assert forall|k: int| 0 <= k < s.log.len() implies #[trigger] after.log[k] == s.log[k] by {
        assert(mid.log[k] == s.log[k]);
    }
}

/// A record that enters one collection and then another of the same family
/// is in the second and no longer in the first.
pub proof fn law_assign_twice(s: StoreView, record: ActionHash, a: Path, b: Path)
    requires
        wf_log(s.log),
        a != b,
        same_family(a, b),
        assigned(assigned(s, record, a), record, b).log.len() <= u64::MAX,
    ensures
        !holds(assigned(assigned(s, record, a), record, b).log, a, record),
        holds(assigned(assigned(s, record, a), record, b).log, b, record),
{
    let first = assigned(s, record, a);
    let paths = family(b);
    lemma_left_len(first, record, paths, paths.len(), 0);
    law_assign(s, record, a);
    law_assign(first, record, b);
}

/// Once an edge from `a` to `b` was committed and the edges from `a` to `b`
/// were withdrawn, `b` is not reached from `a`; and to withdraw them once
/// more changes nothing.
pub proof fn law_unlink_after_link(
    s: StoreView,
    a: AnyLinkableHash,
    b: AnyLinkableHash,
    link_type: ScopedLinkType,
    tag: LinkTag,
)
    requires
        wf_log(s.log),
        s.with_link(a, b, link_type, tag).without_links_to(a, link_type, b).log.len() <= u64::MAX,
    ensures
        reaches(s.with_link(a, b, link_type, tag).log, a, link_type, b),
        !reaches(
            s.with_link(a, b, link_type, tag).without_links_to(a, link_type, b).log,
            a,
            link_type,
            b,
        ),
        s.with_link(a, b, link_type, tag).without_links_to(a, link_type, b).without_links_to(
            a,
            link_type,
            b,
        ) == s.with_link(a, b, link_type, tag).without_links_to(a, link_type, b),
{
    let linked = s.with_link(a, b, link_type, tag);
    let unlinked = linked.without_links_to(a, link_type, b);
    lemma_tombstones_len(linked, instances_to(live_links(linked.log, a, link_type), b));
    lemma_reaches_after_link(s, a, b, link_type, tag, a, link_type, b);
    lemma_reaches_after_removal(linked, a, link_type, b, a, link_type, b);
    law_unlink_of_nothing(unlinked, a, b, link_type);
}

/// To withdraw the edges from `a` to `b` where `b` is not reached from `a`
/// changes nothing.
pub proof fn law_unlink_of_nothing(
    s: StoreView,
    a: AnyLinkableHash,
    b: AnyLinkableHash,
    link_type: ScopedLinkType,
)
    requires
        wf_log(s.log),
        !reaches(s.log, a, link_type, b),
    ensures
        s.without_links_to(a, link_type, b) == s,
{
    let instances = instances_to(live_links(s.log, a, link_type), b);
    lemma_removal_instances(s, a, link_type, b);
    if instances.len() > 0 {
        let h = instances[0];
        assert(instances.contains(h));
        assert(crate::effects::live_at(s.log, h.0 as int, a, link_type));
    }
}

} // verus!
