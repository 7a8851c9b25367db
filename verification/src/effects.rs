//! What a commit changes in what can be read off the store, and what it
//! leaves as it was.

use vstd::prelude::*;
use crate::hash::{ActionHash, AnyLinkableHash};
use crate::integrity::EntryTypes;
use crate::links::{instances_to, lemma_instances_to};
use crate::log::{deletes_of, is_link_commit, is_link_delete_of, is_link_from, is_live, lemma_live_links, lemma_push_drop_last, link_at, live_links, next_record, tombstoned, updates_of, wf_action, wf_log, wf_record};
use crate::record::{Action, DeleteLink, LinkTag, Record, ScopedLinkType};
use crate::store::StoreView;

verus! {

/// Whether the commit at position `i` of `log` created an edge of type
/// `link_type` from `base` that no commit has withdrawn.
pub open spec fn live_at(log: Seq<Record>, i: int, base: AnyLinkableHash, link_type: ScopedLinkType) -> bool {
    0 <= i < log.len() && is_link_from(log[i], base, link_type) && !tombstoned(
        log,
        ActionHash(i as u64),
    )
}

/// Where the edge that the commit at position `i` created points to.
pub open spec fn target_at(log: Seq<Record>, i: int) -> AnyLinkableHash {
    log[i].signed_action.action->CreateLink_0.target_address
}

/// Whether a live edge of type `link_type` leads from `base` to `target`.
pub open spec fn reaches(
    log: Seq<Record>,
    base: AnyLinkableHash,
    link_type: ScopedLinkType,
    target: AnyLinkableHash,
) -> bool {
    exists|i: int| #[trigger] live_at(log, i, base, link_type) && target_at(log, i) == target
}

/// Whether `longer` is `shorter` with more commits behind it.
pub open spec fn extends(shorter: Seq<Record>, longer: Seq<Record>) -> bool {
    &&& shorter.len() <= longer.len()
    &&& forall|k: int| 0 <= k < shorter.len() ==> #[trigger] longer[k] == shorter[k]
}

/// A target is reached exactly when one of the live edges, as the store
/// lists them, points to it.
pub proof fn lemma_reaches(
    log: Seq<Record>,
    base: AnyLinkableHash,
    link_type: ScopedLinkType,
    target: AnyLinkableHash,
)
    requires
        wf_log(log),
    ensures
        reaches(log, base, link_type, target) <==> exists|k: int|
            0 <= k < live_links(log, base, link_type).len() && (#[trigger] live_links(
                log,
                base,
                link_type,
            )[k]).target == target,
{
    let links = live_links(log, base, link_type);
    lemma_live_links(log, base, link_type);
    if reaches(log, base, link_type, target) {
        let i = choose|i: int| #[trigger]
            live_at(log, i, base, link_type) && target_at(log, i) == target;
        assert(wf_record(log, i));
        let l = link_at(log[i]);
        assert(is_live(log, base, link_type, l));
        assert(links.contains(l));
        let k = choose|k: int| 0 <= k < links.len() && links[k] == l;
        assert(links[k].target == target);
    }
    if exists|k: int| 0 <= k < links.len() && (#[trigger] links[k]).target == target {
        let k = choose|k: int| 0 <= k < links.len() && (#[trigger] links[k]).target == target;
        assert(links.contains(links[k]));
        assert(is_live(log, base, link_type, links[k]));
        let i = links[k].create_link_hash.0 as int;
        assert(live_at(log, i, base, link_type));
    }
}

/// One more commit leaves the earlier commits as they were, and the log one
/// that the store can hold.
pub proof fn lemma_commit(s: StoreView, action: Action, entry: Option<EntryTypes>)
    requires
        wf_log(s.log),
        s.log.len() < u64::MAX,
        wf_action(s.log, s.log.len() as int, action, entry),
    ensures
        wf_log(s.with_commit(action, entry).log),
        extends(s.log, s.with_commit(action, entry).log),
        s.with_commit(action, entry).log.len() == s.log.len() + 1,
        s.with_commit(action, entry).log.last() == next_record(s.log, action, entry),
{
    let after = s.with_commit(action, entry).log;
    assert forall|i: int| 0 <= i < after.len() implies #[trigger] wf_record(after, i) by {
        if i < s.log.len() {
            assert(wf_record(s.log, i));
            assert(after[i] == s.log[i]);
        }
    }
}

/// A commit that is no tombstone of an edge and creates no edge leaves every
/// edge as it was.
pub proof fn lemma_reaches_after_entry_commit(
    s: StoreView,
    action: Action,
    entry: Option<EntryTypes>,
    base: AnyLinkableHash,
    link_type: ScopedLinkType,
    target: AnyLinkableHash,
)
    requires
        wf_log(s.log),
        !(action is CreateLink),
        !(action is DeleteLink),
    ensures
        reaches(s.with_commit(action, entry).log, base, link_type, target) <==> reaches(
            s.log,
            base,
            link_type,
            target,
        ),
{
    let before = s.log;
    let after = s.with_commit(action, entry).log;
    let n = before.len() as int;
    assert forall|i: int| live_at(after, i, base, link_type) <==> live_at(
        before,
        i,
        base,
        link_type,
    ) by {
        lemma_tombstoned_after_commit(s, action, entry, ActionHash(i as u64));
        if 0 <= i < n {
            assert(after[i] == before[i]);
        }
    }
    if reaches(after, base, link_type, target) {
        let i = choose|i: int| #[trigger]
            live_at(after, i, base, link_type) && target_at(after, i) == target;
        assert(live_at(before, i, base, link_type));
        assert(after[i] == before[i]);
    }
    if reaches(before, base, link_type, target) {
        let i = choose|i: int| #[trigger]
            live_at(before, i, base, link_type) && target_at(before, i) == target;
        assert(live_at(after, i, base, link_type));
        assert(after[i] == before[i]);
    }
}

/// After one more commit an edge instance is withdrawn exactly when it was
/// before, or when the commit is its tombstone.
pub proof fn lemma_tombstoned_after_commit(
    s: StoreView,
    action: Action,
    entry: Option<EntryTypes>,
    h: ActionHash,
)
    ensures
        tombstoned(s.with_commit(action, entry).log, h) <==> (tombstoned(s.log, h) || (
        action matches Action::DeleteLink(d) && d.link_add_address == h)),
{
    let before = s.log;
    let after = s.with_commit(action, entry).log;
    let n = before.len() as int;
    if tombstoned(before, h) {
        let j = choose|j: int| 0 <= j < before.len() && is_link_delete_of(#[trigger] before[j], h);
        assert(is_link_delete_of(after[j], h));
    }
    if action matches Action::DeleteLink(d) && d.link_add_address == h {
        assert(is_link_delete_of(after[n], h));
    }
    if tombstoned(after, h) {
        let j = choose|j: int| 0 <= j < after.len() && is_link_delete_of(#[trigger] after[j], h);
        if j < n {
            assert(is_link_delete_of(before[j], h));
        }
    }
}

/// After the commit of an edge, a target is reached exactly when it was
/// before, or when the new edge leads to it.
pub proof fn lemma_reaches_after_link(
    s: StoreView,
    base: AnyLinkableHash,
    target: AnyLinkableHash,
    link_type: ScopedLinkType,
    tag: LinkTag,
    b: AnyLinkableHash,
    t: ScopedLinkType,
    x: AnyLinkableHash,
)
    requires
        wf_log(s.log),
        s.log.len() < u64::MAX,
    ensures
        wf_log(s.with_link(base, target, link_type, tag).log),
        reaches(s.with_link(base, target, link_type, tag).log, b, t, x) <==> (reaches(
            s.log,
            b,
            t,
            x,
        ) || (b == base && t == link_type && x == target)),
{
    let before = s.log;
    let s2 = s.with_link(base, target, link_type, tag);
    let after = s2.log;
    let n = before.len() as int;
    let action = after[n].signed_action.action;
    lemma_commit(s, action, None);
    assert forall|i: int| 0 <= i < n implies (live_at(after, i, b, t) <==> live_at(
        before,
        i,
        b,
        t,
    )) by {
        lemma_tombstoned_after_commit(s, action, None, ActionHash(i as u64));
        assert(after[i] == before[i]);
    }
    if reaches(before, b, t, x) {
        let i = choose|i: int| #[trigger] live_at(before, i, b, t) && target_at(before, i) == x;
        assert(live_at(after, i, b, t));
        assert(after[i] == before[i]);
    }
    if b == base && t == link_type && x == target {
        lemma_tombstoned_after_commit(s, action, None, ActionHash(n as u64));
        if tombstoned(before, ActionHash(n as u64)) {
            let j = choose|j: int|
                0 <= j < before.len() && is_link_delete_of(
                    #[trigger] before[j],
                    ActionHash(n as u64),
                );
            assert(wf_record(before, j));
        }
        assert(live_at(after, n, b, t));
    }
    if reaches(after, b, t, x) {
        let i = choose|i: int| #[trigger] live_at(after, i, b, t) && target_at(after, i) == x;
        if i < n {
            assert(live_at(before, i, b, t));
            assert(after[i] == before[i]);
        }
    }
}

/// The tombstone that follows `log` for the edge instance that `h` created.
pub open spec fn tombstone_record(s: StoreView, at: int, h: ActionHash) -> Record {
    Record {
        signed_action: crate::record::SignedActionHashed {
            hash: ActionHash(at as u64),
            action: Action::DeleteLink(
                DeleteLink {
                    author: s.agent,
                    timestamp: s.now,
                    base_address: s.log[h.0 as int].signed_action.action->CreateLink_0.base_address,
                    link_add_address: h,
                },
            ),
        },
        entry: None,
    }
}

/// Tombstones for edge instances follow the log one by one: the earlier
/// commits stay, and the log stays one that the store can hold.
pub proof fn lemma_tombstones(s: StoreView, instances: Seq<ActionHash>)
    requires
        wf_log(s.log),
        s.log.len() + instances.len() <= u64::MAX,
        forall|k: int| 0 <= k < instances.len() ==> is_link_commit(s.log, #[trigger] instances[k]),
    ensures
        wf_log(s.with_link_tombstones(instances).log),
        extends(s.log, s.with_link_tombstones(instances).log),
        s.with_link_tombstones(instances).log.len() == s.log.len() + instances.len(),
        s.with_link_tombstones(instances).agent == s.agent,
        s.with_link_tombstones(instances).now == s.now,
        s.with_link_tombstones(instances).dna == s.dna,
        forall|k: int|
            0 <= k < instances.len() ==> #[trigger] s.with_link_tombstones(instances).log[s.log.len()
                + k] == tombstone_record(s, s.log.len() + k, instances[k]),
    decreases instances.len(),
{
    if instances.len() > 0 {
        let dl = instances.drop_last();
        let h = instances.last();
        assert forall|k: int| 0 <= k < dl.len() implies is_link_commit(s.log, #[trigger] dl[k]) by {
            assert(dl[k] == instances[k]);
        }
        lemma_tombstones(s, dl);
        let mid = s.with_link_tombstones(dl);
        let after = s.with_link_tombstones(instances);
        assert(after == mid.with_link_tombstone(h));
        assert(instances[instances.len() - 1] == h);
        assert(is_link_commit(s.log, h));
        assert(mid.log[h.0 as int] == s.log[h.0 as int]);
        let action = after.log[mid.log.len() as int].signed_action.action;
        lemma_commit(mid, action, None);
        assert forall|k: int| 0 <= k < s.log.len() implies #[trigger] after.log[k]
            == s.log[k] by {
            assert(mid.log[k] == s.log[k]);
        }
        assert forall|k: int| 0 <= k < instances.len() implies #[trigger] after.log[s.log.len()
            + k] == tombstone_record(s, s.log.len() + k, instances[k]) by {
            if k < dl.len() {
                assert(mid.log[s.log.len() + k] == tombstone_record(s, s.log.len() + k, dl[k]));
                assert(dl[k] == instances[k]);
            }
        }
    }
}

/// After tombstones for `instances`, an edge is live exactly when it was
/// before and is none of them.
pub proof fn lemma_live_after_tombstones(
    s: StoreView,
    instances: Seq<ActionHash>,
    b: AnyLinkableHash,
    t: ScopedLinkType,
    i: int,
)
    requires
        wf_log(s.log),
        s.log.len() + instances.len() <= u64::MAX,
        forall|k: int| 0 <= k < instances.len() ==> is_link_commit(s.log, #[trigger] instances[k]),
    ensures
        live_at(s.with_link_tombstones(instances).log, i, b, t) <==> (live_at(s.log, i, b, t)
            && !instances.contains(ActionHash(i as u64))),
{
    lemma_tombstones(s, instances);
    let before = s.log;
    let after = s.with_link_tombstones(instances).log;
    let n = before.len() as int;
    let h = ActionHash(i as u64);
    if 0 <= i < n {
        assert(after[i] == before[i]);
        if tombstoned(before, h) {
            let j = choose|j: int| 0 <= j < before.len() && is_link_delete_of(
                #[trigger] before[j],
                h,
            );
            assert(after[j] == before[j]);
            assert(is_link_delete_of(after[j], h));
        }
        if instances.contains(h) {
            let k = choose|k: int| 0 <= k < instances.len() && instances[k] == h;
            assert(after[n + k] == tombstone_record(s, n + k, instances[k]));
            assert(is_link_delete_of(after[n + k], h));
        }
        if tombstoned(after, h) {
            let j = choose|j: int| 0 <= j < after.len() && is_link_delete_of(
                #[trigger] after[j],
                h,
            );
            if j < n {
                assert(after[j] == before[j]);
                assert(is_link_delete_of(before[j], h));
            } else {
                assert(after[n + (j - n)] == tombstone_record(s, n + (j - n), instances[j - n]));
                assert(instances[j - n] == h);
            }
        }
    } else if n <= i < after.len() {
        assert(after[n + (i - n)] == tombstone_record(s, n + (i - n), instances[i - n]));
    }
}

/// After every live edge of type `link_type` from `base` to `target` was
/// tombstoned, that target is no longer reached from there; whatever else was
/// reached, from there or elsewhere, still is.
pub proof fn lemma_reaches_after_removal(
    s: StoreView,
    base: AnyLinkableHash,
    link_type: ScopedLinkType,
    target: AnyLinkableHash,
    b: AnyLinkableHash,
    t: ScopedLinkType,
    x: AnyLinkableHash,
)
    requires
        wf_log(s.log),
        s.log.len() + instances_to(live_links(s.log, base, link_type), target).len() <= u64::MAX,
    ensures
        wf_log(s.without_links_to(base, link_type, target).log),
        extends(s.log, s.without_links_to(base, link_type, target).log),
        s.without_links_to(base, link_type, target).log.len() <= 2 * s.log.len(),
        reaches(s.without_links_to(base, link_type, target).log, b, t, x) <==> (reaches(
            s.log,
            b,
            t,
            x,
        ) && !(b == base && t == link_type && x == target)),
{
    let links = live_links(s.log, base, link_type);
    let instances = instances_to(links, target);
    lemma_removal_instances(s, base, link_type, target);
    lemma_tombstones(s, instances);
    let before = s.log;
    let after = s.without_links_to(base, link_type, target).log;
    if reaches(after, b, t, x) {
        let i = choose|i: int| #[trigger] live_at(after, i, b, t) && target_at(after, i) == x;
        lemma_live_after_tombstones(s, instances, b, t, i);
        assert(after[i] == before[i]);
        assert(live_at(before, i, b, t));
        if b == base && t == link_type && x == target {
            assert(wf_record(before, i));
            assert(instances.contains(ActionHash(i as u64)));
        }
    }
    if reaches(before, b, t, x) && !(b == base && t == link_type && x == target) {
        let i = choose|i: int| #[trigger] live_at(before, i, b, t) && target_at(before, i) == x;
        lemma_live_after_tombstones(s, instances, b, t, i);
        assert(wf_record(before, i));
        if instances.contains(ActionHash(i as u64)) {
            assert(false);
        }
        assert(after[i] == before[i]);
        assert(live_at(after, i, b, t));
    }
}

/// The instances that a removal tombstones are exactly the live edges of the
/// given type from the base to the target; each is a commit of an edge.
pub proof fn lemma_removal_instances(
    s: StoreView,
    base: AnyLinkableHash,
    link_type: ScopedLinkType,
    target: AnyLinkableHash,
)
    requires
        wf_log(s.log),
    ensures
        forall|k: int|
            0 <= k < instances_to(live_links(s.log, base, link_type), target).len()
                ==> is_link_commit(
                s.log,
                #[trigger] instances_to(live_links(s.log, base, link_type), target)[k],
            ),
        forall|h: ActionHash| #[trigger]
            instances_to(live_links(s.log, base, link_type), target).contains(h) <==> (live_at(
                s.log,
                h.0 as int,
                base,
                link_type,
            ) && target_at(s.log, h.0 as int) == target),
        instances_to(live_links(s.log, base, link_type), target).len() <= s.log.len(),
{
    let links = live_links(s.log, base, link_type);
    let instances = instances_to(links, target);
    lemma_live_links(s.log, base, link_type);
    lemma_instances_to(links, target);
    lemma_live_links_len(s.log, base, link_type);
    assert forall|h: ActionHash| #[trigger]
        instances.contains(h) <==> (live_at(s.log, h.0 as int, base, link_type) && target_at(
            s.log,
            h.0 as int,
        ) == target) by {
        if instances.contains(h) {
            let k = choose|k: int|
                0 <= k < links.len() && (#[trigger] links[k]).target == target
                    && links[k].create_link_hash == h;
            assert(links.contains(links[k]));
            assert(is_live(s.log, base, link_type, links[k]));
        }
        if live_at(s.log, h.0 as int, base, link_type) && target_at(s.log, h.0 as int)
            == target {
            assert(wf_record(s.log, h.0 as int));
            let l = link_at(s.log[h.0 as int]);
            assert(is_live(s.log, base, link_type, l));
            assert(links.contains(l));
            let k = choose|k: int| 0 <= k < links.len() && links[k] == l;
            assert(links[k].target == target && links[k].create_link_hash == h);
        }
    }
    assert forall|k: int| 0 <= k < instances.len() implies is_link_commit(
        s.log,
        #[trigger] instances[k],
    ) by {
        assert(instances.contains(instances[k]));
    }
}

/// There are no more live edges than commits.
pub proof fn lemma_live_links_len(log: Seq<Record>, base: AnyLinkableHash, link_type: ScopedLinkType)
    ensures
        live_links(log, base, link_type).len() <= log.len(),
    decreases log.len(),
{
    if log.len() > 0 {
        lemma_live_links_len(log.drop_last(), base, link_type);
        crate::log::lemma_remove_instance(
            live_links(log.drop_last(), base, link_type),
            log.last().signed_action.action->DeleteLink_0.link_add_address,
        );
    }
}

/// What tombstones an entry commit and what supersedes it is the same after
/// one more commit, unless that commit does so.
pub proof fn lemma_entry_after_commit(
    s: StoreView,
    action: Action,
    entry: Option<EntryTypes>,
    h: ActionHash,
)
    ensures
        deletes_of(s.with_commit(action, entry).log, h) == (if action matches Action::Delete(d)
            && d.deletes_address == h {
            deletes_of(s.log, h).push(ActionHash(s.log.len() as u64))
        } else {
            deletes_of(s.log, h)
        }),
        updates_of(s.with_commit(action, entry).log, h) == (if action matches Action::Update(u)
            && u.original_action_address == h {
            updates_of(s.log, h).push(ActionHash(s.log.len() as u64))
        } else {
            updates_of(s.log, h)
        }),
{
    lemma_push_drop_last(s.log, next_record(s.log, action, entry));
}

/// Tombstones for edge instances leave what tombstones an entry commit and
/// what supersedes it as it was.
pub proof fn lemma_entry_after_tombstones(s: StoreView, instances: Seq<ActionHash>, h: ActionHash)
    ensures
        deletes_of(s.with_link_tombstones(instances).log, h) == deletes_of(s.log, h),
        updates_of(s.with_link_tombstones(instances).log, h) == updates_of(s.log, h),
    decreases instances.len(),
{
    if instances.len() > 0 {
        lemma_entry_after_tombstones(s, instances.drop_last(), h);
        let mid = s.with_link_tombstones(instances.drop_last());
        let after = mid.with_link_tombstone(instances.last());
        let action = after.log.last().signed_action.action;
        lemma_entry_after_commit(mid, action, None, h);
    }
}

/// No commit of the log tombstones or supersedes a commit that the log
/// does not hold yet.
pub proof fn lemma_fresh(log: Seq<Record>, h: ActionHash)
    requires
        wf_log(log),
        h.0 >= log.len(),
    ensures
        deletes_of(log, h).len() == 0,
        updates_of(log, h).len() == 0,
{
    crate::log::lemma_deletes_of(log, h);
    crate::log::lemma_updates_of(log, h);
    if crate::log::deleted(log, h) {
        let j = choose|j: int| 0 <= j < log.len() && crate::log::is_delete_of(#[trigger] log[j], h);
        assert(wf_record(log, j));
    }
    if updates_of(log, h).len() > 0 {
        let x = updates_of(log, h)[0];
        assert(updates_of(log, h).contains(x));
        assert(wf_record(log, x.0 as int));
    }
}

/// The removal of edges leaves what tombstones an entry commit and what
/// supersedes it as it was.
pub proof fn lemma_entry_after_removal(
    s: StoreView,
    base: AnyLinkableHash,
    link_type: ScopedLinkType,
    target: AnyLinkableHash,
    h: ActionHash,
)
    ensures
        deletes_of(s.without_links_to(base, link_type, target).log, h) == deletes_of(s.log, h),
        updates_of(s.without_links_to(base, link_type, target).log, h) == updates_of(s.log, h),
{
    lemma_entry_after_tombstones(s, instances_to(live_links(s.log, base, link_type), target), h);
}

/// Whether the commits that came after `before` left every entry as it
/// was: none of them tombstones or supersedes an entry commit.
pub open spec fn same_entries(before: Seq<Record>, after: Seq<Record>) -> bool {
    forall|h: ActionHash|
        #![trigger deletes_of(after, h)]
        #![trigger updates_of(after, h)]
        deletes_of(after, h) == deletes_of(before, h) && updates_of(after, h) == updates_of(
            before,
            h,
        )
}

/// The commit of an edge leaves every entry as it was.
pub proof fn lemma_same_entries_after_link(
    s: StoreView,
    base: AnyLinkableHash,
    target: AnyLinkableHash,
    link_type: ScopedLinkType,
    tag: LinkTag,
)
    ensures
        same_entries(s.log, s.with_link(base, target, link_type, tag).log),
{
    let after = s.with_link(base, target, link_type, tag);
    assert forall|h: ActionHash|
        deletes_of(after.log, h) == deletes_of(s.log, h) && updates_of(after.log, h)
            == updates_of(s.log, h) by {
        lemma_entry_after_commit(s, after.log.last().signed_action.action, None, h);
    }
}

/// The removal of edges leaves every entry as it was.
pub proof fn lemma_same_entries_after_removal(
    s: StoreView,
    base: AnyLinkableHash,
    link_type: ScopedLinkType,
    target: AnyLinkableHash,
)
    ensures
        same_entries(s.log, s.without_links_to(base, link_type, target).log),
{
    let after = s.without_links_to(base, link_type, target);
    assert forall|h: ActionHash|
        deletes_of(after.log, h) == deletes_of(s.log, h) && updates_of(after.log, h)
            == updates_of(s.log, h) by {
        lemma_entry_after_removal(s, base, link_type, target, h);
    }
}

/// Commits that follow commits that follow a log follow that log, and
/// where neither run touched an entry, the two together touched none.
pub proof fn lemma_follows(first: Seq<Record>, second: Seq<Record>, third: Seq<Record>)
    requires
        extends(first, second),
        extends(second, third),
        same_entries(first, second),
        same_entries(second, third),
    ensures
        extends(first, third),
        same_entries(first, third),
{
    assert forall|k: int| 0 <= k < first.len() implies #[trigger] third[k] == first[k] by {
        assert(second[k] == first[k]);
    }
    assert forall|h: ActionHash|
        deletes_of(third, h) == deletes_of(first, h) && updates_of(third, h) == updates_of(
            first,
            h,
        ) by {
        assert(deletes_of(third, h) == deletes_of(second, h));
        assert(updates_of(third, h) == updates_of(second, h));
    }
}

/// A record that was found before is found after commits that left every
/// entry as it was, and it is the same record.
pub proof fn lemma_found_stays(before: Seq<Record>, after: Seq<Record>, h: ActionHash)
    requires
        extends(before, after),
        same_entries(before, after),
        h.0 < before.len(),
    ensures
        crate::log::record_of(after, h) == crate::log::record_of(before, h),
{
    assert(after[h.0 as int] == before[h.0 as int]);
    assert(deletes_of(after, h) == deletes_of(before, h));
}

} // verus!
