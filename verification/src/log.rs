//! The log of commits as a mathematical sequence, and what can be read off it.

use vstd::prelude::*;
use crate::hash::{ActionHash, AnyLinkableHash};
use crate::integrity::EntryTypes;
use crate::record::{Action, Link, Record, ScopedLinkType, SignedActionHashed};

verus! {

/// The edge that a commit of an edge stands for.
pub open spec fn link_at(record: Record) -> Link {
    let c = record.signed_action.action->CreateLink_0;
    Link {
        author: c.author,
        base: c.base_address,
        target: c.target_address,
        timestamp: c.timestamp,
        zome_index: c.zome_index,
        link_type: c.link_type,
        tag: c.tag,
        create_link_hash: record.signed_action.hash,
    }
}

/// Whether `h` names a commit of `log` that carries an entry.
pub open spec fn is_entry_commit(log: Seq<Record>, h: ActionHash) -> bool {
    h.0 < log.len() && log[h.0 as int].signed_action.action.carries_entry()
}

/// Whether `h` names a commit of an edge in `log`.
pub open spec fn is_link_commit(log: Seq<Record>, h: ActionHash) -> bool {
    h.0 < log.len() && log[h.0 as int].signed_action.action is CreateLink
}

/// Whether a commit of `action` with `entry` may stand at position `i` of
/// `log`: it carries an entry exactly when it creates or supersedes one, and it
/// names only earlier commits of the right kind.
pub open spec fn wf_action(log: Seq<Record>, i: int, action: Action, entry: Option<EntryTypes>) -> bool {
    &&& (entry is Some <==> action.carries_entry())
    &&& match action {
        Action::Create(_) => true,
        Action::Update(u) => u.original_action_address.0 < i && is_entry_commit(
            log,
            u.original_action_address,
        ),
        Action::Delete(d) => d.deletes_address.0 < i && is_entry_commit(log, d.deletes_address),
        Action::CreateLink(_) => true,
        Action::DeleteLink(d) => d.link_add_address.0 < i && is_link_commit(
            log,
            d.link_add_address,
        ) && log[d.link_add_address.0 as int].signed_action.action->CreateLink_0.base_address
            == d.base_address,
    }
}

/// Whether the commit at position `i` is what the store would have written
/// there: it is identified by its position and may stand there.
pub open spec fn wf_record(log: Seq<Record>, i: int) -> bool {
    &&& log[i].signed_action.hash.0 == i
    &&& wf_action(log, i, log[i].signed_action.action, log[i].entry)
}

/// Whether `log` is a log that the store can hold.
pub open spec fn wf_log(log: Seq<Record>) -> bool {
    &&& log.len() <= u64::MAX
    &&& forall|i: int| 0 <= i < log.len() ==> #[trigger] wf_record(log, i)
}

/// The tombstones of the entry commit `h`, oldest first.
pub open spec fn deletes_of(log: Seq<Record>, h: ActionHash) -> Seq<ActionHash>
    decreases log.len(),
{
    if log.len() == 0 {
        Seq::empty()
    } else {
        let prev = deletes_of(log.drop_last(), h);
        match log.last().signed_action.action {
            Action::Delete(d) => if d.deletes_address == h {
                prev.push(log.last().signed_action.hash)
            } else {
                prev
            },
            _ => prev,
        }
    }
}

/// The commits that supersede the entry commit `h` directly, oldest first.
pub open spec fn updates_of(log: Seq<Record>, h: ActionHash) -> Seq<ActionHash>
    decreases log.len(),
{
    if log.len() == 0 {
        Seq::empty()
    } else {
        let prev = updates_of(log.drop_last(), h);
        match log.last().signed_action.action {
            Action::Update(u) => if u.original_action_address == h {
                prev.push(log.last().signed_action.hash)
            } else {
                prev
            },
            _ => prev,
        }
    }
}

/// `links` without the instance that the commit `h` created.
pub open spec fn remove_instance(links: Seq<Link>, h: ActionHash) -> Seq<Link>
    decreases links.len(),
{
    if links.len() == 0 {
        links
    } else {
        let prev = remove_instance(links.drop_last(), h);
        if links.last().create_link_hash == h {
            prev
        } else {
            prev.push(links.last())
        }
    }
}

/// The live edges of type `link_type` that start at `base`, oldest first: each
/// commit of such an edge adds one, each tombstone withdraws the one it names.
pub open spec fn live_links(log: Seq<Record>, base: AnyLinkableHash, link_type: ScopedLinkType) -> Seq<
    Link,
>
    decreases log.len(),
{
    if log.len() == 0 {
        Seq::empty()
    } else {
        let prev = live_links(log.drop_last(), base, link_type);
        match log.last().signed_action.action {
            Action::CreateLink(c) => if c.base_address == base && c.scoped_type() == link_type {
                prev.push(link_at(log.last()))
            } else {
                prev
            },
            Action::DeleteLink(d) => remove_instance(prev, d.link_add_address),
            _ => prev,
        }
    }
}

/// Every commit of an edge of type `link_type` that starts at `base`, live or
/// not, oldest first.
pub open spec fn link_creates(log: Seq<Record>, base: AnyLinkableHash, link_type: ScopedLinkType) -> Seq<
    SignedActionHashed,
>
    decreases log.len(),
{
    if log.len() == 0 {
        Seq::empty()
    } else {
        let prev = link_creates(log.drop_last(), base, link_type);
        match log.last().signed_action.action {
            Action::CreateLink(c) => if c.base_address == base && c.scoped_type() == link_type {
                prev.push(log.last().signed_action)
            } else {
                prev
            },
            _ => prev,
        }
    }
}

/// The tombstones of the edge instance that the commit `h` created, oldest first.
pub open spec fn link_deletes_of(log: Seq<Record>, h: ActionHash) -> Seq<SignedActionHashed>
    decreases log.len(),
{
    if log.len() == 0 {
        Seq::empty()
    } else {
        let prev = link_deletes_of(log.drop_last(), h);
        match log.last().signed_action.action {
            Action::DeleteLink(d) => if d.link_add_address == h {
                prev.push(log.last().signed_action)
            } else {
                prev
            },
            _ => prev,
        }
    }
}

/// What a fetch of `h` finds: the commit, unless it is missing or tombstoned.
pub open spec fn record_of(log: Seq<Record>, h: ActionHash) -> Option<Record> {
    if h.0 < log.len() && deletes_of(log, h).len() == 0 {
        Some(log[h.0 as int])
    } else {
        None
    }
}

/// The record that the store writes for `action` at the end of `log`.
pub open spec fn next_record(log: Seq<Record>, action: Action, entry: Option<EntryTypes>) -> Record {
    Record {
        signed_action: SignedActionHashed { hash: ActionHash(log.len() as u64), action },
        entry,
    }
}

/// A prefix of a sequence, one longer than another, ends in the element at
/// the shorter one's length.
pub proof fn lemma_take_step<T>(s: Seq<T>, i: int)
    requires
        0 <= i < s.len(),
    ensures
        s.take(i + 1).drop_last() == s.take(i),
        s.take(i + 1).last() == s[i],
        s.take(i + 1).len() == i + 1,
        s.take(i + 1) == s.take(i).push(s[i]),
{
    assert(s.take(i + 1).drop_last() =~= s.take(i));
    assert(s.take(i + 1) =~= s.take(i).push(s[i]));
}

/// A sequence that was extended by one element is, without it, what it was.
pub proof fn lemma_push_drop_last<T>(s: Seq<T>, x: T)
    ensures
        s.push(x).drop_last() == s,
        s.push(x).last() == x,
{
    assert(s.push(x).drop_last() =~= s);
}


/// Whether `r` is a tombstone of the entry commit `h`.
pub open spec fn is_delete_of(r: Record, h: ActionHash) -> bool {
    r.signed_action.action matches Action::Delete(d) && d.deletes_address == h
}

/// Whether `r` supersedes the entry commit `h` directly.
pub open spec fn is_update_of(r: Record, h: ActionHash) -> bool {
    r.signed_action.action matches Action::Update(u) && u.original_action_address == h
}

/// Whether `r` is a tombstone of the edge instance that the commit `h` created.
pub open spec fn is_link_delete_of(r: Record, h: ActionHash) -> bool {
    r.signed_action.action matches Action::DeleteLink(d) && d.link_add_address == h
}

/// Whether `r` commits an edge of type `link_type` that starts at `base`.
pub open spec fn is_link_from(r: Record, base: AnyLinkableHash, link_type: ScopedLinkType) -> bool {
    r.signed_action.action matches Action::CreateLink(c) && c.base_address == base
        && c.scoped_type() == link_type
}

/// Whether some commit of `log` is a tombstone of the entry commit `h`.
pub open spec fn deleted(log: Seq<Record>, h: ActionHash) -> bool {
    exists|j: int| 0 <= j < log.len() && is_delete_of(#[trigger] log[j], h)
}

/// Whether some commit of `log` is a tombstone of the edge instance that the
/// commit `h` created.
pub open spec fn tombstoned(log: Seq<Record>, h: ActionHash) -> bool {
    exists|j: int| 0 <= j < log.len() && is_link_delete_of(#[trigger] log[j], h)
}

/// Whether `l` is a live edge of type `link_type` that starts at `base`: some
/// commit of `log` created it, and none has withdrawn it.
pub open spec fn is_live(log: Seq<Record>, base: AnyLinkableHash, link_type: ScopedLinkType, l: Link) -> bool {
    &&& l.create_link_hash.0 < log.len()
    &&& is_link_from(log[l.create_link_hash.0 as int], base, link_type)
    &&& l == link_at(log[l.create_link_hash.0 as int])
    &&& !tombstoned(log, l.create_link_hash)
}

/// Whether the identifiers in `s` grow strictly.
pub open spec fn increasing(s: Seq<ActionHash>) -> bool {
    forall|a: int, b: int| 0 <= a < b < s.len() ==> (#[trigger] s[a]).0 < (#[trigger] s[b]).0
}

/// Whether the edges in `s` stand in the order of their creation, each once.
pub open spec fn in_creation_order(s: Seq<Link>) -> bool {
    forall|a: int, b: int|
        0 <= a < b < s.len() ==> (#[trigger] s[a]).create_link_hash.0 < (
        #[trigger] s[b]).create_link_hash.0
}

/// A log without its last commit is a log that the store can hold.
pub proof fn lemma_wf_drop_last(log: Seq<Record>)
    requires
        wf_log(log),
        log.len() > 0,
    ensures
        wf_log(log.drop_last()),
{
    let dl = log.drop_last();
    assert forall|i: int| 0 <= i < dl.len() implies #[trigger] wf_record(dl, i) by {
        assert(wf_record(log, i));
        assert(dl[i] == log[i]);
    }
}

/// What a sequence holds once one element was added at its end.
pub proof fn lemma_push_contains<T>(s: Seq<T>, x: T, y: T)
    ensures
        s.push(x).contains(y) <==> (s.contains(y) || y == x),
{
    if s.contains(y) {
        let i = choose|i: int| 0 <= i < s.len() && s[i] == y;
        assert(s.push(x)[i] == y);
    }
    if y == x {
        assert(s.push(x)[s.len() as int] == y);
    }
    if s.push(x).contains(y) {
        let i = choose|i: int| 0 <= i < s.push(x).len() && s.push(x)[i] == y;
        if i < s.len() {
            assert(s[i] == y);
        }
    }
}

/// The tombstones of an entry commit are exactly the commits of the log that
/// name it as tombstoned, in the order of the log.
pub proof fn lemma_deletes_of(log: Seq<Record>, h: ActionHash)
    requires
        wf_log(log),
    ensures
        forall|x: ActionHash| #[trigger]
            deletes_of(log, h).contains(x) <==> (x.0 < log.len() && is_delete_of(
                log[x.0 as int],
                h,
            )),
        deletes_of(log, h).len() == 0 <==> !deleted(log, h),
        increasing(deletes_of(log, h)),
    decreases log.len(),
{
    if log.len() == 0 {
        assert forall|x: ActionHash| #[trigger]
            deletes_of(log, h).contains(x) <==> (x.0 < log.len() && is_delete_of(
                log[x.0 as int],
                h,
            )) by {}
    } else {
        let dl = log.drop_last();
        let last = log.last();
        let n = log.len() - 1;
        lemma_wf_drop_last(log);
        lemma_deletes_of(dl, h);
        let prev = deletes_of(dl, h);
        let cur = deletes_of(log, h);
        assert(wf_record(log, n));
        assert forall|x: ActionHash| #[trigger]
            cur.contains(x) <==> (x.0 < log.len() && is_delete_of(log[x.0 as int], h)) by {
            lemma_push_contains(prev, last.signed_action.hash, x);
            if x.0 < n {
                assert(dl[x.0 as int] == log[x.0 as int]);
            }
        }
        assert(increasing(cur)) by {
            assert forall|a: int, b: int| 0 <= a < b < cur.len() implies (#[trigger] cur[a]).0 < (
            #[trigger] cur[b]).0 by {
                if b < prev.len() {
                } else {
                    assert(prev.contains(prev[a]));
                }
            }
        }
        if deleted(log, h) {
            let j = choose|j: int| 0 <= j < log.len() && is_delete_of(#[trigger] log[j], h);
            assert(log[j].signed_action.hash.0 == j) by {
                assert(wf_record(log, j));
            }
            assert(cur.contains(ActionHash(j as u64)));
        }
        if cur.len() > 0 {
            let x = cur[0];
            assert(cur.contains(x));
            assert(is_delete_of(log[x.0 as int], h));
        }
    }
}

/// The commits that supersede an entry commit directly are exactly the
/// commits of the log that name it as superseded, in the order of the log;
/// each of them is later than the commit it supersedes.
pub proof fn lemma_updates_of(log: Seq<Record>, h: ActionHash)
    requires
        wf_log(log),
    ensures
        forall|x: ActionHash| #[trigger]
            updates_of(log, h).contains(x) <==> (x.0 < log.len() && is_update_of(
                log[x.0 as int],
                h,
            )),
        forall|k: int|
            0 <= k < updates_of(log, h).len() ==> h.0 < (#[trigger] updates_of(log, h)[k]).0
                < log.len(),
        increasing(updates_of(log, h)),
    decreases log.len(),
{
    if log.len() == 0 {
        assert forall|x: ActionHash| #[trigger]
            updates_of(log, h).contains(x) <==> (x.0 < log.len() && is_update_of(
                log[x.0 as int],
                h,
            )) by {}
    } else {
        let dl = log.drop_last();
        let last = log.last();
        let n = log.len() - 1;
        lemma_wf_drop_last(log);
        lemma_updates_of(dl, h);
        let prev = updates_of(dl, h);
        let cur = updates_of(log, h);
        assert(wf_record(log, n));
        assert forall|x: ActionHash| #[trigger]
            cur.contains(x) <==> (x.0 < log.len() && is_update_of(log[x.0 as int], h)) by {
            lemma_push_contains(prev, last.signed_action.hash, x);
            if x.0 < n {
                assert(dl[x.0 as int] == log[x.0 as int]);
            }
        }
        assert(increasing(cur)) by {
            assert forall|a: int, b: int| 0 <= a < b < cur.len() implies (#[trigger] cur[a]).0 < (
            #[trigger] cur[b]).0 by {
                if b < prev.len() {
                } else {
                    assert(prev.contains(prev[a]));
                }
            }
        }
        assert forall|k: int| 0 <= k < cur.len() implies h.0 < (#[trigger] cur[k]).0
            < log.len() by {
            assert(cur.contains(cur[k]));
            assert(wf_record(log, cur[k].0 as int));
        }
    }
}

/// What is left of a list of edges once one instance is withdrawn.
pub proof fn lemma_remove_instance(s: Seq<Link>, h: ActionHash)
    ensures
        forall|l: Link| #[trigger]
            remove_instance(s, h).contains(l) <==> (s.contains(l) && l.create_link_hash != h),
        in_creation_order(s) ==> in_creation_order(remove_instance(s, h)),
        remove_instance(s, h).len() <= s.len(),
        (forall|k: int| 0 <= k < s.len() ==> (#[trigger] s[k]).create_link_hash != h)
            ==> remove_instance(s, h) == s,
    decreases s.len(),
{
    if s.len() == 0 {
        assert forall|l: Link| #[trigger]
            remove_instance(s, h).contains(l) <==> (s.contains(l) && l.create_link_hash != h) by {}
    } else {
        let dl = s.drop_last();
        let last = s.last();
        lemma_remove_instance(dl, h);
        let prev = remove_instance(dl, h);
        let cur = remove_instance(s, h);
        assert(s == dl.push(last));
        assert forall|l: Link| #[trigger]
            cur.contains(l) <==> (s.contains(l) && l.create_link_hash != h) by {
            lemma_push_contains(dl, last, l);
            lemma_push_contains(prev, last, l);
        }
        if in_creation_order(s) {
            assert forall|a: int, b: int| 0 <= a < b < dl.len() implies (
            #[trigger] dl[a]).create_link_hash.0 < (#[trigger] dl[b]).create_link_hash.0 by {
                assert(dl[a] == s[a] && dl[b] == s[b]);
            }
            assert forall|a: int, b: int| 0 <= a < b < cur.len() implies (
            #[trigger] cur[a]).create_link_hash.0 < (#[trigger] cur[b]).create_link_hash.0 by {
                if b < prev.len() {
                } else {
                    assert(prev.contains(prev[a]));
                    assert(dl.contains(prev[a]));
                    let i = choose|i: int| 0 <= i < dl.len() && dl[i] == prev[a];
                    assert(s[i] == prev[a]);
                    assert(s[s.len() - 1] == last);
                }
            }
        }
        if forall|k: int| 0 <= k < s.len() ==> (#[trigger] s[k]).create_link_hash != h {
            assert forall|k: int| 0 <= k < dl.len() implies (#[trigger] dl[k]).create_link_hash
                != h by {
                assert(dl[k] == s[k]);
            }
            assert(s[s.len() - 1].create_link_hash != h);
            assert(cur =~= s);
        }
    }
}

/// The live edges are exactly the edges that some commit of the log created
/// and none has withdrawn, in the order of their creation.
pub proof fn lemma_live_links(log: Seq<Record>, base: AnyLinkableHash, link_type: ScopedLinkType)
    requires
        wf_log(log),
    ensures
        forall|l: Link| #[trigger]
            live_links(log, base, link_type).contains(l) <==> is_live(log, base, link_type, l),
        in_creation_order(live_links(log, base, link_type)),
    decreases log.len(),
{
    if log.len() == 0 {
        assert forall|l: Link| #[trigger]
            live_links(log, base, link_type).contains(l) <==> is_live(
                log,
                base,
                link_type,
                l,
            ) by {}
    } else {
        let dl = log.drop_last();
        let last = log.last();
        let n = log.len() - 1;
        lemma_wf_drop_last(log);
        lemma_live_links(dl, base, link_type);
        let prev = live_links(dl, base, link_type);
        let cur = live_links(log, base, link_type);
        assert(wf_record(log, n));
        assert forall|l: Link| #[trigger] cur.contains(l) <==> is_live(
            log,
            base,
            link_type,
            l,
        ) by {
            let h = l.create_link_hash;
            lemma_push_contains(prev, link_at(last), l);
            lemma_remove_instance(prev, last.signed_action.action->DeleteLink_0.link_add_address);
            if h.0 < n {
                assert(dl[h.0 as int] == log[h.0 as int]);
            }
            // a tombstone in the shorter log is one in the longer log
            if tombstoned(dl, h) {
                let j = choose|j: int| 0 <= j < dl.len() && is_link_delete_of(#[trigger] dl[j], h);
                assert(is_link_delete_of(log[j], h));
            }
            if tombstoned(log, h) {
                let j = choose|j: int| 0 <= j < log.len() && is_link_delete_of(
                    #[trigger] log[j],
                    h,
                );
                assert(wf_record(log, j));
                if j < n {
                    assert(is_link_delete_of(dl[j], h));
                }
            }
            if is_link_delete_of(last, h) {
                assert(is_link_delete_of(log[n], h));
            }
        }
        assert(in_creation_order(cur)) by {
            lemma_remove_instance(prev, last.signed_action.action->DeleteLink_0.link_add_address);
            assert forall|a: int, b: int| 0 <= a < b < cur.len() implies (
            #[trigger] cur[a]).create_link_hash.0 < (#[trigger] cur[b]).create_link_hash.0 by {
                if last.signed_action.action is CreateLink && b >= prev.len() {
                    assert(prev.contains(prev[a]));
                    assert(is_live(dl, base, link_type, prev[a]));
                }
            }
        }
    }
}

} // verus!
