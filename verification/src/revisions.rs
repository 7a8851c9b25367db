//! Which revision of a record is current, and which revisions there are.
//!
//! A record is never changed in place. A new revision is a commit of its own
//! that names the revision it supersedes, and an edge of the type `Updates`
//! leads from the original to it. So the current revision can be found in two
//! ways: by the newest such edge, or by walking from each revision to the
//! last of those that supersede it.

use vstd::prelude::*;
use crate::relations::records_at;
use crate::error::{GatherError, Malformed};
use crate::hash::{ActionHash, AnyLinkableHash};
use crate::integrity::LinkTypes;
use crate::links::{latest_link, newest};
use crate::log::{deletes_of, lemma_updates_of, live_links, updates_of, wf_log};
use crate::record::{Details, Link, Record};
use crate::store::Store;

verus! {

/// What one look at a revision tells.
#[derive(Clone, Copy, Debug, PartialEq, Eq, Structural)]
pub enum Resolution {
    /// The record is tombstoned.
    Deleted,
    /// The revision looked at is the current one.
    Current,
    /// The revision looked at is superseded: look at this one next.
    Follow(ActionHash),
    /// The store holds nothing at the revision looked at.
    Absent,
}

/// Whether a fetched record, or a failure, is what was to be found.
pub open spec fn same_resolution(
    r: Result<Option<&Record>, GatherError>,
    m: Result<Option<Record>, GatherError>,
) -> bool {
    match (r, m) {
        (Ok(Some(a)), Ok(Some(b))) => *a == b,
        (Ok(None), Ok(None)) => true,
        (Err(e), Err(f)) => e == f,
        _ => false,
    }
}

/// The record at `h`, tombstoned or not, if the log holds it.
pub open spec fn stored(log: Seq<Record>, h: ActionHash) -> Option<Record> {
    if h.0 < log.len() {
        Some(log[h.0 as int])
    } else {
        None
    }
}

/// The revision that the newest edge names: the original where there is no
/// edge; a failure where the newest edge names no commit.
pub open spec fn revision_named(original: ActionHash, latest: Option<Link>) -> Result<
    ActionHash,
    GatherError,
> {
    match latest {
        None => Ok(original),
        Some(l) => match l.target {
            AnyLinkableHash::Action(h) => Ok(h),
            _ => Err(GatherError::MalformedData(Malformed::NoActionHash)),
        },
    }
}

/// The current revision of `original`, found by the newest edge: nothing
/// where the original is tombstoned, however many revisions there are; else
/// the record that the newest `Updates` edge from the original names; the
/// original itself where there is no such edge.
pub open spec fn resolve(log: Seq<Record>, original: ActionHash) -> Result<
    Option<Record>,
    GatherError,
> {
    if deletes_of(log, original).len() > 0 {
        Ok(None)
    } else {
        match revision_named(
            original,
            newest(live_links(log, original.linkable(), LinkTypes::Updates.scoped_spec())),
        ) {
            Ok(h) => Ok(stored(log, h)),
            Err(e) => Err(e),
        }
    }
}

/// The current revision of `start`, found by walking: nothing where the
/// log does not hold `start`, and nothing where a revision on the way is
/// tombstoned.
pub open spec fn latest_in_chain(log: Seq<Record>, start: ActionHash) -> Result<
    Option<Record>,
    GatherError,
>
    decreases log.len() - start.0,
{
    if start.0 >= log.len() {
        Ok(None)
    } else if deletes_of(log, start).len() > 0 {
        Ok(None)
    } else if updates_of(log, start).len() == 0 {
        Ok(Some(log[start.0 as int]))
    } else {
        let next = updates_of(log, start).last();
        if start.0 < next.0 < log.len() {
            latest_in_chain(log, next)
        } else {
            Ok(None)
        }
    }
}

/// The record that details are about: none where nothing was found.
/// Details of an entry are refused.
pub fn record_from_details<'a>(details: Option<Details<'a>>) -> (r: Result<
    Option<&'a Record>,
    GatherError,
>)
    ensures
        r == (match details {
            None => Ok::<Option<&Record>, GatherError>(None),
            Some(Details::Record(d)) => Ok(Some(d.record)),
            Some(Details::Entry(_)) => Err(GatherError::MalformedData(Malformed::Details)),
        }),
{
    match details {
        None => Ok(None),
        Some(Details::Record(d)) => Ok(Some(d.record)),
        Some(Details::Entry(_)) => Err(GatherError::MalformedData(Malformed::Details)),
    }
}

/// The revision that the newest edge names.
pub fn latest_revision(original: ActionHash, latest: Option<Link>) -> (r: Result<
    ActionHash,
    GatherError,
>)
    ensures
        r == revision_named(original, latest),
{
    match latest {
        None => Ok(original),
        Some(l) => match l.target.into_action_hash() {
            Some(h) => Ok(h),
            None => Err(GatherError::MalformedData(Malformed::NoActionHash)),
        },
    }
}

/// What the details of one revision tell: that nothing is there where
/// nothing was found; a failure where the details are those of an entry;
/// else whether the record is tombstoned, superseded, or current. Of
/// several revisions that supersede it, the last one is to be followed.
pub fn chain_step(details: &Option<Details<'_>>) -> (r: Result<Resolution, GatherError>)
    ensures
        r == (match *details {
            None => Ok::<Resolution, GatherError>(Resolution::Absent),
            Some(Details::Entry(_)) => Err(GatherError::MalformedData(Malformed::Details)),
            Some(Details::Record(d)) => Ok(
                if d.deletes@.len() > 0 {
                    Resolution::Deleted
                } else if d.updates@.len() == 0 {
                    Resolution::Current
                } else {
                    Resolution::Follow(d.updates@.last())
                },
            ),
        }),
{
    match details {
        None => Ok(Resolution::Absent),
        Some(Details::Entry(_)) => Err(GatherError::MalformedData(Malformed::Details)),
        Some(Details::Record(d)) => {
            if d.deletes.len() > 0 {
                Ok(Resolution::Deleted)
            } else if d.updates.len() == 0 {
                Ok(Resolution::Current)
            } else {
                Ok(Resolution::Follow(d.updates[d.updates.len() - 1]))
            }
        },
    }
}

/// The record at `h`, tombstoned or not.
pub fn get_original<'a>(store: &'a Store, h: ActionHash) -> (r: Result<
    Option<&'a Record>,
    GatherError,
>)
    ensures
        same_resolution(r, Ok(stored(store@.log, h))),
{
    record_from_details(store.get_details(h.into_any_dht_hash()))
}

/// The revision to fetch as the current one: none where the original is
/// tombstoned; else the one that the newest edge names; the original where
/// there is no edge.
pub open spec fn revision_to_fetch(original: ActionHash, deleted: bool, links: Seq<Link>) -> Result<
    Option<ActionHash>,
    GatherError,
> {
    if deleted {
        Ok(None)
    } else {
        match revision_named(original, newest(links)) {
            Ok(h) => Ok(Some(h)),
            Err(e) => Err(e),
        }
    }
}

/// The revision to fetch as the current one, given the tombstones of the
/// original and the live `Updates` edges from it.
pub fn current_revision(original: ActionHash, deletes: &Vec<ActionHash>, links: &Vec<Link>) -> (r: Result<
    Option<ActionHash>,
    GatherError,
>)
    ensures
        r == revision_to_fetch(original, deletes@.len() > 0, links@),
{
    if deletes.len() > 0 {
        return Ok(None);
    }
    match latest_revision(original, latest_link(links)) {
        Ok(h) => Ok(Some(h)),
        Err(e) => Err(e),
    }
}

/// The current revision of `original`, found by the newest edge.
pub fn resolve_latest<'a>(store: &'a Store, original: ActionHash) -> (r: Result<
    Option<&'a Record>,
    GatherError,
>)
    ensures
        same_resolution(r, resolve(store@.log, original)),
{
    let deletes = store.deletes(original);
    let links = store.get_links(original.into_linkable(), LinkTypes::Updates.scoped());
    match current_revision(original, &deletes, &links) {
        Ok(Some(h)) => get_original(store, h),
        Ok(None) => Ok(None),
        Err(e) => Err(e),
    }
}

/// The current revision of `start`, found by walking from each revision to
/// the last of those that supersede it.
pub fn walk_latest<'a>(store: &'a Store, start: ActionHash) -> (r: Result<
    Option<&'a Record>,
    GatherError,
>)
    requires
        store.wf(),
    ensures
        same_resolution(r, latest_in_chain(store@.log, start)),
{
    let mut h = start;
    loop
        invariant
            store.wf(),
            latest_in_chain(store@.log, h) == latest_in_chain(store@.log, start),
        decreases store@.log.len() - h.0,
    {
        let details = store.get_details(h.into_any_dht_hash());
        match chain_step(&details) {
            Err(e) => {
                return Err(e);
            },
            Ok(Resolution::Absent) => {
                return Ok(None);
            },
            Ok(Resolution::Deleted) => {
                return Ok(None);
            },
            Ok(Resolution::Current) => {
                return record_from_details(details);
            },
            Ok(Resolution::Follow(next)) => {
                proof {
                    lemma_updates_of(store@.log, h);
                    let ups = updates_of(store@.log, h);
                    assert(h.0 < ups[ups.len() - 1].0 < store@.log.len());
                }
                h = next;
            },
        }
    }
}

/// Every revision of `h`, `h` first: each revision is followed by the
/// revisions of each commit that supersedes it, oldest first.
pub open spec fn revisions_of(log: Seq<Record>, h: ActionHash) -> Seq<ActionHash>
    decreases log.len() - h.0, updates_of(log, h).len() + 1,
{
    if h.0 >= log.len() {
        Seq::empty()
    } else {
        seq![h] + descend(log, h, updates_of(log, h).len())
    }
}

/// The revisions of the first `n` commits that supersede `h`.
pub open spec fn descend(log: Seq<Record>, h: ActionHash, n: nat) -> Seq<ActionHash>
    decreases log.len() - h.0, n,
{
    if n == 0 || n > updates_of(log, h).len() {
        Seq::empty()
    } else {
        let u = updates_of(log, h)[n - 1];
        let rest = if h.0 < u.0 < log.len() {
            revisions_of(log, u)
        } else {
            Seq::empty()
        };
        descend(log, h, (n - 1) as nat) + rest
    }
}

/// Every listed revision is a commit of the log.
pub proof fn lemma_revisions_in_log(log: Seq<Record>, h: ActionHash)
    ensures
        forall|k: int|
            0 <= k < revisions_of(log, h).len() ==> (#[trigger] revisions_of(log, h)[k]).0
                < log.len(),
    decreases log.len() - h.0, updates_of(log, h).len() + 1,
{
    if h.0 < log.len() {
        let below = descend(log, h, updates_of(log, h).len());
        lemma_descend_in_log(log, h, updates_of(log, h).len());
        let all = revisions_of(log, h);
        assert forall|k: int| 0 <= k < all.len() implies (#[trigger] all[k]).0 < log.len() by {
            if k > 0 {
                assert(all[k] == below[k - 1]);
            }
        }
    }
}

/// Every revision listed below `h` is a commit of the log.
pub proof fn lemma_descend_in_log(log: Seq<Record>, h: ActionHash, n: nat)
    ensures
        forall|k: int|
            0 <= k < descend(log, h, n).len() ==> (#[trigger] descend(log, h, n)[k]).0 < log.len(),
    decreases log.len() - h.0, n,
{
    if n == 0 || n > updates_of(log, h).len() {
    } else {
        let u = updates_of(log, h)[n - 1];
        lemma_descend_in_log(log, h, (n - 1) as nat);
        if h.0 < u.0 < log.len() {
            lemma_revisions_in_log(log, u);
        }
        let before = descend(log, h, (n - 1) as nat);
        let rest = if h.0 < u.0 < log.len() {
            revisions_of(log, u)
        } else {
            Seq::empty()
        };
        let all = descend(log, h, n);
        assert forall|k: int| 0 <= k < all.len() implies (#[trigger] all[k]).0 < log.len() by {
            if k < before.len() {
                assert(all[k] == before[k]);
            } else {
                assert(all[k] == rest[k - before.len()]);
            }
        }
    }
}

/// What the details of one revision tell for the listing of all
/// revisions: the commits that supersede the revision, oldest first, where
/// the details are those of a record; that there is nothing to list where
/// nothing was found or the details are those of an entry.
pub fn revisions_step<'a>(details: &'a Option<Details<'_>>) -> (r: Option<&'a Vec<ActionHash>>)
    ensures
        match (r, *details) {
            (Some(next), Some(Details::Record(d))) => *next == d.updates,
            (None, Some(Details::Record(_))) => false,
            (None, _) => true,
            (Some(_), _) => false,
        },
{
    match details {
        Some(Details::Record(d)) => Some(&d.updates),
        _ => None,
    }
}

/// Every revision of `h`, `h` first.
pub fn revision_hashes(store: &Store, h: ActionHash) -> (r: Vec<ActionHash>)
    requires
        store.wf(),
    ensures
        r@ == revisions_of(store@.log, h),
    decreases store@.log.len() - h.0,
{
    let mut out: Vec<ActionHash> = Vec::new();
    let details = store.get_details(h.into_any_dht_hash());
    let updates = match revisions_step(&details) {
        None => {
            return out;
        },
        Some(updates) => updates,
    };
    out.push(h);
    proof {
        lemma_updates_of(store@.log, h);
        assert(out@ =~= seq![h] + descend(store@.log, h, 0));
    }
    let mut i: usize = 0;
    while i < updates.len()
        invariant
            i <= updates@.len(),
            store.wf(),
            h.0 < store@.log.len(),
            updates@ == updates_of(store@.log, h),
            out@ == seq![h] + descend(store@.log, h, i as nat),
            forall|k: int|
                0 <= k < updates@.len() ==> h.0 < (#[trigger] updates@[k]).0 < store@.log.len(),
        decreases updates@.len() - i,
    {
        let mut below = revision_hashes(store, updates[i]);
        proof {
            assert(seq![h] + descend(store@.log, h, i as nat) + below@ =~= seq![h] + descend(
                store@.log,
                h,
                (i + 1) as nat,
            ));
        }
        out.append(&mut below);
        i = i + 1;
    }
    out
}

/// Every revision of `h` as a record, `h` first.
pub fn all_revisions<'a>(store: &'a Store, h: ActionHash) -> (r: Vec<&'a Record>)
    requires
        store.wf(),
    ensures
        records_at(store@.log, revisions_of(store@.log, h), r@),
{
    let hashes = revision_hashes(store, h);
    proof {
        lemma_revisions_in_log(store@.log, h);
    }
    let mut out: Vec<&'a Record> = Vec::new();
    let mut i: usize = 0;
    while i < hashes.len()
        invariant
            i <= hashes@.len(),
            out@.len() == i,
            forall|k: int| 0 <= k < hashes@.len() ==> (#[trigger] hashes@[k]).0 < store@.log.len(),
            forall|k: int|
                0 <= k < i ==> *(#[trigger] out@[k]) == store@.log[hashes@[k].0 as int],
        decreases hashes@.len() - i,
    {
        match store.must_get_valid_record(hashes[i]) {
            Ok(record) => {
                out.push(record);
            },
            Err(_) => {},
        }
        i = i + 1;
    }
    out
}

/// The commit that `x` supersedes, if `x` supersedes one.
pub open spec fn supersedes(log: Seq<Record>, x: ActionHash) -> Option<ActionHash> {
    if x.0 < log.len() {
        match log[x.0 as int].signed_action.action {
            crate::record::Action::Update(u) => Some(u.original_action_address),
            _ => None,
        }
    } else {
        None
    }
}

/// Whether `x` is a revision of `h`: `h` itself, or a commit that
/// supersedes a revision of `h`.
pub open spec fn is_revision_of(log: Seq<Record>, h: ActionHash, x: ActionHash) -> bool
    decreases x.0,
{
    x.0 < log.len() && (x == h || (supersedes(log, x) matches Some(p) && p.0 < x.0
        && is_revision_of(log, h, p)))
}

/// Whether `x` is a revision of one of the first `n` commits that
/// supersede `h`.
pub open spec fn is_revision_below(log: Seq<Record>, h: ActionHash, n: int, x: ActionHash) -> bool {
    exists|k: int|
        0 <= k < n && k < updates_of(log, h).len() && is_revision_of(
            log,
            #[trigger] updates_of(log, h)[k],
            x,
        )
}

/// Whether each commit of `listing` but those in `roots` stands behind the
/// commit that it supersedes.
pub open spec fn parents_first(log: Seq<Record>, listing: Seq<ActionHash>, roots: Seq<ActionHash>) -> bool {
    forall|i: int|
        0 <= i < listing.len() ==> roots.contains(#[trigger] listing[i]) || exists|j: int|
            0 <= j < i && supersedes(log, listing[i]) == Some(#[trigger] listing[j])
}

/// A revision of a commit is the commit or comes after it.
pub proof fn lemma_revision_not_before(log: Seq<Record>, a: ActionHash, x: ActionHash)
    requires
        is_revision_of(log, a, x),
    ensures
        a.0 <= x.0 < log.len(),
    decreases x.0,
{
    if x != a {
        lemma_revision_not_before(log, a, supersedes(log, x)->Some_0);
    }
}

/// A revision of a commit that supersedes `h` is a revision of `h`.
pub proof fn lemma_revision_of_child(log: Seq<Record>, h: ActionHash, u: ActionHash, x: ActionHash)
    requires
        wf_log(log),
        supersedes(log, u) == Some(h),
        is_revision_of(log, u, x),
    ensures
        is_revision_of(log, h, x),
    decreases x.0,
{
    assert(crate::log::wf_record(log, u.0 as int));
    if x == u {
        assert(is_revision_of(log, h, h));
    } else {
        lemma_revision_of_child(log, h, u, supersedes(log, x)->Some_0);
    }
}

/// A revision of `h` other than `h` is a revision of one of the commits
/// that supersede `h`.
pub proof fn lemma_revision_below(log: Seq<Record>, h: ActionHash, x: ActionHash)
    requires
        wf_log(log),
        is_revision_of(log, h, x),
        x != h,
    ensures
        is_revision_below(log, h, updates_of(log, h).len() as int, x),
    decreases x.0,
{
    let ups = updates_of(log, h);
    let p = supersedes(log, x)->Some_0;
    lemma_updates_of(log, h);
    if p == h {
        assert(ups.contains(x));
        let k = choose|k: int| 0 <= k < ups.len() && ups[k] == x;
        assert(is_revision_of(log, ups[k], x));
    } else {
        lemma_revision_below(log, h, p);
        let k = choose|k: int|
            0 <= k < ups.len() && k < ups.len() && is_revision_of(log, #[trigger] ups[k], p);
        assert(is_revision_of(log, ups[k], x));
    }
}

/// No commit is a revision of two commits that supersede one commit.
pub proof fn lemma_revisions_apart(
    log: Seq<Record>,
    h: ActionHash,
    u: ActionHash,
    v: ActionHash,
    x: ActionHash,
)
    requires
        wf_log(log),
        u != v,
        supersedes(log, u) == Some(h),
        supersedes(log, v) == Some(h),
        is_revision_of(log, u, x),
    ensures
        !is_revision_of(log, v, x),
    decreases x.0,
{
    assert(crate::log::wf_record(log, u.0 as int));
    assert(crate::log::wf_record(log, v.0 as int));
    if is_revision_of(log, v, x) {
        if x == u {
            lemma_revision_not_before(log, v, h);
        } else if x == v {
            lemma_revision_not_before(log, u, h);
        } else {
            lemma_revisions_apart(log, h, u, v, supersedes(log, x)->Some_0);
        }
    }
}

/// What two listings hold, one behind the other.
pub proof fn lemma_concat_contains(a: Seq<ActionHash>, b: Seq<ActionHash>, x: ActionHash)
    ensures
        (a + b).contains(x) <==> (a.contains(x) || b.contains(x)),
{
    if a.contains(x) {
        let i = choose|i: int| 0 <= i < a.len() && a[i] == x;
        assert((a + b)[i] == x);
    }
    if b.contains(x) {
        let i = choose|i: int| 0 <= i < b.len() && b[i] == x;
        assert((a + b)[a.len() + i] == x);
    }
    if (a + b).contains(x) {
        let i = choose|i: int| 0 <= i < (a + b).len() && (a + b)[i] == x;
        if i < a.len() {
            assert(a[i] == x);
        } else {
            assert(b[i - a.len()] == x);
        }
    }
}

/// The listing of all revisions of `h` holds exactly the revisions of `h`,
/// each once, and each but `h` behind the commit that it supersedes.
pub proof fn lemma_revisions_of(log: Seq<Record>, h: ActionHash)
    requires
        wf_log(log),
    ensures
        forall|x: ActionHash| #[trigger]
            revisions_of(log, h).contains(x) <==> is_revision_of(log, h, x),
        revisions_of(log, h).no_duplicates(),
        parents_first(log, revisions_of(log, h), seq![h]),
        h.0 < log.len() ==> revisions_of(log, h).len() > 0 && revisions_of(log, h)[0] == h,
    decreases log.len() - h.0, updates_of(log, h).len() + 1,
{
    let listing = revisions_of(log, h);
    if h.0 >= log.len() {
        assert forall|x: ActionHash| #[trigger] listing.contains(x) <==> is_revision_of(
            log,
            h,
            x,
        ) by {
            if is_revision_of(log, h, x) {
                lemma_revision_not_before(log, h, x);
            }
        }
    } else {
        let ups = updates_of(log, h);
        let below = descend(log, h, ups.len());
        lemma_updates_of(log, h);
        lemma_descend(log, h, ups.len());
        assert(listing == seq![h] + below);
        assert(seq![h][0] == h);
        assert forall|x: ActionHash| #[trigger] listing.contains(x) <==> is_revision_of(
            log,
            h,
            x,
        ) by {
            lemma_concat_contains(seq![h], below, x);
            if x != h && is_revision_of(log, h, x) {
                lemma_revision_below(log, h, x);
            }
            if below.contains(x) {
                let k = choose|k: int|
                    0 <= k < ups.len() && k < ups.len() && is_revision_of(
                        log,
                        #[trigger] ups[k],
                        x,
                    );
                assert(ups.contains(ups[k]));
                lemma_revision_of_child(log, h, ups[k], x);
            }
            if seq![h].contains(x) {
                let i = choose|i: int| 0 <= i < seq![h].len() && seq![h][i] == x;
            }
        }
        assert(!below.contains(h)) by {
            if below.contains(h) {
                let k = choose|k: int|
                    0 <= k < ups.len() && k < ups.len() && is_revision_of(
                        log,
                        #[trigger] ups[k],
                        h,
                    );
                lemma_revision_not_before(log, ups[k], h);
            }
        }
        assert forall|i: int, j: int| 0 <= i < j < listing.len() implies listing[i]
            != listing[j] by {
            if i == 0 {
                assert(below.contains(below[j - 1]));
            } else {
                assert(listing[i] == below[i - 1] && listing[j] == below[j - 1]);
            }
        }
        assert forall|i: int| 0 <= i < listing.len() implies seq![h].contains(
            #[trigger] listing[i],
        ) || exists|j: int|
            0 <= j < i && supersedes(log, listing[i]) == Some(#[trigger] listing[j]) by {
            if i > 0 {
                let x = below[i - 1];
                assert(listing[i] == x);
                if ups.contains(x) {
                    assert(supersedes(log, x) == Some(listing[0]));
                } else {
                    let j = choose|j: int|
                        0 <= j < i - 1 && supersedes(log, below[i - 1]) == Some(
                            #[trigger] below[j],
                        );
                    assert(listing[j + 1] == below[j]);
                }
            }
        }
    }
}

/// The listing below `h` holds exactly the revisions of the first `n`
/// commits that supersede `h`, each once, and each but those commits
/// behind the commit that it supersedes.
pub proof fn lemma_descend(log: Seq<Record>, h: ActionHash, n: nat)
    requires
        wf_log(log),
        h.0 < log.len(),
        n <= updates_of(log, h).len(),
    ensures
        forall|x: ActionHash| #[trigger]
            descend(log, h, n).contains(x) <==> is_revision_below(log, h, n as int, x),
        descend(log, h, n).no_duplicates(),
        parents_first(log, descend(log, h, n), updates_of(log, h)),
    decreases log.len() - h.0, n,
{
    let ups = updates_of(log, h);
    let listing = descend(log, h, n);
    lemma_updates_of(log, h);
    if n == 0 {
        assert forall|x: ActionHash| #[trigger] listing.contains(x) <==> is_revision_below(
            log,
            h,
            n as int,
            x,
        ) by {}
    } else {
        let u = ups[n - 1];
        let before = descend(log, h, (n - 1) as nat);
        let rest = revisions_of(log, u);
        assert(ups.contains(u));
        assert(h.0 < u.0 < log.len());
        lemma_descend(log, h, (n - 1) as nat);
        lemma_revisions_of(log, u);
        assert(listing == before + rest);
        assert forall|x: ActionHash| #[trigger] listing.contains(x) <==> is_revision_below(
            log,
            h,
            n as int,
            x,
        ) by {
            lemma_concat_contains(before, rest, x);
            if before.contains(x) {
                let k = choose|k: int|
                    0 <= k < n - 1 && k < ups.len() && is_revision_of(log, #[trigger] ups[k], x);
                assert(0 <= k < n && is_revision_of(log, ups[k], x));
            }
            if rest.contains(x) {
                assert(is_revision_of(log, ups[n - 1], x));
            }
            if is_revision_below(log, h, n as int, x) {
                let k = choose|k: int|
                    0 <= k < n && k < ups.len() && is_revision_of(log, #[trigger] ups[k], x);
                if k < n - 1 {
                    assert(is_revision_below(log, h, n - 1, x));
                }
            }
        }
        assert forall|i: int, j: int| 0 <= i < j < listing.len() implies listing[i]
            != listing[j] by {
            if j < before.len() {
                assert(listing[i] == before[i] && listing[j] == before[j]);
            } else if i >= before.len() {
                assert(listing[i] == rest[i - before.len()] && listing[j] == rest[j
                    - before.len()]);
            } else {
                let x = before[i];
                let y = rest[j - before.len()];
                assert(before.contains(x));
                assert(rest.contains(y));
                if x == y {
                    let k = choose|k: int|
                        0 <= k < n - 1 && k < ups.len() && is_revision_of(
                            log,
                            #[trigger] ups[k],
                            x,
                        );
                    assert(ups.contains(ups[k]));
                    assert(ups[k].0 < ups[n - 1].0);
                    lemma_revisions_apart(log, h, ups[k], u, x);
                }
            }
        }
        assert forall|i: int| 0 <= i < listing.len() implies ups.contains(#[trigger] listing[i])
            || exists|j: int|
            0 <= j < i && supersedes(log, listing[i]) == Some(#[trigger] listing[j]) by {
            if i < before.len() {
                assert(listing[i] == before[i]);
                if !ups.contains(before[i]) {
                    let j = choose|j: int|
                        0 <= j < i && supersedes(log, before[i]) == Some(#[trigger] before[j]);
                    assert(listing[j] == before[j]);
                }
            } else {
                let i2 = i - before.len();
                assert(listing[i] == rest[i2]);
                if seq![u].contains(rest[i2]) {
                    let z = choose|z: int| 0 <= z < seq![u].len() && seq![u][z] == rest[i2];
                    assert(rest[i2] == u);
                } else {
                    let j = choose|j: int|
                        0 <= j < i2 && supersedes(log, rest[i2]) == Some(#[trigger] rest[j]);
                    assert(listing[j + before.len()] == rest[j]);
                }
            }
        }
    }
}

} // verus!
