//! The collections that a record belongs to by its state: upcoming, past and
//! cancelled events; open, expired and cancelled proposals.
//!
//! A collection is an anchor, and a record belongs to it while a live edge
//! leads from the anchor to the record. A record enters a collection by
//! leaving the others first and gaining an edge then. Nothing checks which
//! collection a record comes from: the caller decides which moves make sense.
//! Between the two steps the record is in no collection.

use vstd::prelude::*;
use crate::effects::{
    extends, lemma_reaches, lemma_reaches_after_link, lemma_reaches_after_removal,
    lemma_removal_instances, lemma_same_entries_after_link, lemma_same_entries_after_removal,
    reaches, same_entries,
};
use crate::hash::{ActionHash, AnyLinkableHash, EntryHash};
use crate::integrity::LinkTypes;
use crate::links::{find_instances, members as distinct, sort_by_recency, by_recency, distinct_targets};
use crate::log::{lemma_take_step, live_links, wf_log};
use crate::record::{Link, LinkTag, ScopedLinkType};
use crate::store::{Store, StoreView};

verus! {

/// A well-known anchor.
#[derive(Clone, Copy, Debug, PartialEq, Eq, Structural, Hash)]
pub enum Path {
    AllEvents,
    AllUpcomingEvents,
    AllPastEvents,
    AllCancelledEvents,
    AllOpenProposals,
    AllExpiredProposals,
    AllCancelledProposals,
}

impl Path {
    /// The anchor's identifier. Anchors take the top of the identifier space.
    pub open spec fn entry_hash(self) -> EntryHash {
        match self {
            Path::AllEvents => EntryHash(0xffff_ffff_ffff_ffff),
            Path::AllUpcomingEvents => EntryHash(0xffff_ffff_ffff_fffe),
            Path::AllPastEvents => EntryHash(0xffff_ffff_ffff_fffd),
            Path::AllCancelledEvents => EntryHash(0xffff_ffff_ffff_fffc),
            Path::AllOpenProposals => EntryHash(0xffff_ffff_ffff_fffb),
            Path::AllExpiredProposals => EntryHash(0xffff_ffff_ffff_fffa),
            Path::AllCancelledProposals => EntryHash(0xffff_ffff_ffff_fff9),
        }
    }

    /// The anchor as the base of its membership edges.
    pub open spec fn base(self) -> AnyLinkableHash {
        AnyLinkableHash::Entry(self.entry_hash())
    }

    /// The type of the edges that lead from the anchor to its members.
    pub open spec fn membership(self) -> LinkTypes {
        match self {
            Path::AllEvents => LinkTypes::AllEvents,
            Path::AllUpcomingEvents => LinkTypes::UpcomingEvents,
            Path::AllPastEvents => LinkTypes::PastEvents,
            Path::AllCancelledEvents => LinkTypes::CancelledEvents,
            Path::AllOpenProposals => LinkTypes::OpenProposals,
            Path::AllExpiredProposals => LinkTypes::ExpiredProposals,
            Path::AllCancelledProposals => LinkTypes::CancelledProposals,
        }
    }

    /// Whether the anchor is one of the six states of an event or a
    /// proposal, of which a record is in one at a time.
    pub open spec fn is_lifecycle(self) -> bool {
        self != Path::AllEvents
    }

    /// The anchor's identifier.
    pub fn path_entry_hash(&self) -> (r: EntryHash)
        ensures
            r == self.entry_hash(),
    {
        match self {
            Path::AllEvents => EntryHash(0xffff_ffff_ffff_ffff),
            Path::AllUpcomingEvents => EntryHash(0xffff_ffff_ffff_fffe),
            Path::AllPastEvents => EntryHash(0xffff_ffff_ffff_fffd),
            Path::AllCancelledEvents => EntryHash(0xffff_ffff_ffff_fffc),
            Path::AllOpenProposals => EntryHash(0xffff_ffff_ffff_fffb),
            Path::AllExpiredProposals => EntryHash(0xffff_ffff_ffff_fffa),
            Path::AllCancelledProposals => EntryHash(0xffff_ffff_ffff_fff9),
        }
    }

    /// The type of the edges that lead from the anchor to its members.
    pub fn link_type(&self) -> (r: LinkTypes)
        ensures
            r == self.membership(),
    {
        match self {
            Path::AllEvents => LinkTypes::AllEvents,
            Path::AllUpcomingEvents => LinkTypes::UpcomingEvents,
            Path::AllPastEvents => LinkTypes::PastEvents,
            Path::AllCancelledEvents => LinkTypes::CancelledEvents,
            Path::AllOpenProposals => LinkTypes::OpenProposals,
            Path::AllExpiredProposals => LinkTypes::ExpiredProposals,
            Path::AllCancelledProposals => LinkTypes::CancelledProposals,
        }
    }

    /// The well-known string that the anchor is derived from.
    pub fn key(&self) -> (r: &'static str)
        ensures
            r@ == (match self {
                Path::AllEvents => "all_events"@,
                Path::AllUpcomingEvents => "all_upcoming_events"@,
                Path::AllPastEvents => "all_past_events"@,
                Path::AllCancelledEvents => "all_cancelled_events"@,
                Path::AllOpenProposals => "all_open_proposals"@,
                Path::AllExpiredProposals => "all_expired_proposals"@,
                Path::AllCancelledProposals => "all_cancelled_proposals"@,
            }),
    {
        match self {
            Path::AllEvents => "all_events",
            Path::AllUpcomingEvents => "all_upcoming_events",
            Path::AllPastEvents => "all_past_events",
            Path::AllCancelledEvents => "all_cancelled_events",
            Path::AllOpenProposals => "all_open_proposals",
            Path::AllExpiredProposals => "all_expired_proposals",
            Path::AllCancelledProposals => "all_cancelled_proposals",
        }
    }
}

/// The six states of an event or a proposal.
pub open spec fn lifecycle() -> Seq<Path> {
    seq![
        Path::AllUpcomingEvents,
        Path::AllPastEvents,
        Path::AllCancelledEvents,
        Path::AllOpenProposals,
        Path::AllExpiredProposals,
        Path::AllCancelledProposals,
    ]
}

/// The anchors that a record leaves when it enters `target`: all six states
/// where `target` is one of them, else `target` alone.
pub open spec fn family(target: Path) -> Seq<Path> {
    if target.is_lifecycle() {
        lifecycle()
    } else {
        seq![target]
    }
}

/// Whether `record` belongs to the collection at `path`.
pub open spec fn holds(log: Seq<crate::record::Record>, path: Path, record: ActionHash) -> bool {
    reaches(log, path.base(), path.membership().scoped_spec(), record.linkable())
}

/// Whether `(b, t)` is the anchor and membership type of one of the first
/// `n` of `paths`.
pub open spec fn anchor_among(paths: Seq<Path>, n: int, b: AnyLinkableHash, t: ScopedLinkType) -> bool {
    exists|k: int|
        0 <= k < n && k < paths.len() && (#[trigger] paths[k]).base() == b
            && paths[k].membership().scoped_spec() == t
}

/// The store after `record` has left the first `n` of `paths`.
pub open spec fn left(s: StoreView, record: ActionHash, paths: Seq<Path>, n: nat) -> StoreView
    decreases n,
{
    if n == 0 {
        s
    } else {
        let p = paths[n - 1];
        left(s, record, paths, (n - 1) as nat).without_links_to(
            p.base(),
            p.membership().scoped_spec(),
            record.linkable(),
        )
    }
}

/// The store after `record` has entered the collection at `target`: it has
/// left the anchors of the target's family, then gained an edge from the
/// target.
pub open spec fn assigned(s: StoreView, record: ActionHash, target: Path) -> StoreView {
    left(s, record, family(target), family(target).len()).with_link(
        target.base(),
        record.linkable(),
        target.membership().scoped_spec(),
        LinkTag::Unit,
    )
}

/// Whether the lifecycle defines the move from `from` to `to`: an open
/// proposal becomes an upcoming event, expires or is cancelled; an upcoming
/// event passes or is cancelled; what was cancelled is taken up again.
/// Nothing follows a past event or an expired proposal.
pub open spec fn transition(from: Path, to: Path) -> bool {
    match (from, to) {
        (Path::AllOpenProposals, Path::AllUpcomingEvents) => true,
        (Path::AllOpenProposals, Path::AllExpiredProposals) => true,
        (Path::AllOpenProposals, Path::AllCancelledProposals) => true,
        (Path::AllUpcomingEvents, Path::AllPastEvents) => true,
        (Path::AllUpcomingEvents, Path::AllCancelledEvents) => true,
        (Path::AllCancelledEvents, Path::AllUpcomingEvents) => true,
        (Path::AllCancelledProposals, Path::AllOpenProposals) => true,
        _ => false,
    }
}

/// Whether the lifecycle defines the move from `from` to `to`. The engine
/// moves a record wherever it is told to: a caller that wants only the
/// defined moves asks here first.
pub fn is_transition(from: Path, to: Path) -> (r: bool)
    ensures
        r == transition(from, to),
{
    match (from, to) {
        (Path::AllOpenProposals, Path::AllUpcomingEvents) => true,
        (Path::AllOpenProposals, Path::AllExpiredProposals) => true,
        (Path::AllOpenProposals, Path::AllCancelledProposals) => true,
        (Path::AllUpcomingEvents, Path::AllPastEvents) => true,
        (Path::AllUpcomingEvents, Path::AllCancelledEvents) => true,
        (Path::AllCancelledEvents, Path::AllUpcomingEvents) => true,
        (Path::AllCancelledProposals, Path::AllOpenProposals) => true,
        _ => false,
    }
}

/// The anchor of the upcoming events.
pub fn all_upcoming_events() -> (r: Path)
    ensures
        r == Path::AllUpcomingEvents,
{
    Path::AllUpcomingEvents
}

/// The anchor of the cancelled events.
pub fn all_cancelled_events() -> (r: Path)
    ensures
        r == Path::AllCancelledEvents,
{
    Path::AllCancelledEvents
}

/// The anchor of the past events.
pub fn all_past_events() -> (r: Path)
    ensures
        r == Path::AllPastEvents,
{
    Path::AllPastEvents
}

/// The anchor of the open proposals.
pub fn all_open_proposals() -> (r: Path)
    ensures
        r == Path::AllOpenProposals,
{
    Path::AllOpenProposals
}

/// The anchor of the expired proposals.
pub fn all_expired_proposals() -> (r: Path)
    ensures
        r == Path::AllExpiredProposals,
{
    Path::AllExpiredProposals
}

/// The anchor of the cancelled proposals.
pub fn all_cancelled_proposals() -> (r: Path)
    ensures
        r == Path::AllCancelledProposals,
{
    Path::AllCancelledProposals
}

/// The anchors that a record leaves when it enters `target`.
pub fn family_of(target: Path) -> (r: Vec<Path>)
    ensures
        r@ == family(target),
{
    let mut out: Vec<Path> = Vec::new();
    match target {
        Path::AllEvents => {
            out.push(Path::AllEvents);
            proof {
                assert(out@ =~= family(target));
            }
        },
        _ => {
            out.push(Path::AllUpcomingEvents);
            out.push(Path::AllPastEvents);
            out.push(Path::AllCancelledEvents);
            out.push(Path::AllOpenProposals);
            out.push(Path::AllExpiredProposals);
            out.push(Path::AllCancelledProposals);
            proof {
                assert(out@ =~= family(target));
            }
        },
    }
    out
}

/// The live edges of type `link_type` from the anchor at `path`, newest first.
pub fn get_from_path(store: &Store, path: Path, link_type: LinkTypes) -> (r: Vec<Link>)
    ensures
        r@ == by_recency(live_links(store@.log, path.base(), link_type.scoped_spec())),
{
    let links = store.get_links(path.path_entry_hash().into_linkable(), link_type.scoped());
    sort_by_recency(&links)
}

/// Takes `hash` out of the collection at `path`: every live edge of type
/// `link_type` that leads from the anchor to `hash` is tombstoned, oldest
/// first. Where there is none the store stays as it is.
pub fn remove_from_collection(store: &mut Store, hash: &ActionHash, path: Path, link_type: LinkTypes)
    requires
        old(store).wf(),
    ensures
        final(store).wf(),
        final(store)@ == old(store)@.without_links_to(
            path.base(),
            link_type.scoped_spec(),
            hash.linkable(),
        ),
        extends(old(store)@.log, final(store)@.log),
        same_entries(old(store)@.log, final(store)@.log),
        final(store)@.same_setting(old(store)@),
        forall|b: AnyLinkableHash, t: ScopedLinkType, x: AnyLinkableHash| #[trigger]
            reaches(final(store)@.log, b, t, x) <==> (reaches(old(store)@.log, b, t, x) && !(b
                == path.base() && t == link_type.scoped_spec() && x == hash.linkable())),
{
    let base = path.path_entry_hash().into_linkable();
    let scoped = link_type.scoped();
    let target = hash.into_linkable();
    remove_links_to(store, base, scoped, target);
}

/// Tombstones every live edge of type `link_type` that leads from `base` to
/// `target`, oldest first.
pub fn remove_links_to(
    store: &mut Store,
    base: AnyLinkableHash,
    link_type: ScopedLinkType,
    target: AnyLinkableHash,
)
    requires
        old(store).wf(),
    ensures
        final(store).wf(),
        final(store)@ == old(store)@.without_links_to(base, link_type, target),
        extends(old(store)@.log, final(store)@.log),
        same_entries(old(store)@.log, final(store)@.log),
        final(store)@.same_setting(old(store)@),
        forall|b: AnyLinkableHash, t: ScopedLinkType, x: AnyLinkableHash| #[trigger]
            reaches(final(store)@.log, b, t, x) <==> (reaches(old(store)@.log, b, t, x) && !(b
                == base && t == link_type && x == target)),
{
    let ghost before = store@;
    let links = store.get_links(base, link_type);
    let instances = find_instances(&links, target);
    proof {
        lemma_removal_instances(before, base, link_type, target);
    }
    let mut i: usize = 0;
    while i < instances.len()
        invariant
            i <= instances@.len(),
            store.wf(),
            wf_log(before.log),
            store@ == before.with_link_tombstones(instances@.take(i as int)),
            store@.same_setting(before),
            extends(before.log, store@.log),
            store@.log.len() == before.log.len() + i,
            forall|k: int|
                0 <= k < instances@.len() ==> crate::log::is_link_commit(
                    before.log,
                    #[trigger] instances@[k],
                ),
        decreases instances@.len() - i,
    {
        proof {
            lemma_take_step(instances@, i as int);
            assert(crate::log::is_link_commit(before.log, instances@[i as int]));
            assert(store@.log[instances@[i as int].0 as int] == before.log[instances@[i as int].0 as int]);
        }
        let _ = store.delete_link(instances[i]);
        i = i + 1;
    }
    let n = store.len();
    proof {
        assert(instances@.take(i as int) =~= instances@);
        lemma_same_entries_after_removal(before, base, link_type, target);
        assert forall|b: AnyLinkableHash, t: ScopedLinkType, x: AnyLinkableHash| #[trigger]
            reaches(store@.log, b, t, x) <==> (reaches(before.log, b, t, x) && !(b == base && t
                == link_type && x == target)) by {
            lemma_reaches_after_removal(before, base, link_type, target, b, t, x);
        }
    }
}

/// The anchor with the identifier `b` whose membership edges have the
/// type `t`, if there is one.
pub open spec fn anchor_at(b: AnyLinkableHash, t: ScopedLinkType) -> Option<Path> {
    if b == Path::AllEvents.base() && t == LinkTypes::AllEvents.scoped_spec() {
        Some(Path::AllEvents)
    } else if b == Path::AllUpcomingEvents.base() && t == LinkTypes::UpcomingEvents.scoped_spec() {
        Some(Path::AllUpcomingEvents)
    } else if b == Path::AllPastEvents.base() && t == LinkTypes::PastEvents.scoped_spec() {
        Some(Path::AllPastEvents)
    } else if b == Path::AllCancelledEvents.base() && t
        == LinkTypes::CancelledEvents.scoped_spec() {
        Some(Path::AllCancelledEvents)
    } else if b == Path::AllOpenProposals.base() && t == LinkTypes::OpenProposals.scoped_spec() {
        Some(Path::AllOpenProposals)
    } else if b == Path::AllExpiredProposals.base() && t
        == LinkTypes::ExpiredProposals.scoped_spec() {
        Some(Path::AllExpiredProposals)
    } else if b == Path::AllCancelledProposals.base() && t
        == LinkTypes::CancelledProposals.scoped_spec() {
        Some(Path::AllCancelledProposals)
    } else {
        None
    }
}

/// Whether the two anchors are of one family: both among the six states,
/// or both the anchor of all events.
pub open spec fn same_family(p: Path, q: Path) -> bool {
    p.is_lifecycle() == q.is_lifecycle()
}

/// Whether `(b, t)` is an anchor of the family of `target` with the type of
/// its membership edges.
pub open spec fn in_family_of(target: Path, b: AnyLinkableHash, t: ScopedLinkType) -> bool {
    anchor_at(b, t) matches Some(p) && same_family(p, target)
}

/// What it means that `record` has entered the collection at `target`: of
/// the anchors of the target's family, `target` alone holds the record; and
/// whatever else was reached from anywhere, and nothing more, still is.
pub open spec fn moved(
    before: Seq<crate::record::Record>,
    after: Seq<crate::record::Record>,
    record: ActionHash,
    target: Path,
) -> bool {
    &&& forall|p: Path|
        same_family(p, target) ==> (#[trigger] holds(after, p, record) <==> p == target)
    &&& forall|b: AnyLinkableHash, t: ScopedLinkType, x: AnyLinkableHash|
        !(x == record.linkable() && in_family_of(target, b, t)) ==> (#[trigger] reaches(
            after,
            b,
            t,
            x,
        ) <==> reaches(before, b, t, x))
}

/// The anchors of a family are the anchors that are listed for it.
pub proof fn lemma_in_family(target: Path, b: AnyLinkableHash, t: ScopedLinkType)
    ensures
        anchor_among(family(target), family(target).len() as int, b, t) <==> in_family_of(
            target,
            b,
            t,
        ),
        forall|p: Path| #[trigger] family(target).contains(p) <==> same_family(p, target),
        forall|p: Path| #[trigger]
            anchor_at(p.base(), p.membership().scoped_spec()) == Some(p),
{
    let paths = family(target);
    lemma_family(target);
    assert(lifecycle()[0] == Path::AllUpcomingEvents);
    assert(lifecycle()[1] == Path::AllPastEvents);
    assert(lifecycle()[2] == Path::AllCancelledEvents);
    assert(lifecycle()[3] == Path::AllOpenProposals);
    assert(lifecycle()[4] == Path::AllExpiredProposals);
    assert(lifecycle()[5] == Path::AllCancelledProposals);
    if anchor_among(paths, paths.len() as int, b, t) {
        let k = choose|k: int|
            0 <= k < paths.len() && k < paths.len() && (#[trigger] paths[k]).base() == b
                && paths[k].membership().scoped_spec() == t;
        assert(anchor_at(b, t) == Some(paths[k]));
        assert(paths.contains(paths[k]));
    }
    if in_family_of(target, b, t) {
        let p = anchor_at(b, t)->Some_0;
        assert(paths.contains(p));
        let k = choose|k: int| 0 <= k < paths.len() && paths[k] == p;
        assert(paths[k].base() == b);
    }
    assert forall|p: Path| #[trigger] paths.contains(p) <==> same_family(p, target) by {
        if paths.contains(p) {
            let k = choose|k: int| 0 <= k < paths.len() && paths[k] == p;
        }
    }
}

/// Lets `record` enter the collection at `target`: the record leaves every
/// anchor of the target's family, then gains an edge from the target.
pub fn assign(store: &mut Store, record: ActionHash, target: Path)
    requires
        old(store).wf(),
    ensures
        final(store).wf(),
        final(store)@ == assigned(old(store)@, record, target),
        extends(old(store)@.log, final(store)@.log),
        same_entries(old(store)@.log, final(store)@.log),
        final(store)@.same_setting(old(store)@),
        moved(old(store)@.log, final(store)@.log, record, target),
{
    let ghost before = store@;
    let paths = family_of(target);
    let mut i: usize = 0;
    while i < paths.len()
        invariant
            i <= paths@.len(),
            paths@ == family(target),
            store.wf(),
            store@ == left(before, record, paths@, i as nat),
            store@.same_setting(before),
            extends(before.log, store@.log),
            same_entries(before.log, store@.log),
            forall|b: AnyLinkableHash, t: ScopedLinkType, x: AnyLinkableHash| #[trigger]
                reaches(store@.log, b, t, x) <==> (reaches(before.log, b, t, x) && !(x
                    == record.linkable() && anchor_among(paths@, i as int, b, t))),
        decreases paths@.len() - i,
    {
        let ghost mid = store@;
        let p = paths[i];
        remove_links_to(
            store,
            p.path_entry_hash().into_linkable(),
            p.link_type().scoped(),
            record.into_linkable(),
        );
        proof {
            assert forall|b: AnyLinkableHash, t: ScopedLinkType, x: AnyLinkableHash| #[trigger]
                reaches(store@.log, b, t, x) <==> (reaches(before.log, b, t, x) && !(x
                    == record.linkable() && anchor_among(paths@, i + 1, b, t))) by {
                if anchor_among(paths@, i as int, b, t) {
                    let k = choose|k: int|
                        0 <= k < i && k < paths@.len() && (#[trigger] paths@[k]).base() == b
                            && paths@[k].membership().scoped_spec() == t;
                    assert(0 <= k < i + 1 && paths@[k].base() == b);
                }
                if b == p.base() && t == p.membership().scoped_spec() {
                    assert(paths@[i as int].base() == b);
                    assert(anchor_among(paths@, i + 1, b, t));
                }
                if anchor_among(paths@, i + 1, b, t) {
                    let k = choose|k: int|
                        0 <= k < i + 1 && k < paths@.len() && (#[trigger] paths@[k]).base() == b
                            && paths@[k].membership().scoped_spec() == t;
                    if k < i {
                        assert(anchor_among(paths@, i as int, b, t));
                    }
                }
                assert(reaches(store@.log, b, t, x) <==> (reaches(mid.log, b, t, x) && !(b
                    == p.base() && t == p.membership().scoped_spec() && x
                    == record.linkable())));
            }
        }
        i = i + 1;
    }
    let ghost mid = store@;
    store.create_link(
        target.path_entry_hash().into_linkable(),
        record.into_linkable(),
        target.link_type().scoped(),
        LinkTag::Unit,
    );
    let n = store.len();
    proof {
        lemma_same_entries_after_link(
            mid,
            target.base(),
            record.linkable(),
            target.membership().scoped_spec(),
            LinkTag::Unit,
        );
        assert forall|b: AnyLinkableHash, t: ScopedLinkType, x: AnyLinkableHash|
            !(x == record.linkable() && in_family_of(target, b, t)) implies (#[trigger] reaches(
            store@.log,
            b,
            t,
            x,
        ) <==> reaches(before.log, b, t, x)) by {
            lemma_reaches_after_link(
                mid,
                target.base(),
                record.linkable(),
                target.membership().scoped_spec(),
                LinkTag::Unit,
                b,
                t,
                x,
            );
            lemma_in_family(target, b, t);
            lemma_in_family(target, target.base(), target.membership().scoped_spec());
        }
        assert forall|p: Path| same_family(p, target) implies (#[trigger] holds(
            store@.log,
            p,
            record,
        ) <==> p == target) by {
            lemma_reaches_after_link(
                mid,
                target.base(),
                record.linkable(),
                target.membership().scoped_spec(),
                LinkTag::Unit,
                p.base(),
                p.membership().scoped_spec(),
                record.linkable(),
            );
            lemma_in_family(target, p.base(), p.membership().scoped_spec());
        }
    }
}

/// An anchor's family holds the anchor.
pub proof fn lemma_family(target: Path)
    ensures
        family(target).contains(target),
        forall|p: Path| family(target).contains(p) ==> family(p) == family(target),
        forall|p: Path| p.is_lifecycle() ==> #[trigger] lifecycle().contains(p),
{
    assert(lifecycle()[0] == Path::AllUpcomingEvents);
    assert(lifecycle()[1] == Path::AllPastEvents);
    assert(lifecycle()[2] == Path::AllCancelledEvents);
    assert(lifecycle()[3] == Path::AllOpenProposals);
    assert(lifecycle()[4] == Path::AllExpiredProposals);
    assert(lifecycle()[5] == Path::AllCancelledProposals);
    assert(seq![Path::AllEvents][0] == Path::AllEvents);
}

/// The upcoming events, newest first.
pub fn get_all_upcoming_events(store: &Store) -> (r: Vec<Link>)
    ensures
        r@ == by_recency(
            live_links(store@.log, Path::AllUpcomingEvents.base(), LinkTypes::UpcomingEvents.scoped_spec()),
        ),
{
    get_from_path(store, all_upcoming_events(), LinkTypes::UpcomingEvents)
}

/// The cancelled events, newest first.
pub fn get_all_cancelled_events(store: &Store) -> (r: Vec<Link>)
    ensures
        r@ == by_recency(
            live_links(
                store@.log,
                Path::AllCancelledEvents.base(),
                LinkTypes::CancelledEvents.scoped_spec(),
            ),
        ),
{
    get_from_path(store, all_cancelled_events(), LinkTypes::CancelledEvents)
}

/// The past events, newest first.
pub fn get_all_past_events(store: &Store) -> (r: Vec<Link>)
    ensures
        r@ == by_recency(
            live_links(store@.log, Path::AllPastEvents.base(), LinkTypes::PastEvents.scoped_spec()),
        ),
{
    get_from_path(store, all_past_events(), LinkTypes::PastEvents)
}

/// The open proposals, newest first.
pub fn get_all_open_proposals(store: &Store) -> (r: Vec<Link>)
    ensures
        r@ == by_recency(
            live_links(
                store@.log,
                Path::AllOpenProposals.base(),
                LinkTypes::OpenProposals.scoped_spec(),
            ),
        ),
{
    get_from_path(store, all_open_proposals(), LinkTypes::OpenProposals)
}

/// The expired proposals, newest first.
pub fn get_all_expired_proposals(store: &Store) -> (r: Vec<Link>)
    ensures
        r@ == by_recency(
            live_links(
                store@.log,
                Path::AllExpiredProposals.base(),
                LinkTypes::ExpiredProposals.scoped_spec(),
            ),
        ),
{
    get_from_path(store, all_expired_proposals(), LinkTypes::ExpiredProposals)
}

/// The cancelled proposals, newest first.
pub fn get_all_cancelled_proposals(store: &Store) -> (r: Vec<Link>)
    ensures
        r@ == by_recency(
            live_links(
                store@.log,
                Path::AllCancelledProposals.base(),
                LinkTypes::CancelledProposals.scoped_spec(),
            ),
        ),
{
    get_from_path(store, all_cancelled_proposals(), LinkTypes::CancelledProposals)
}

/// Moves an event to the past events.
pub fn mark_event_as_past(store: &mut Store, event_hash: ActionHash)
    requires
        old(store).wf(),
    ensures
        final(store).wf(),
        final(store)@ == assigned(old(store)@, event_hash, Path::AllPastEvents),
        extends(old(store)@.log, final(store)@.log),
        same_entries(old(store)@.log, final(store)@.log),
        final(store)@.same_setting(old(store)@),
        moved(old(store)@.log, final(store)@.log, event_hash, Path::AllPastEvents),
{
    assign(store, event_hash, all_past_events());
}

/// Moves an event to the cancelled events.
pub fn mark_event_as_cancelled(store: &mut Store, event_hash: ActionHash)
    requires
        old(store).wf(),
    ensures
        final(store).wf(),
        final(store)@ == assigned(old(store)@, event_hash, Path::AllCancelledEvents),
        extends(old(store)@.log, final(store)@.log),
        same_entries(old(store)@.log, final(store)@.log),
        final(store)@.same_setting(old(store)@),
        moved(old(store)@.log, final(store)@.log, event_hash, Path::AllCancelledEvents),
{
    assign(store, event_hash, all_cancelled_events());
}

/// Moves an event to the upcoming events.
pub fn mark_event_as_upcoming(store: &mut Store, event_hash: ActionHash)
    requires
        old(store).wf(),
    ensures
        final(store).wf(),
        final(store)@ == assigned(old(store)@, event_hash, Path::AllUpcomingEvents),
        extends(old(store)@.log, final(store)@.log),
        same_entries(old(store)@.log, final(store)@.log),
        final(store)@.same_setting(old(store)@),
        moved(old(store)@.log, final(store)@.log, event_hash, Path::AllUpcomingEvents),
{
    assign(store, event_hash, all_upcoming_events());
}

/// Moves a proposal to the open proposals.
pub fn mark_proposal_as_open(store: &mut Store, proposal_hash: ActionHash)
    requires
        old(store).wf(),
    ensures
        final(store).wf(),
        final(store)@ == assigned(old(store)@, proposal_hash, Path::AllOpenProposals),
        extends(old(store)@.log, final(store)@.log),
        same_entries(old(store)@.log, final(store)@.log),
        final(store)@.same_setting(old(store)@),
        moved(old(store)@.log, final(store)@.log, proposal_hash, Path::AllOpenProposals),
{
    assign(store, proposal_hash, all_open_proposals());
}

/// Moves a proposal to the expired proposals.
pub fn mark_proposal_as_expired(store: &mut Store, proposal_hash: ActionHash)
    requires
        old(store).wf(),
    ensures
        final(store).wf(),
        final(store)@ == assigned(old(store)@, proposal_hash, Path::AllExpiredProposals),
        extends(old(store)@.log, final(store)@.log),
        same_entries(old(store)@.log, final(store)@.log),
        final(store)@.same_setting(old(store)@),
        moved(old(store)@.log, final(store)@.log, proposal_hash, Path::AllExpiredProposals),
{
    assign(store, proposal_hash, all_expired_proposals());
}

/// Moves a proposal to the cancelled proposals.
pub fn mark_proposal_as_cancelled(store: &mut Store, proposal_hash: ActionHash)
    requires
        old(store).wf(),
    ensures
        final(store).wf(),
        final(store)@ == assigned(old(store)@, proposal_hash, Path::AllCancelledProposals),
        extends(old(store)@.log, final(store)@.log),
        same_entries(old(store)@.log, final(store)@.log),
        final(store)@.same_setting(old(store)@),
        moved(old(store)@.log, final(store)@.log, proposal_hash, Path::AllCancelledProposals),
{
    assign(store, proposal_hash, all_cancelled_proposals());
}

/// The members of the collection at `path`: each once, however many edges
/// lead to it, in the order in which they entered.
pub fn members(store: &Store, path: Path) -> (r: Vec<AnyLinkableHash>)
    requires
        store.wf(),
    ensures
        r@ == distinct_targets(live_links(store@.log, path.base(), path.membership().scoped_spec())),
        r@.no_duplicates(),
        forall|x: AnyLinkableHash| #[trigger]
            r@.contains(x) <==> reaches(store@.log, path.base(), path.membership().scoped_spec(), x),
{
    let links = store.get_links(path.path_entry_hash().into_linkable(), path.link_type().scoped());
    let out = distinct(&links);
    proof {
        assert forall|x: AnyLinkableHash| #[trigger]
            out@.contains(x) <==> reaches(
                store@.log,
                path.base(),
                path.membership().scoped_spec(),
                x,
            ) by {
            lemma_reaches(store@.log, path.base(), path.membership().scoped_spec(), x);
        }
    }
    out
}

/// Whether `record` belongs to the collection at `path`.
pub fn is_member(store: &Store, path: Path, record: ActionHash) -> (r: bool)
    requires
        store.wf(),
    ensures
        r == holds(store@.log, path, record),
{
    let all = members(store, path);
    crate::links::contains_target(&all, record.into_linkable())
}

/// The first `n` of the seven anchors in whose collection `record` is.
pub open spec fn anchors_holding(log: Seq<crate::record::Record>, record: ActionHash, n: nat) -> Seq<
    Path,
>
    decreases n,
{
    if n == 0 || n > 7 {
        Seq::empty()
    } else {
        let prev = anchors_holding(log, record, (n - 1) as nat);
        if holds(log, all_paths()[n - 1], record) {
            prev.push(all_paths()[n - 1])
        } else {
            prev
        }
    }
}

/// An anchor is listed exactly when it is among the first `n` and holds the
/// record.
pub proof fn lemma_anchors_holding(log: Seq<crate::record::Record>, record: ActionHash, n: nat)
    requires
        n <= 7,
    ensures
        forall|p: Path| #[trigger]
            anchors_holding(log, record, n).contains(p) <==> (holds(log, p, record) && exists|
                k: int,
            | 0 <= k < n && all_paths()[k] == p),
    decreases n,
{
    if n == 0 {
        assert forall|p: Path| #[trigger]
            anchors_holding(log, record, n).contains(p) <==> (holds(log, p, record) && exists|
                k: int,
            | 0 <= k < n && all_paths()[k] == p) by {}
    } else {
        lemma_anchors_holding(log, record, (n - 1) as nat);
        let prev = anchors_holding(log, record, (n - 1) as nat);
        let last = all_paths()[n - 1];
        assert forall|p: Path| #[trigger]
            anchors_holding(log, record, n).contains(p) <==> (holds(log, p, record) && exists|
                k: int,
            | 0 <= k < n && all_paths()[k] == p) by {
            crate::log::lemma_push_contains(prev, last, p);
            if exists|k: int| 0 <= k < n - 1 && all_paths()[k] == p {
                let k = choose|k: int| 0 <= k < n - 1 && all_paths()[k] == p;
                assert(0 <= k < n && all_paths()[k] == p);
            }
            if p == last {
                assert(all_paths()[n - 1] == p);
            }
            if exists|k: int| 0 <= k < n && all_paths()[k] == p {
                let k = choose|k: int| 0 <= k < n && all_paths()[k] == p;
                if k < n - 1 {
                    assert(exists|k: int| 0 <= k < n - 1 && all_paths()[k] == p);
                }
            }
        }
    }
}

/// The anchors among all seven in whose collection `record` is, in the
/// order: all events, then upcoming, past and cancelled events, then open,
/// expired and cancelled proposals.
pub fn current_anchors(store: &Store, record: ActionHash) -> (r: Vec<Path>)
    requires
        store.wf(),
    ensures
        r@ == anchors_holding(store@.log, record, 7),
        forall|p: Path| #[trigger] r@.contains(p) <==> holds(store@.log, p, record),
{
    let mut out: Vec<Path> = Vec::new();
    let mut i: usize = 0;
    while i < 7
        invariant
            i <= 7,
            store.wf(),
            out@ == anchors_holding(store@.log, record, i as nat),
        decreases 7 - i,
    {
        let p = path_at(i);
        if is_member(store, p, record) {
            out.push(p);
        }
        i = i + 1;
    }
    proof {
        lemma_anchors_holding(store@.log, record, 7);
        assert forall|p: Path| #[trigger] out@.contains(p) <==> holds(store@.log, p, record) by {
            lemma_all_paths(p);
            let k = choose|k: int| 0 <= k < all_paths().len() && all_paths()[k] == p;
            assert(0 <= k < 7 && all_paths()[k] == p);
        }
    }
    out
}

/// All seven anchors.
pub open spec fn all_paths() -> Seq<Path> {
    seq![
        Path::AllEvents,
        Path::AllUpcomingEvents,
        Path::AllPastEvents,
        Path::AllCancelledEvents,
        Path::AllOpenProposals,
        Path::AllExpiredProposals,
        Path::AllCancelledProposals,
    ]
}

/// Every anchor is one of the seven.
pub proof fn lemma_all_paths(p: Path)
    ensures
        all_paths().contains(p),
{
    assert(all_paths()[0] == Path::AllEvents);
    assert(all_paths()[1] == Path::AllUpcomingEvents);
    assert(all_paths()[2] == Path::AllPastEvents);
    assert(all_paths()[3] == Path::AllCancelledEvents);
    assert(all_paths()[4] == Path::AllOpenProposals);
    assert(all_paths()[5] == Path::AllExpiredProposals);
    assert(all_paths()[6] == Path::AllCancelledProposals);
}

/// The `i`-th of the seven anchors.
pub fn path_at(i: usize) -> (r: Path)
    requires
        i < 7,
    ensures
        r == all_paths()[i as int],
{
    if i == 0 {
        Path::AllEvents
    } else if i == 1 {
        Path::AllUpcomingEvents
    } else if i == 2 {
        Path::AllPastEvents
    } else if i == 3 {
        Path::AllCancelledEvents
    } else if i == 4 {
        Path::AllOpenProposals
    } else if i == 5 {
        Path::AllExpiredProposals
    } else {
        Path::AllCancelledProposals
    }
}

} // verus!
