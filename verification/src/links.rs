//! Decisions over a list of edges: which instance is the newest, which
//! instances point to a given target, which targets are distinct, and in what
//! order the edges are shown.

use vstd::prelude::*;
use crate::hash::{ActionHash, AgentPubKey, AnyDhtHash, AnyLinkableHash};
use crate::log::{lemma_push_contains, lemma_take_step};
use crate::record::Link;
use vstd::seq_lib::to_multiset_remove;

verus! {

/// Whether `a` is at least as new as `b`: committed later, or at the same
/// time by a commit with an identifier at least as large.
pub open spec fn at_least_as_new(a: Link, b: Link) -> bool {
    a.timestamp.0 > b.timestamp.0 || (a.timestamp.0 == b.timestamp.0 && a.create_link_hash.0
        >= b.create_link_hash.0)
}

/// The newest edge of `links`: the last one of those that are at least as new
/// as every other.
pub open spec fn newest(links: Seq<Link>) -> Option<Link>
    decreases links.len(),
{
    if links.len() == 0 {
        None
    } else {
        match newest(links.drop_last()) {
            None => Some(links.last()),
            Some(m) => if at_least_as_new(links.last(), m) {
                Some(links.last())
            } else {
                Some(m)
            },
        }
    }
}

/// The newest edge is one of the edges, and none is newer.
pub proof fn lemma_newest(links: Seq<Link>)
    ensures
        newest(links) is None <==> links.len() == 0,
        newest(links) matches Some(m) ==> links.contains(m) && forall|k: int|
            0 <= k < links.len() ==> at_least_as_new(m, #[trigger] links[k]),
    decreases links.len(),
{
    if links.len() > 0 {
        let dl = links.drop_last();
        lemma_newest(dl);
        let m = newest(links)->Some_0;
        assert(links == dl.push(links.last()));
        lemma_push_contains(dl, links.last(), m);
        assert forall|k: int| 0 <= k < links.len() implies at_least_as_new(
            m,
            #[trigger] links[k],
        ) by {
            if k < dl.len() {
                assert(dl[k] == links[k]);
            }
        }
    }
}

/// Where timestamps grow strictly along the list, the newest edge is the last.
pub proof fn lemma_newest_of_increasing(links: Seq<Link>)
    requires
        links.len() > 0,
        forall|a: int, b: int|
            0 <= a < b < links.len() ==> (#[trigger] links[a]).timestamp.0 < (
            #[trigger] links[b]).timestamp.0,
    ensures
        newest(links) == Some(links.last()),
{
    let dl = links.drop_last();
    lemma_newest(dl);
    if dl.len() > 0 {
        let m = newest(dl)->Some_0;
        let i = choose|i: int| 0 <= i < dl.len() && dl[i] == m;
        assert(links[i] == m);
        assert(links[links.len() - 1] == links.last());
    }
}

/// The newest edge of `links`, if there is any edge.
pub fn latest_link(links: &Vec<Link>) -> (r: Option<Link>)
    ensures
        r == newest(links@),
        r is None <==> links@.len() == 0,
        r matches Some(m) ==> links@.contains(m) && forall|k: int|
            0 <= k < links@.len() ==> at_least_as_new(m, #[trigger] links@[k]),
{
    let mut best: Option<Link> = None;
    let mut i: usize = 0;
    while i < links.len()
        invariant
            i <= links@.len(),
            best == newest(links@.take(i as int)),
        decreases links@.len() - i,
    {
        proof {
            lemma_take_step(links@, i as int);
        }
        let candidate = links[i];
        best =
        match best {
            None => Some(candidate),
            Some(m) => {
                if candidate.timestamp.0 > m.timestamp.0 || (candidate.timestamp.0
                    == m.timestamp.0 && candidate.create_link_hash.0 >= m.create_link_hash.0) {
                    Some(candidate)
                } else {
                    Some(m)
                }
            },
        };
        i = i + 1;
    }
    proof {
        assert(links@.take(i as int) =~= links@);
        lemma_newest(links@);
    }
    best
}

/// The commits that created the edges of `links` that point to `target`, in
/// the order of the list.
pub open spec fn instances_to(links: Seq<Link>, target: AnyLinkableHash) -> Seq<ActionHash>
    decreases links.len(),
{
    if links.len() == 0 {
        Seq::empty()
    } else {
        let prev = instances_to(links.drop_last(), target);
        if links.last().target == target {
            prev.push(links.last().create_link_hash)
        } else {
            prev
        }
    }
}

/// An instance is selected exactly when one of the edges that point to the
/// target was created by it.
pub proof fn lemma_instances_to(links: Seq<Link>, target: AnyLinkableHash)
    ensures
        forall|h: ActionHash| #[trigger]
            instances_to(links, target).contains(h) <==> exists|k: int|
                0 <= k < links.len() && (#[trigger] links[k]).target == target
                    && links[k].create_link_hash == h,
        instances_to(links, target).len() <= links.len(),
    decreases links.len(),
{
    if links.len() == 0 {
        assert forall|h: ActionHash| #[trigger]
            instances_to(links, target).contains(h) <==> exists|k: int|
                0 <= k < links.len() && (#[trigger] links[k]).target == target
                    && links[k].create_link_hash == h by {}
    } else {
        let dl = links.drop_last();
        let last = links.last();
        lemma_instances_to(dl, target);
        let prev = instances_to(dl, target);
        let cur = instances_to(links, target);
        assert forall|h: ActionHash| #[trigger]
            cur.contains(h) <==> exists|k: int|
                0 <= k < links.len() && (#[trigger] links[k]).target == target
                    && links[k].create_link_hash == h by {
            lemma_push_contains(prev, last.create_link_hash, h);
            if prev.contains(h) {
                let k = choose|k: int|
                    0 <= k < dl.len() && (#[trigger] dl[k]).target == target
                        && dl[k].create_link_hash == h;
                assert(links[k] == dl[k]);
            }
            if last.target == target && last.create_link_hash == h {
                assert(links[links.len() - 1] == last);
            }
            if exists|k: int|
                0 <= k < links.len() && (#[trigger] links[k]).target == target
                    && links[k].create_link_hash == h {
                let k = choose|k: int|
                    0 <= k < links.len() && (#[trigger] links[k]).target == target
                        && links[k].create_link_hash == h;
                if k < dl.len() {
                    assert(dl[k] == links[k]);
                }
            }
        }
    }
}

/// The edge instances of `links` that point to `target`: the ones to
/// tombstone so that the target is no longer reached.
pub fn find_instances(links: &Vec<Link>, target: AnyLinkableHash) -> (r: Vec<ActionHash>)
    ensures
        r@ == instances_to(links@, target),
{
    let mut out: Vec<ActionHash> = Vec::new();
    let mut i: usize = 0;
    while i < links.len()
        invariant
            i <= links@.len(),
            out@ == instances_to(links@.take(i as int), target),
        decreases links@.len() - i,
    {
        proof {
            lemma_take_step(links@, i as int);
        }
        if links[i].target == target {
            out.push(links[i].create_link_hash);
        }
        i = i + 1;
    }
    proof {
        assert(links@.take(i as int) =~= links@);
    }
    out
}

/// The targets of `links`, each once, in the order in which they first occur.
pub open spec fn distinct_targets(links: Seq<Link>) -> Seq<AnyLinkableHash>
    decreases links.len(),
{
    if links.len() == 0 {
        Seq::empty()
    } else {
        let prev = distinct_targets(links.drop_last());
        if prev.contains(links.last().target) {
            prev
        } else {
            prev.push(links.last().target)
        }
    }
}

/// The distinct targets are the targets of the edges, and none occurs twice.
pub proof fn lemma_distinct_targets(links: Seq<Link>)
    ensures
        distinct_targets(links).no_duplicates(),
        forall|t: AnyLinkableHash| #[trigger]
            distinct_targets(links).contains(t) <==> exists|k: int|
                0 <= k < links.len() && (#[trigger] links[k]).target == t,
        distinct_targets(links).len() <= links.len(),
    decreases links.len(),
{
    if links.len() == 0 {
        assert forall|t: AnyLinkableHash| #[trigger]
            distinct_targets(links).contains(t) <==> exists|k: int|
                0 <= k < links.len() && (#[trigger] links[k]).target == t by {}
    } else {
        let dl = links.drop_last();
        let last = links.last();
        lemma_distinct_targets(dl);
        let prev = distinct_targets(dl);
        let cur = distinct_targets(links);
        assert forall|t: AnyLinkableHash| #[trigger]
            cur.contains(t) <==> exists|k: int|
                0 <= k < links.len() && (#[trigger] links[k]).target == t by {
            lemma_push_contains(prev, last.target, t);
            if prev.contains(t) {
                let k = choose|k: int| 0 <= k < dl.len() && (#[trigger] dl[k]).target == t;
                assert(links[k] == dl[k]);
            }
            if last.target == t {
                assert(links[links.len() - 1] == last);
            }
            if exists|k: int| 0 <= k < links.len() && (#[trigger] links[k]).target == t {
                let k = choose|k: int| 0 <= k < links.len() && (#[trigger] links[k]).target == t;
                if k < dl.len() {
                    assert(dl[k] == links[k]);
                }
            }
        }
        if !prev.contains(last.target) {
            assert forall|i: int, j: int| 0 <= i < j < cur.len() implies cur[i] != cur[j] by {
                if j == prev.len() {
                    assert(prev.contains(prev[i]));
                }
            }
        }
    }
}

/// Whether `t` occurs in `targets`.
pub fn contains_target(targets: &Vec<AnyLinkableHash>, t: AnyLinkableHash) -> (r: bool)
    ensures
        r == targets@.contains(t),
{
    let mut i: usize = 0;
    while i < targets.len()
        invariant
            i <= targets@.len(),
            forall|k: int| 0 <= k < i ==> targets@[k] != t,
        decreases targets@.len() - i,
    {
        if targets[i] == t {
            return true;
        }
        i = i + 1;
    }
    false
}

/// The targets that `links` reach, as a set: each once however many edges
/// point to it, in the order in which they first occur.
pub fn members(links: &Vec<Link>) -> (r: Vec<AnyLinkableHash>)
    ensures
        r@ == distinct_targets(links@),
        r@.no_duplicates(),
        forall|t: AnyLinkableHash| #[trigger]
            r@.contains(t) <==> exists|k: int|
                0 <= k < links@.len() && (#[trigger] links@[k]).target == t,
{
    let mut out: Vec<AnyLinkableHash> = Vec::new();
    let mut i: usize = 0;
    while i < links.len()
        invariant
            i <= links@.len(),
            out@ == distinct_targets(links@.take(i as int)),
        decreases links@.len() - i,
    {
        proof {
            lemma_take_step(links@, i as int);
        }
        let t = links[i].target;
        if !contains_target(&out, t) {
            out.push(t);
        }
        i = i + 1;
    }
    proof {
        assert(links@.take(i as int) =~= links@);
        lemma_distinct_targets(links@);
    }
    out
}

/// The commits among `targets`, in order.
pub open spec fn action_hashes(targets: Seq<AnyLinkableHash>) -> Seq<ActionHash>
    decreases targets.len(),
{
    if targets.len() == 0 {
        Seq::empty()
    } else {
        let prev = action_hashes(targets.drop_last());
        match targets.last() {
            AnyLinkableHash::Action(h) => prev.push(h),
            _ => prev,
        }
    }
}

/// The participants among `targets`, in order: every target of the entry kind.
pub open spec fn agent_pub_keys(targets: Seq<AnyLinkableHash>) -> Seq<AgentPubKey>
    decreases targets.len(),
{
    if targets.len() == 0 {
        Seq::empty()
    } else {
        let prev = agent_pub_keys(targets.drop_last());
        match targets.last() {
            AnyLinkableHash::Entry(h) => prev.push(AgentPubKey(h.0)),
            _ => prev,
        }
    }
}

/// What can be fetched among `targets`, in order: every target but the
/// foreign resources.
pub open spec fn any_dht_hashes(targets: Seq<AnyLinkableHash>) -> Seq<AnyDhtHash>
    decreases targets.len(),
{
    if targets.len() == 0 {
        Seq::empty()
    } else {
        let prev = any_dht_hashes(targets.drop_last());
        match targets.last().any_dht_hash() {
            Some(h) => prev.push(h),
            None => prev,
        }
    }
}

/// A commit is among the selected ones exactly when it is among the targets;
/// where no target occurs twice, no commit does.
pub proof fn lemma_action_hashes(targets: Seq<AnyLinkableHash>)
    ensures
        forall|h: ActionHash| #[trigger]
            action_hashes(targets).contains(h) <==> targets.contains(AnyLinkableHash::Action(h)),
        targets.no_duplicates() ==> action_hashes(targets).no_duplicates(),
        action_hashes(targets).len() <= targets.len(),
    decreases targets.len(),
{
    if targets.len() == 0 {
        assert forall|h: ActionHash| #[trigger]
            action_hashes(targets).contains(h) <==> targets.contains(
                AnyLinkableHash::Action(h),
            ) by {}
    } else {
        let dl = targets.drop_last();
        let last = targets.last();
        lemma_action_hashes(dl);
        let prev = action_hashes(dl);
        let cur = action_hashes(targets);
        assert(targets == dl.push(last));
        assert forall|h: ActionHash| #[trigger]
            cur.contains(h) <==> targets.contains(AnyLinkableHash::Action(h)) by {
            lemma_push_contains(dl, last, AnyLinkableHash::Action(h));
            if last is Action {
                lemma_push_contains(prev, last->Action_0, h);
            }
        }
        if targets.no_duplicates() {
            assert(dl.no_duplicates()) by {
                assert forall|i: int, j: int| 0 <= i < j < dl.len() implies dl[i] != dl[j] by {
                    assert(dl[i] == targets[i] && dl[j] == targets[j]);
                }
            }
            if last is Action {
                assert(!dl.contains(last)) by {
                    if dl.contains(last) {
                        let i = choose|i: int| 0 <= i < dl.len() && dl[i] == last;
                        assert(targets[i] == targets[targets.len() - 1]);
                    }
                }
                assert forall|i: int, j: int| 0 <= i < j < cur.len() implies cur[i] != cur[j] by {
                    if j == prev.len() {
                        assert(prev.contains(prev[i]));
                    }
                }
            }
        }
    }
}

/// A participant is among the selected ones exactly when the entry that
/// stands for the participant is among the targets; where no target occurs
/// twice, no participant does.
pub proof fn lemma_agent_pub_keys(targets: Seq<AnyLinkableHash>)
    ensures
        forall|a: AgentPubKey| #[trigger]
            agent_pub_keys(targets).contains(a) <==> targets.contains(a.linkable()),
        targets.no_duplicates() ==> agent_pub_keys(targets).no_duplicates(),
        agent_pub_keys(targets).len() <= targets.len(),
    decreases targets.len(),
{
    if targets.len() == 0 {
        assert forall|a: AgentPubKey| #[trigger]
            agent_pub_keys(targets).contains(a) <==> targets.contains(a.linkable()) by {}
    } else {
        let dl = targets.drop_last();
        let last = targets.last();
        lemma_agent_pub_keys(dl);
        let prev = agent_pub_keys(dl);
        let cur = agent_pub_keys(targets);
        assert(targets == dl.push(last));
        assert forall|a: AgentPubKey| #[trigger]
            cur.contains(a) <==> targets.contains(a.linkable()) by {
            lemma_push_contains(dl, last, a.linkable());
            if last is Entry {
                lemma_push_contains(prev, AgentPubKey(last->Entry_0.0), a);
            }
        }
        if targets.no_duplicates() {
            assert(dl.no_duplicates()) by {
                assert forall|i: int, j: int| 0 <= i < j < dl.len() implies dl[i] != dl[j] by {
                    assert(dl[i] == targets[i] && dl[j] == targets[j]);
                }
            }
            if last is Entry {
                assert(!dl.contains(last)) by {
                    if dl.contains(last) {
                        let i = choose|i: int| 0 <= i < dl.len() && dl[i] == last;
                        assert(targets[i] == targets[targets.len() - 1]);
                    }
                }
                assert forall|i: int, j: int| 0 <= i < j < cur.len() implies cur[i] != cur[j] by {
                    if j == prev.len() {
                        assert(prev.contains(prev[i]));
                    }
                }
            }
        }
    }
}

/// The commits among `targets`, in order.
pub fn action_targets(targets: &Vec<AnyLinkableHash>) -> (r: Vec<ActionHash>)
    ensures
        r@ == action_hashes(targets@),
        targets@.no_duplicates() ==> r@.no_duplicates(),
        forall|h: ActionHash| #[trigger]
            r@.contains(h) <==> targets@.contains(AnyLinkableHash::Action(h)),
{
    let mut out: Vec<ActionHash> = Vec::new();
    let mut i: usize = 0;
    while i < targets.len()
        invariant
            i <= targets@.len(),
            out@ == action_hashes(targets@.take(i as int)),
        decreases targets@.len() - i,
    {
        proof {
            lemma_take_step(targets@, i as int);
        }
        match targets[i].into_action_hash() {
            Some(h) => {
                out.push(h);
            },
            None => {},
        }
        i = i + 1;
    }
    proof {
        assert(targets@.take(i as int) =~= targets@);
        lemma_action_hashes(targets@);
    }
    out
}

/// The participants among `targets`, in order.
pub fn agent_targets(targets: &Vec<AnyLinkableHash>) -> (r: Vec<AgentPubKey>)
    ensures
        r@ == agent_pub_keys(targets@),
        targets@.no_duplicates() ==> r@.no_duplicates(),
        forall|a: AgentPubKey| #[trigger] r@.contains(a) <==> targets@.contains(a.linkable()),
{
    let mut out: Vec<AgentPubKey> = Vec::new();
    let mut i: usize = 0;
    while i < targets.len()
        invariant
            i <= targets@.len(),
            out@ == agent_pub_keys(targets@.take(i as int)),
        decreases targets@.len() - i,
    {
        proof {
            lemma_take_step(targets@, i as int);
        }
        match targets[i].into_agent_pub_key() {
            Some(a) => {
                out.push(a);
            },
            None => {},
        }
        i = i + 1;
    }
    proof {
        assert(targets@.take(i as int) =~= targets@);
        lemma_agent_pub_keys(targets@);
    }
    out
}

/// What can be fetched among `targets`, in order.
pub fn dht_targets(targets: &Vec<AnyLinkableHash>) -> (r: Vec<AnyDhtHash>)
    ensures
        r@ == any_dht_hashes(targets@),
{
    let mut out: Vec<AnyDhtHash> = Vec::new();
    let mut i: usize = 0;
    while i < targets.len()
        invariant
            i <= targets@.len(),
            out@ == any_dht_hashes(targets@.take(i as int)),
        decreases targets@.len() - i,
    {
        proof {
            lemma_take_step(targets@, i as int);
        }
        match targets[i].into_any_dht_hash() {
            Some(h) => {
                out.push(h);
            },
            None => {},
        }
        i = i + 1;
    }
    proof {
        assert(targets@.take(i as int) =~= targets@);
    }
    out
}

/// Whether the edges of `s` stand newest first: no edge is followed by one
/// that was committed later.
pub open spec fn newest_first(s: Seq<Link>) -> bool {
    forall|a: int, b: int|
        0 <= a < b < s.len() ==> (#[trigger] s[a]).timestamp.0 >= (#[trigger] s[b]).timestamp.0
}

/// Where `x` goes in a list that stands newest first: behind every edge that
/// is not older than `x`.
pub open spec fn insert_position(sorted: Seq<Link>, x: Link) -> int
    decreases sorted.len(),
{
    if sorted.len() == 0 {
        0
    } else if sorted.last().timestamp.0 >= x.timestamp.0 {
        sorted.len() as int
    } else {
        insert_position(sorted.drop_last(), x)
    }
}

/// The edges of `links`, newest first; edges of one timestamp keep the order
/// that they have in `links`.
pub open spec fn by_recency(links: Seq<Link>) -> Seq<Link>
    decreases links.len(),
{
    if links.len() == 0 {
        Seq::empty()
    } else {
        let prev = by_recency(links.drop_last());
        prev.insert(insert_position(prev, links.last()), links.last())
    }
}

/// The place where an edge goes is inside the list; what stands at or behind
/// it is older than the edge, and in a list that stands newest first, what
/// stands before it is not.
pub proof fn lemma_insert_position(sorted: Seq<Link>, x: Link)
    ensures
        0 <= insert_position(sorted, x) <= sorted.len(),
        forall|k: int|
            insert_position(sorted, x) <= k < sorted.len() ==> (#[trigger] sorted[k]).timestamp.0
                < x.timestamp.0,
        newest_first(sorted) ==> forall|k: int|
            0 <= k < insert_position(sorted, x) ==> (#[trigger] sorted[k]).timestamp.0
                >= x.timestamp.0,
    decreases sorted.len(),
{
    if sorted.len() > 0 {
        let dl = sorted.drop_last();
        lemma_insert_position(dl, x);
        if sorted.last().timestamp.0 >= x.timestamp.0 {
            if newest_first(sorted) {
                assert forall|k: int| 0 <= k < sorted.len() implies (
                #[trigger] sorted[k]).timestamp.0 >= x.timestamp.0 by {
                    if k < sorted.len() - 1 {
                        assert(sorted[k].timestamp.0 >= sorted[sorted.len() - 1].timestamp.0);
                    }
                }
            }
        } else {
            assert forall|k: int|
                insert_position(sorted, x) <= k < sorted.len() implies (
            #[trigger] sorted[k]).timestamp.0 < x.timestamp.0 by {
                if k < dl.len() {
                    assert(dl[k] == sorted[k]);
                }
            }
            if newest_first(sorted) {
                assert forall|a: int, b: int| 0 <= a < b < dl.len() implies (
                #[trigger] dl[a]).timestamp.0 >= (#[trigger] dl[b]).timestamp.0 by {
                    assert(dl[a] == sorted[a] && dl[b] == sorted[b]);
                }
                assert forall|k: int| 0 <= k < insert_position(sorted, x) implies (
                #[trigger] sorted[k]).timestamp.0 >= x.timestamp.0 by {
                    assert(dl[k] == sorted[k]);
                }
            }
        }
    }
}

/// The edges by recency are the same edges, each as often as before, and
/// they stand newest first.
pub proof fn lemma_by_recency(links: Seq<Link>)
    ensures
        by_recency(links).to_multiset() == links.to_multiset(),
        by_recency(links).len() == links.len(),
        newest_first(by_recency(links)),
    decreases links.len(),
{
    broadcast use vstd::seq_lib::group_to_multiset_ensures;

    if links.len() == 0 {
    } else {
        let dl = links.drop_last();
        let x = links.last();
        lemma_by_recency(dl);
        let prev = by_recency(dl);
        let pos = insert_position(prev, x);
        lemma_insert_position(prev, x);
        let cur = prev.insert(pos, x);
        assert(cur == by_recency(links));
        assert(cur.remove(pos) =~= prev);
        to_multiset_remove(cur, pos);
        assert(cur[pos] == x);
        assert(cur.to_multiset().count(x) > 0) by {
            assert(cur.contains(x));
        }
        assert(cur.to_multiset() =~= prev.to_multiset().insert(x));
        assert(links == dl.push(x));
        assert(links.to_multiset() =~= dl.to_multiset().insert(x));
        assert forall|a: int, b: int| 0 <= a < b < cur.len() implies (
        #[trigger] cur[a]).timestamp.0 >= (#[trigger] cur[b]).timestamp.0 by {
            if b < pos {
                assert(cur[a] == prev[a] && cur[b] == prev[b]);
            } else if b == pos {
                assert(cur[a] == prev[a]);
            } else if a < pos {
                assert(cur[a] == prev[a] && cur[b] == prev[b - 1]);
            } else if a == pos {
                assert(cur[b] == prev[b - 1]);
            } else {
                assert(cur[a] == prev[a - 1] && cur[b] == prev[b - 1]);
            }
        }
    }
}

/// The edges of `links`, newest first; edges of one timestamp keep their
/// order.
pub fn sort_by_recency(links: &Vec<Link>) -> (r: Vec<Link>)
    ensures
        r@ == by_recency(links@),
        r@.to_multiset() == links@.to_multiset(),
        newest_first(r@),
{
    let mut out: Vec<Link> = Vec::new();
    let mut i: usize = 0;
    while i < links.len()
        invariant
            i <= links@.len(),
            out@ == by_recency(links@.take(i as int)),
        decreases links@.len() - i,
    {
        proof {
            lemma_take_step(links@, i as int);
            lemma_by_recency(links@.take(i as int));
        }
        let x = links[i];
        let mut k: usize = out.len();
        proof {
            assert(out@.take(k as int) =~= out@);
        }
        while k > 0 && out[k - 1].timestamp.0 < x.timestamp.0
            invariant
                k <= out@.len(),
                insert_position(out@, x) == insert_position(out@.take(k as int), x),
            decreases k,
        {
            proof {
                lemma_take_step(out@, k - 1);
            }
            k = k - 1;
        }
        proof {
            if k > 0 {
                lemma_take_step(out@, k - 1);
            }
            assert(out@.take(out@.len() as int) =~= out@);
        }
        out.insert(k, x);
        i = i + 1;
    }
    proof {
        assert(links@.take(i as int) =~= links@);
        lemma_by_recency(links@);
    }
    out
}

} // verus!
