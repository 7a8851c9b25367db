//! The record store: an append-only log of commits, and what can be read off it.
//!
//! A commit is identified by its position in the log. Nothing is ever removed:
//! an entry or an edge is withdrawn by a later commit that names it.

use vstd::prelude::*;
use crate::error::StoreError;
use crate::hash::{ActionHash, AgentPubKey, AnyDhtHash, AnyLinkableHash, DnaHash};
use crate::integrity::EntryTypes;
use crate::links::instances_to;
use crate::log::{
    deletes_of, is_entry_commit, is_link_commit, lemma_take_step, link_creates, link_deletes_of,
    live_links, next_record, record_of, remove_instance, updates_of, wf_action, wf_log, wf_record,
};
use crate::record::{
    Action, Create, CreateLink, Delete, DeleteLink, Details, Link, LinkTag, Record, RecordDetails,
    ScopedLinkType, SignedActionHashed, Timestamp, Update,
};

verus! {

/// What the store is, seen from outside.
pub struct StoreView {
    /// Every commit ever made, oldest first.
    pub log: Seq<Record>,
    /// On whose behalf the store commits.
    pub agent: AgentPubKey,
    /// Which store this is.
    pub dna: DnaHash,
    /// The time that the next commit will carry.
    pub now: Timestamp,
}

impl StoreView {
    /// Whether the two stores act for the same participant, on the same
    /// store, at the same time.
    pub open spec fn same_setting(self, other: StoreView) -> bool {
        self.agent == other.agent && self.dna == other.dna && self.now == other.now
    }

    /// The store after one more commit of `action`, with `entry`.
    pub open spec fn with_commit(self, action: Action, entry: Option<EntryTypes>) -> StoreView {
        StoreView { log: self.log.push(next_record(self.log, action, entry)), ..self }
    }

    /// The store after the commit of a new entry.
    pub open spec fn with_entry(self, entry: EntryTypes) -> StoreView {
        self.with_commit(
            Action::Create(Create { author: self.agent, timestamp: self.now }),
            Some(entry),
        )
    }

    /// The store after the commit of an entry that supersedes `original`.
    pub open spec fn with_update(self, original: ActionHash, entry: EntryTypes) -> StoreView {
        self.with_commit(
            Action::Update(
                Update {
                    author: self.agent,
                    timestamp: self.now,
                    original_action_address: original,
                },
            ),
            Some(entry),
        )
    }

    /// The store after the commit of a tombstone for the entry commit `h`.
    pub open spec fn with_delete(self, h: ActionHash) -> StoreView {
        self.with_commit(
            Action::Delete(Delete { author: self.agent, timestamp: self.now, deletes_address: h }),
            None,
        )
    }

    /// The store after the commit of an edge from `base` to `target`.
    pub open spec fn with_link(
        self,
        base: AnyLinkableHash,
        target: AnyLinkableHash,
        link_type: ScopedLinkType,
        tag: LinkTag,
    ) -> StoreView {
        self.with_commit(
            Action::CreateLink(
                CreateLink {
                    author: self.agent,
                    timestamp: self.now,
                    base_address: base,
                    target_address: target,
                    zome_index: link_type.zome_index,
                    link_type: link_type.zome_type,
                    tag,
                },
            ),
            None,
        )
    }

    /// The store after the commit of a tombstone for the edge instance that
    /// the commit `h` created.
    pub open spec fn with_link_tombstone(self, h: ActionHash) -> StoreView {
        self.with_commit(
            Action::DeleteLink(
                DeleteLink {
                    author: self.agent,
                    timestamp: self.now,
                    base_address: self.log[h.0 as int].signed_action.action->CreateLink_0.base_address,
                    link_add_address: h,
                },
            ),
            None,
        )
    }

    /// The store after a tombstone for each of `instances`, in order.
    pub open spec fn with_link_tombstones(self, instances: Seq<ActionHash>) -> StoreView
        decreases instances.len(),
    {
        if instances.len() == 0 {
            self
        } else {
            self.with_link_tombstones(instances.drop_last()).with_link_tombstone(instances.last())
        }
    }

    /// The store after every live edge of type `link_type` from `base` to
    /// `target` was tombstoned, oldest first.
    pub open spec fn without_links_to(
        self,
        base: AnyLinkableHash,
        link_type: ScopedLinkType,
        target: AnyLinkableHash,
    ) -> StoreView {
        self.with_link_tombstones(instances_to(live_links(self.log, base, link_type), target))
    }
}

/// The record store.
#[derive(Clone, Debug, PartialEq)]
pub struct Store {
    log: Vec<Record>,
    agent: AgentPubKey,
    dna: DnaHash,
    now: Timestamp,
}

/// Who is acting.
#[derive(Clone, Copy, Debug, PartialEq, Eq, Structural)]
pub struct AgentInfo {
    pub agent_initial_pubkey: AgentPubKey,
    pub agent_latest_pubkey: AgentPubKey,
}

/// Which store is acted on.
#[derive(Clone, Copy, Debug, PartialEq, Eq, Structural)]
pub struct DnaInfo {
    pub hash: DnaHash,
}

impl View for Store {
    type V = StoreView;

    closed spec fn view(&self) -> StoreView {
        StoreView { log: self.log@, agent: self.agent, dna: self.dna, now: self.now }
    }
}

impl Store {
    /// Whether the store is in a state that its own operations can have left.
    pub open spec fn wf(&self) -> bool {
        wf_log(self@.log)
    }

    /// An empty store that commits on behalf of `agent`, at time zero.
    pub fn new(agent: AgentPubKey, dna: DnaHash) -> (s: Store)
        ensures
            s.wf(),
            s@ == (StoreView { log: Seq::empty(), agent, dna, now: Timestamp(0) }),
    {
        Store { log: Vec::new(), agent, dna, now: Timestamp(0) }
    }

    /// Who is acting.
    pub fn agent_info(&self) -> (r: AgentInfo)
        ensures
            r.agent_initial_pubkey == self@.agent,
            r.agent_latest_pubkey == self@.agent,
    {
        AgentInfo { agent_initial_pubkey: self.agent, agent_latest_pubkey: self.agent }
    }

    /// Which store this is.
    pub fn dna_info(&self) -> (r: DnaInfo)
        ensures
            r.hash == self@.dna,
    {
        DnaInfo { hash: self.dna }
    }

    /// The time that the next commit will carry.
    pub fn sys_time(&self) -> (r: Timestamp)
        ensures
            r == self@.now,
    {
        self.now
    }

    /// Sets the time that the following commits will carry.
    pub fn set_time(&mut self, now: Timestamp)
        ensures
            final(self)@ == (StoreView { now, ..old(self)@ }),
    {
        self.now = now;
    }

    /// Lets the store act on behalf of `agent` from now on.
    pub fn set_agent(&mut self, agent: AgentPubKey)
        ensures
            final(self)@ == (StoreView { agent, ..old(self)@ }),
    {
        self.agent = agent;
    }

    /// How many commits the store holds.
    pub fn len(&self) -> (n: usize)
        ensures
            n == self@.log.len(),
    {
        self.log.len()
    }

    fn append(&mut self, action: Action, entry: Option<EntryTypes>) -> (h: ActionHash)
        requires
            old(self).wf(),
            wf_action(old(self)@.log, old(self)@.log.len() as int, action, entry),
        ensures
            final(self).wf(),
            final(self)@ == old(self)@.with_commit(action, entry),
            h == ActionHash(old(self)@.log.len() as u64),
    {
        let h = ActionHash(self.log.len() as u64);
        let ghost before = self.log@;
        self.log.push(Record { signed_action: SignedActionHashed { hash: h, action }, entry });
        let n = self.log.len();
        proof {
            let after = self.log@;
            assert(after.len() == n);
            assert forall|i: int| 0 <= i < after.len() implies #[trigger] wf_record(after, i) by {
                if i < before.len() {
                    assert(wf_record(before, i));
                    assert(after[i] == before[i]);
                }
            }
        }
        h
    }

    /// Commits a new entry.
    pub fn create_entry(&mut self, entry: EntryTypes) -> (h: ActionHash)
        requires
            old(self).wf(),
        ensures
            final(self).wf(),
            final(self)@ == old(self)@.with_entry(entry),
            h == ActionHash(old(self)@.log.len() as u64),
    {
        let action = Action::Create(Create { author: self.agent, timestamp: self.now });
        self.append(action, Some(entry))
    }

    /// Commits an entry that supersedes the entry commit `original`. Refused,
    /// with the store unchanged, where `original` is no entry commit.
    pub fn update_entry(&mut self, original: ActionHash, entry: EntryTypes) -> (r: Result<
        ActionHash,
        StoreError,
    >)
        requires
            old(self).wf(),
        ensures
            final(self).wf(),
            is_entry_commit(old(self)@.log, original) ==> r == Ok::<ActionHash, StoreError>(
                ActionHash(old(self)@.log.len() as u64),
            ) && final(self)@ == old(self)@.with_update(original, entry),
            !is_entry_commit(old(self)@.log, original) ==> r == Err::<ActionHash, StoreError>(
                StoreError::NotAnEntryCommit(original),
            ) && final(self)@ == old(self)@,
    {
        if !self.holds_entry_commit(original) {
            return Err(StoreError::NotAnEntryCommit(original));
        }
        let action = Action::Update(
            Update { author: self.agent, timestamp: self.now, original_action_address: original },
        );
        Ok(self.append(action, Some(entry)))
    }

    /// Commits a tombstone for the entry commit `h`. Refused, with the store
    /// unchanged, where `h` is no entry commit.
    pub fn delete_entry(&mut self, h: ActionHash) -> (r: Result<ActionHash, StoreError>)
        requires
            old(self).wf(),
        ensures
            final(self).wf(),
            is_entry_commit(old(self)@.log, h) ==> r == Ok::<ActionHash, StoreError>(
                ActionHash(old(self)@.log.len() as u64),
            ) && final(self)@ == old(self)@.with_delete(h),
            !is_entry_commit(old(self)@.log, h) ==> r == Err::<ActionHash, StoreError>(
                StoreError::NotAnEntryCommit(h),
            ) && final(self)@ == old(self)@,
    {
        if !self.holds_entry_commit(h) {
            return Err(StoreError::NotAnEntryCommit(h));
        }
        let action = Action::Delete(
            Delete { author: self.agent, timestamp: self.now, deletes_address: h },
        );
        Ok(self.append(action, None))
    }

    /// Commits an edge from `base` to `target`.
    pub fn create_link(
        &mut self,
        base: AnyLinkableHash,
        target: AnyLinkableHash,
        link_type: ScopedLinkType,
        tag: LinkTag,
    ) -> (h: ActionHash)
        requires
            old(self).wf(),
        ensures
            final(self).wf(),
            final(self)@ == old(self)@.with_link(base, target, link_type, tag),
            h == ActionHash(old(self)@.log.len() as u64),
    {
        let action = Action::CreateLink(
            CreateLink {
                author: self.agent,
                timestamp: self.now,
                base_address: base,
                target_address: target,
                zome_index: link_type.zome_index,
                link_type: link_type.zome_type,
                tag,
            },
        );
        self.append(action, None)
    }

    /// Commits a tombstone for the edge instance that the commit `h` created.
    /// Refused, with the store unchanged, where `h` is no commit of an edge.
    pub fn delete_link(&mut self, h: ActionHash) -> (r: Result<ActionHash, StoreError>)
        requires
            old(self).wf(),
        ensures
            final(self).wf(),
            is_link_commit(old(self)@.log, h) ==> r == Ok::<ActionHash, StoreError>(
                ActionHash(old(self)@.log.len() as u64),
            ) && final(self)@ == old(self)@.with_link_tombstone(h),
            !is_link_commit(old(self)@.log, h) ==> r == Err::<ActionHash, StoreError>(
                StoreError::NotALinkCommit(h),
            ) && final(self)@ == old(self)@,
    {
        if h.0 >= self.log.len() as u64 {
            return Err(StoreError::NotALinkCommit(h));
        }
        let base = match self.log[h.0 as usize].signed_action.action {
            Action::CreateLink(c) => c.base_address,
            _ => {
                return Err(StoreError::NotALinkCommit(h));
            },
        };
        let action = Action::DeleteLink(
            DeleteLink {
                author: self.agent,
                timestamp: self.now,
                base_address: base,
                link_add_address: h,
            },
        );
        Ok(self.append(action, None))
    }

    /// Fetches the commit `h`: found unless it is missing or tombstoned.
    pub fn get(&self, h: ActionHash) -> (r: Option<&Record>)
        ensures
            same_record(r, record_of(self@.log, h)),
    {
        if h.0 >= self.log.len() as u64 {
            return None;
        }
        let deletes = self.deletes(h);
        if deletes.len() > 0 {
            return None;
        }
        Some(&self.log[h.0 as usize])
    }

    /// Fetches the commit `h` whether or not it is tombstoned.
    pub fn must_get_valid_record(&self, h: ActionHash) -> (r: Result<&Record, StoreError>)
        ensures
            h.0 < self@.log.len() ==> (r matches Ok(x) && *x == self@.log[h.0 as int]),
            h.0 >= self@.log.len() ==> (r matches Err(e) && e == StoreError::NoSuchCommit(h)),
    {
        if h.0 >= self.log.len() as u64 {
            return Err(StoreError::NoSuchCommit(h));
        }
        Ok(&self.log[h.0 as usize])
    }

    /// Fetches what the store knows of `hash`. For a commit of the store: the
    /// record, the commits that supersede it and those that tombstone it.
    /// Entries are not looked up by their own identifier: nothing is found
    /// for one, nor for a commit that the store does not hold.
    pub fn get_details(&self, hash: AnyDhtHash) -> (r: Option<Details<'_>>)
        ensures
            r is Some <==> (hash matches AnyDhtHash::Action(h) && h.0 < self@.log.len()),
            r matches Some(details) ==> (details matches Details::Record(d) && {
                &&& *d.record == self@.log[hash->Action_0.0 as int]
                &&& d.updates@ == updates_of(self@.log, hash->Action_0)
                &&& d.deletes@ == deletes_of(self@.log, hash->Action_0)
            }),
    {
        match hash {
            AnyDhtHash::Entry(_) => None,
            AnyDhtHash::Action(h) => {
                if h.0 >= self.log.len() as u64 {
                    return None;
                }
                let updates = self.updates(h);
                let deletes = self.deletes(h);
                Some(
                    Details::Record(
                        RecordDetails { record: &self.log[h.0 as usize], updates, deletes },
                    ),
                )
            },
        }
    }

    /// The tombstones of the entry commit `h`, oldest first.
    pub fn deletes(&self, h: ActionHash) -> (r: Vec<ActionHash>)
        ensures
            r@ == deletes_of(self@.log, h),
    {
        let mut out: Vec<ActionHash> = Vec::new();
        let mut i: usize = 0;
        while i < self.log.len()
            invariant
                i <= self.log@.len(),
                out@ == deletes_of(self.log@.take(i as int), h),
            decreases self.log@.len() - i,
        {
            proof {
                lemma_take_step(self.log@, i as int);
            }
            match self.log[i].signed_action.action {
                Action::Delete(d) => {
                    if d.deletes_address == h {
                        out.push(self.log[i].signed_action.hash);
                    }
                },
                _ => {},
            }
            i = i + 1;
        }
        proof {
            assert(self.log@.take(i as int) =~= self.log@);
        }
        out
    }

    /// The commits that supersede the entry commit `h` directly, oldest first.
    pub fn updates(&self, h: ActionHash) -> (r: Vec<ActionHash>)
        ensures
            r@ == updates_of(self@.log, h),
    {
        let mut out: Vec<ActionHash> = Vec::new();
        let mut i: usize = 0;
        while i < self.log.len()
            invariant
                i <= self.log@.len(),
                out@ == updates_of(self.log@.take(i as int), h),
            decreases self.log@.len() - i,
        {
            proof {
                lemma_take_step(self.log@, i as int);
            }
            match self.log[i].signed_action.action {
                Action::Update(u) => {
                    if u.original_action_address == h {
                        out.push(self.log[i].signed_action.hash);
                    }
                },
                _ => {},
            }
            i = i + 1;
        }
        proof {
            assert(self.log@.take(i as int) =~= self.log@);
        }
        out
    }

    /// The live edges of type `link_type` that start at `base`, oldest first.
    pub fn get_links(&self, base: AnyLinkableHash, link_type: ScopedLinkType) -> (r: Vec<Link>)
        ensures
            r@ == live_links(self@.log, base, link_type),
    {
        let mut out: Vec<Link> = Vec::new();
        let mut i: usize = 0;
        while i < self.log.len()
            invariant
                i <= self.log@.len(),
                out@ == live_links(self.log@.take(i as int), base, link_type),
            decreases self.log@.len() - i,
        {
            proof {
                lemma_take_step(self.log@, i as int);
            }
            let record = &self.log[i];
            match record.signed_action.action {
                Action::CreateLink(c) => {
                    if c.base_address == base && c.zome_index == link_type.zome_index
                        && c.link_type == link_type.zome_type {
                        out.push(
                            Link {
                                author: c.author,
                                base: c.base_address,
                                target: c.target_address,
                                timestamp: c.timestamp,
                                zome_index: c.zome_index,
                                link_type: c.link_type,
                                tag: c.tag,
                                create_link_hash: record.signed_action.hash,
                            },
                        );
                    }
                },
                Action::DeleteLink(d) => {
                    out = without_instance(&out, d.link_add_address);
                },
                _ => {},
            }
            i = i + 1;
        }
        proof {
            assert(self.log@.take(i as int) =~= self.log@);
        }
        out
    }

    /// The tombstones of the edge instance that the commit `h` created,
    /// oldest first.
    pub fn link_deletes(&self, h: ActionHash) -> (r: Vec<SignedActionHashed>)
        ensures
            r@ == link_deletes_of(self@.log, h),
    {
        let mut out: Vec<SignedActionHashed> = Vec::new();
        let mut i: usize = 0;
        while i < self.log.len()
            invariant
                i <= self.log@.len(),
                out@ == link_deletes_of(self.log@.take(i as int), h),
            decreases self.log@.len() - i,
        {
            proof {
                lemma_take_step(self.log@, i as int);
            }
            match self.log[i].signed_action.action {
                Action::DeleteLink(d) => {
                    if d.link_add_address == h {
                        out.push(self.log[i].signed_action);
                    }
                },
                _ => {},
            }
            i = i + 1;
        }
        proof {
            assert(self.log@.take(i as int) =~= self.log@);
        }
        out
    }

    /// Every commit of an edge of type `link_type` that starts at `base`,
    /// oldest first, each with its tombstones, oldest first.
    pub fn get_link_details(&self, base: AnyLinkableHash, link_type: ScopedLinkType) -> (r: Vec<
        (SignedActionHashed, Vec<SignedActionHashed>),
    >)
        ensures
            r@.len() == link_creates(self@.log, base, link_type).len(),
            forall|k: int|
                0 <= k < r@.len() ==> {
                    &&& (#[trigger] r@[k]).0 == link_creates(self@.log, base, link_type)[k]
                    &&& r@[k].1@ == link_deletes_of(self@.log, r@[k].0.hash)
                },
    {
        let mut out: Vec<(SignedActionHashed, Vec<SignedActionHashed>)> = Vec::new();
        let mut i: usize = 0;
        while i < self.log.len()
            invariant
                i <= self.log@.len(),
                out@.len() == link_creates(self.log@.take(i as int), base, link_type).len(),
                forall|k: int|
                    0 <= k < out@.len() ==> {
                        &&& (#[trigger] out@[k]).0 == link_creates(
                            self.log@.take(i as int),
                            base,
                            link_type,
                        )[k]
                        &&& out@[k].1@ == link_deletes_of(self@.log, out@[k].0.hash)
                    },
            decreases self.log@.len() - i,
        {
            proof {
                lemma_take_step(self.log@, i as int);
            }
            match self.log[i].signed_action.action {
                Action::CreateLink(c) => {
                    if c.base_address == base && c.zome_index == link_type.zome_index
                        && c.link_type == link_type.zome_type {
                        let created = self.log[i].signed_action;
                        let deletes = self.link_deletes(created.hash);
                        out.push((created, deletes));
                    }
                },
                _ => {},
            }
            i = i + 1;
        }
        proof {
            assert(self.log@.take(i as int) =~= self.log@);
        }
        out
    }

    /// Whether `h` names a commit that carries an entry.
    pub fn holds_entry_commit(&self, h: ActionHash) -> (r: bool)
        ensures
            r == is_entry_commit(self@.log, h),
    {
        if h.0 >= self.log.len() as u64 {
            return false;
        }
        match self.log[h.0 as usize].signed_action.action {
            Action::Create(_) => true,
            Action::Update(_) => true,
            _ => false,
        }
    }
}

/// Whether a fetched record is what the log holds.
pub open spec fn same_record(r: Option<&Record>, m: Option<Record>) -> bool {
    match (r, m) {
        (Some(a), Some(b)) => *a == b,
        (None, None) => true,
        _ => false,
    }
}

/// `links` without the instance that the commit `h` created.
pub fn without_instance(links: &Vec<Link>, h: ActionHash) -> (r: Vec<Link>)
    ensures
        r@ == remove_instance(links@, h),
{
    let mut out: Vec<Link> = Vec::new();
    let mut i: usize = 0;
    while i < links.len()
        invariant
            i <= links@.len(),
            out@ == remove_instance(links@.take(i as int), h),
        decreases links@.len() - i,
    {
        proof {
            lemma_take_step(links@, i as int);
        }
        if links[i].create_link_hash != h {
            out.push(links[i]);
        }
        i = i + 1;
    }
    proof {
        assert(links@.take(i as int) =~= links@);
    }
    out
}

} // verus!
