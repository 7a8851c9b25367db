//! Alerts: an alert is an edge from a participant to the same participant
//! that carries the alert, and it is read once the edge is tombstoned.
//! After each commit the module says what happened to its edges.

use vstd::prelude::*;
use crate::alerts_integrity::LinkTypes;
use crate::effects::extends;
use crate::error::{GatherError, Malformed, Missing, StoreError};
use crate::hash::{ActionHash, AgentPubKey, AnyDhtHash, AnyLinkableHash};
use crate::log::{is_link_commit, lemma_take_step, link_creates, link_deletes_of, record_of};
use crate::notifications::GatherNotification;
use crate::pending_notifications::{
    same_pending, GetNotificationInput, Hrl, HrlWithContext, Notification, NotificationView,
    PendingNotification, PendingNotificationView, PendingNotifications,
};
use crate::notifications::same_notification;
use crate::record::{Action, LinkTag, Record, ScopedLinkType, SignedActionHashed};
use crate::store::{Store, StoreView};

verus! {

/// What a module answers when it is started.
#[derive(Clone, Debug, PartialEq)]
pub enum InitCallbackResult {
    Pass,
    Fail(String),
}

/// Starts the module: there is nothing to prepare.
pub fn init() -> (r: InitCallbackResult)
    ensures
        r == InitCallbackResult::Pass,
{
    InitCallbackResult::Pass
}

/// What happened to an edge of the alerts module.
#[derive(Clone, Copy, Debug, PartialEq, Eq, Structural)]
pub enum Signal {
    /// The commit `action` created an edge of type `link_type`.
    LinkCreated { action: SignedActionHashed, link_type: LinkTypes },
    /// The commit `action` tombstoned the edge of type `link_type` that
    /// `create_link_action` had created.
    LinkDeleted {
        action: SignedActionHashed,
        create_link_action: SignedActionHashed,
        link_type: LinkTypes,
    },
}

/// What is to be said about the commit `action`, given what a fetch of the
/// edge that it tombstones found, if it tombstones one: nothing for a
/// commit that is about no edge, and nothing for an edge of another
/// module; a failure where the tombstoned edge was not found or is no edge.
pub open spec fn signal_about(action: SignedActionHashed, tombstoned: Option<Record>) -> Result<
    Option<Signal>,
    GatherError,
> {
    match action.action {
        Action::CreateLink(c) => match LinkTypes::from_type_spec(c.zome_index, c.link_type) {
            Some(link_type) => Ok(Some(Signal::LinkCreated { action, link_type })),
            None => Ok(None),
        },
        Action::DeleteLink(_) => match tombstoned {
            None => Err(GatherError::NotFound(Missing::CreateLinkAction)),
            Some(record) => match record.signed_action.action {
                Action::CreateLink(c) => match LinkTypes::from_type_spec(
                    c.zome_index,
                    c.link_type,
                ) {
                    Some(link_type) => Ok(
                        Some(
                            Signal::LinkDeleted {
                                action,
                                create_link_action: record.signed_action,
                                link_type,
                            },
                        ),
                    ),
                    None => Ok(None),
                },
                _ => Err(GatherError::MalformedData(Malformed::NotACreateLink)),
            },
        },
        _ => Ok(None),
    }
}

/// What is to be said about the commit `action` in the store with `log`.
pub open spec fn signal_of(log: Seq<Record>, action: SignedActionHashed) -> Result<
    Option<Signal>,
    GatherError,
> {
    signal_about(
        action,
        match action.action {
            Action::DeleteLink(d) => record_of(log, d.link_add_address),
            _ => None,
        },
    )
}

/// What is to be said about the commit `action`, given what a fetch of the
/// edge that it tombstones found.
pub fn classify(action: SignedActionHashed, tombstoned: Option<&Record>) -> (r: Result<
    Option<Signal>,
    GatherError,
>)
    ensures
        r == signal_about(
            action,
            match tombstoned {
                Some(record) => Some(*record),
                None => None,
            },
        ),
{
    match action.action {
        Action::CreateLink(c) => match LinkTypes::from_type(c.zome_index, c.link_type) {
            Some(link_type) => Ok(Some(Signal::LinkCreated { action, link_type })),
            None => Ok(None),
        },
        Action::DeleteLink(_) => match tombstoned {
            None => Err(GatherError::NotFound(Missing::CreateLinkAction)),
            Some(record) => match record.signed_action.action {
                Action::CreateLink(c) => match LinkTypes::from_type(c.zome_index, c.link_type) {
                    Some(link_type) => Ok(
                        Some(
                            Signal::LinkDeleted {
                                action,
                                create_link_action: record.signed_action,
                                link_type,
                            },
                        ),
                    ),
                    None => Ok(None),
                },
                _ => Err(GatherError::MalformedData(Malformed::NotACreateLink)),
            },
        },
        _ => Ok(None),
    }
}

/// What is to be said about the commit `action`.
pub fn signal_action(store: &Store, action: SignedActionHashed) -> (r: Result<
    Option<Signal>,
    GatherError,
>)
    ensures
        r == signal_of(store@.log, action),
{
    match action.action {
        Action::DeleteLink(d) => classify(action, store.get(d.link_add_address)),
        _ => classify(action, None),
    }
}

/// What is to be said about each of `actions`, in order: a commit about
/// which nothing is to be said, or about which it cannot be found out, is
/// passed over.
pub open spec fn signals_of(log: Seq<Record>, actions: Seq<SignedActionHashed>) -> Seq<Signal>
    decreases actions.len(),
{
    if actions.len() == 0 {
        Seq::empty()
    } else {
        let prev = signals_of(log, actions.drop_last());
        match signal_of(log, actions.last()) {
            Ok(Some(signal)) => prev.push(signal),
            _ => prev,
        }
    }
}

/// What is to be said after the commits `committed_actions`.
pub fn post_commit(store: &Store, committed_actions: Vec<SignedActionHashed>) -> (r: Vec<Signal>)
    ensures
        r@ == signals_of(store@.log, committed_actions@),
{
    let mut out: Vec<Signal> = Vec::new();
    let mut i: usize = 0;
    while i < committed_actions.len()
        invariant
            i <= committed_actions@.len(),
            out@ == signals_of(store@.log, committed_actions@.take(i as int)),
        decreases committed_actions@.len() - i,
    {
        proof {
            lemma_take_step(committed_actions@, i as int);
        }
        match signal_action(store, committed_actions[i]) {
            Ok(Some(signal)) => {
                out.push(signal);
            },
            _ => {},
        }
        i = i + 1;
    }
    proof {
        assert(committed_actions@.take(i as int) =~= committed_actions@);
    }
    out
}

/// The commits among the first `n` of `details` that no commit has
/// tombstoned.
pub open spec fn unread(details: Seq<(SignedActionHashed, Vec<SignedActionHashed>)>, n: nat) -> Seq<
    SignedActionHashed,
>
    decreases n,
{
    if n == 0 || n > details.len() {
        Seq::empty()
    } else {
        let prev = unread(details, (n - 1) as nat);
        if details[n - 1].1@.len() == 0 {
            prev.push(details[n - 1].0)
        } else {
            prev
        }
    }
}

/// The positions among the first `n` of `details` of the commits that some
/// commit has tombstoned.
pub open spec fn read_positions(details: Seq<(SignedActionHashed, Vec<SignedActionHashed>)>, n: nat) -> Seq<
    int,
>
    decreases n,
{
    if n == 0 || n > details.len() {
        Seq::empty()
    } else {
        let prev = read_positions(details, (n - 1) as nat);
        if details[n - 1].1@.len() > 0 {
            prev.push(n - 1)
        } else {
            prev
        }
    }
}

/// The alerts that were not read: the commits that no commit has
/// tombstoned, in order.
pub fn unread_of(details: &Vec<(SignedActionHashed, Vec<SignedActionHashed>)>) -> (r: Vec<
    SignedActionHashed,
>)
    ensures
        r@ == unread(details@, details@.len()),
{
    let mut out: Vec<SignedActionHashed> = Vec::new();
    let mut i: usize = 0;
    while i < details.len()
        invariant
            i <= details@.len(),
            out@ == unread(details@, i as nat),
        decreases details@.len() - i,
    {
        if details[i].1.len() == 0 {
            out.push(details[i].0);
        }
        i = i + 1;
    }
    out
}

/// The alerts that were read: the commits that some commit has tombstoned,
/// in order, each with its tombstones.
pub fn read_of<'a>(details: &'a Vec<(SignedActionHashed, Vec<SignedActionHashed>)>) -> (r: Vec<
    &'a (SignedActionHashed, Vec<SignedActionHashed>),
>)
    ensures
        r@.len() == read_positions(details@, details@.len()).len(),
        forall|k: int|
            0 <= k < r@.len() ==> {
                &&& 0 <= (#[trigger] read_positions(details@, details@.len())[k]) < details@.len()
                &&& *r@[k] == details@[read_positions(details@, details@.len())[k]]
            },
{
    let mut out: Vec<&'a (SignedActionHashed, Vec<SignedActionHashed>)> = Vec::new();
    let mut i: usize = 0;
    while i < details.len()
        invariant
            i <= details@.len(),
            out@.len() == read_positions(details@, i as nat).len(),
            forall|k: int|
                0 <= k < out@.len() ==> {
                    &&& 0 <= (#[trigger] read_positions(details@, i as nat)[k]) < details@.len()
                    &&& *out@[k] == details@[read_positions(details@, i as nat)[k]]
                },
        decreases details@.len() - i,
    {
        let ghost before = out@;
        let ghost positions = read_positions(details@, i as nat);
        if details[i].1.len() > 0 {
            out.push(&details[i]);
            proof {
                let next = read_positions(details@, (i + 1) as nat);
                assert forall|k: int| 0 <= k < out@.len() implies {
                    &&& 0 <= (#[trigger] next[k]) < details@.len()
                    &&& *out@[k] == details@[next[k]]
                } by {
                    if k < positions.len() {
                        assert(next[k] == positions[k]);
                        assert(out@[k] == before[k]);
                    }
                }
            }
        }
        i = i + 1;
    }
    out
}

/// Those of the first `n` of `creates` that the log holds `read` for: with
/// `read`, the commits that some commit has tombstoned; without, the
/// commits that none has.
pub open spec fn alerts_among(log: Seq<Record>, creates: Seq<SignedActionHashed>, read: bool, n: nat) -> Seq<
    SignedActionHashed,
>
    decreases n,
{
    if n == 0 || n > creates.len() {
        Seq::empty()
    } else {
        let prev = alerts_among(log, creates, read, (n - 1) as nat);
        if (link_deletes_of(log, creates[n - 1].hash).len() > 0) == read {
            prev.push(creates[n - 1])
        } else {
            prev
        }
    }
}

/// The alerts of `agent`, read or unread, oldest first: the commits of
/// edges of the alerts type from the participant that were tombstoned, or
/// those that were not.
pub open spec fn alerts_of(log: Seq<Record>, agent: AgentPubKey, read: bool) -> Seq<
    SignedActionHashed,
> {
    let creates = link_creates(log, agent.linkable(), LinkTypes::MyAlerts.scoped_spec());
    alerts_among(log, creates, read, creates.len())
}

/// What the store lists of edges, taken apart into read and unread, is
/// what the log holds of them.
pub proof fn lemma_alerts_among(
    log: Seq<Record>,
    creates: Seq<SignedActionHashed>,
    details: Seq<(SignedActionHashed, Vec<SignedActionHashed>)>,
    n: nat,
)
    requires
        n <= details.len(),
        details.len() == creates.len(),
        forall|k: int|
            0 <= k < details.len() ==> (#[trigger] details[k]).0 == creates[k] && details[k].1@
                == link_deletes_of(log, details[k].0.hash),
    ensures
        unread(details, n) == alerts_among(log, creates, false, n),
        read_positions(details, n).len() == alerts_among(log, creates, true, n).len(),
        forall|k: int|
            0 <= k < read_positions(details, n).len() ==> 0 <= (#[trigger] read_positions(
                details,
                n,
            )[k]) < n && details[read_positions(details, n)[k]].0 == alerts_among(
                log,
                creates,
                true,
                n,
            )[k],
    decreases n,
{
    if n > 0 {
        lemma_alerts_among(log, creates, details, (n - 1) as nat);
        let before = read_positions(details, (n - 1) as nat);
        let after = read_positions(details, n);
        assert(details[n - 1].0 == creates[n - 1]);
        assert forall|k: int| 0 <= k < after.len() implies 0 <= (#[trigger] after[k]) < n
            && details[after[k]].0 == alerts_among(log, creates, true, n)[k] by {
            if k < before.len() {
                assert(after[k] == before[k]);
            }
        }
    }
}

/// The acting participant's alerts that were not read, oldest first.
pub fn get_unread_alerts(store: &Store) -> (r: Vec<SignedActionHashed>)
    ensures
        r@ == alerts_of(store@.log, store@.agent, false),
{
    let agent_pub_key = store.agent_info();
    let links_details = store.get_link_details(
        agent_pub_key.agent_initial_pubkey.into_linkable(),
        LinkTypes::MyAlerts.scoped(),
    );
    proof {
        lemma_alerts_among(
            store@.log,
            link_creates(store@.log, store@.agent.linkable(), LinkTypes::MyAlerts.scoped_spec()),
            links_details@,
            links_details@.len(),
        );
    }
    unread_of(&links_details)
}

/// Commits an edge from `base_address` to `target_address`.
pub fn create_link_relaxed(
    store: &mut Store,
    base_address: AnyLinkableHash,
    target_address: AnyLinkableHash,
    link_type: ScopedLinkType,
    tag: LinkTag,
) -> (h: ActionHash)
    requires
        old(store).wf(),
    ensures
        final(store).wf(),
        final(store)@ == old(store)@.with_link(base_address, target_address, link_type, tag),
        h == ActionHash(old(store)@.log.len() as u64),
{
    store.create_link(base_address, target_address, link_type, tag)
}

/// An alert and those to alert.
#[derive(Clone, Debug, PartialEq)]
pub struct NotifyAlertInput {
    pub alert: GatherNotification,
    pub agents: Vec<AgentPubKey>,
}

/// A request to the notifications module to notify one participant.
#[derive(Clone, Copy, Debug, PartialEq, Eq, Structural)]
pub struct NotifyAgentInput {
    pub agent: AgentPubKey,
    pub notification: GatherNotification,
}

/// The store after the first `n` of `agents` were alerted: for each, in
/// order, an edge from the participant to the same participant carries the
/// alert.
pub open spec fn alerted(s: StoreView, alert: GatherNotification, agents: Seq<AgentPubKey>, n: nat) -> StoreView
    decreases n,
{
    if n == 0 || n > agents.len() {
        s
    } else {
        alerted(s, alert, agents, (n - 1) as nat).with_link(
            agents[n - 1].linkable(),
            agents[n - 1].linkable(),
            LinkTypes::MyAlerts.scoped_spec(),
            LinkTag::Alert(alert),
        )
    }
}

/// Alerts each of `input.agents`, and hands back the requests to send to
/// the notifications module, one for each participant, in order.
pub fn notify_alert(store: &mut Store, input: NotifyAlertInput) -> (r: Vec<NotifyAgentInput>)
    requires
        old(store).wf(),
    ensures
        final(store).wf(),
        final(store)@ == alerted(old(store)@, input.alert, input.agents@, input.agents@.len()),
        r@.len() == input.agents@.len(),
        forall|k: int|
            0 <= k < r@.len() ==> #[trigger] r@[k] == (NotifyAgentInput {
                agent: input.agents@[k],
                notification: input.alert,
            }),
{
    let ghost before = store@;
    let mut out: Vec<NotifyAgentInput> = Vec::new();
    let mut i: usize = 0;
    while i < input.agents.len()
        invariant
            i <= input.agents@.len(),
            store.wf(),
            store@ == alerted(before, input.alert, input.agents@, i as nat),
            out@.len() == i,
            forall|k: int|
                0 <= k < i ==> #[trigger] out@[k] == (NotifyAgentInput {
                    agent: input.agents@[k],
                    notification: input.alert,
                }),
        decreases input.agents@.len() - i,
    {
        let agent = input.agents[i];
        create_link_relaxed(
            store,
            agent.into_linkable(),
            agent.into_linkable(),
            LinkTypes::MyAlerts.scoped(),
            LinkTag::Alert(input.alert),
        );
        out.push(NotifyAgentInput { agent, notification: input.alert });
        i = i + 1;
    }
    out
}

/// The position of the first of `hashes` that names no commit of an edge,
/// or the length of `hashes` where each names one.
pub open spec fn first_unknown(log: Seq<Record>, hashes: Seq<ActionHash>) -> int
    decreases hashes.len(),
{
    if hashes.len() == 0 {
        0
    } else {
        let before = first_unknown(log, hashes.drop_last());
        if before < hashes.len() - 1 {
            before
        } else if is_link_commit(log, hashes.last()) {
            hashes.len() as int
        } else {
            hashes.len() - 1
        }
    }
}

/// Marks alerts as read: tombstones the edge instances that
/// `alerts_action_hashes` name, in order. Stops with a failure at the first
/// that names no commit of an edge; the earlier ones stay tombstoned.
pub fn mark_alerts_as_read(store: &mut Store, alerts_action_hashes: Vec<ActionHash>) -> (r: Result<
    (),
    GatherError,
>)
    requires
        old(store).wf(),
    ensures
        final(store).wf(),
        0 <= first_unknown(old(store)@.log, alerts_action_hashes@) <= alerts_action_hashes@.len(),
        final(store)@ == old(store)@.with_link_tombstones(
            alerts_action_hashes@.take(first_unknown(old(store)@.log, alerts_action_hashes@)),
        ),
        r is Ok <==> first_unknown(old(store)@.log, alerts_action_hashes@)
            == alerts_action_hashes@.len(),
        r matches Err(e) ==> e == GatherError::PolicyViolation(
            StoreError::NotALinkCommit(
                alerts_action_hashes@[first_unknown(old(store)@.log, alerts_action_hashes@)],
            ),
        ),
{
    let ghost before = store@;
    let mut i: usize = 0;
    while i < alerts_action_hashes.len()
        invariant
            i <= alerts_action_hashes@.len(),
            store.wf(),
            before == old(store)@,
            store@ == before.with_link_tombstones(alerts_action_hashes@.take(i as int)),
            extends(before.log, store@.log),
            first_unknown(before.log, alerts_action_hashes@.take(i as int)) == i,
            forall|j: int|
                before.log.len() <= j < store@.log.len() ==> !((
                #[trigger] store@.log[j]).signed_action.action is CreateLink),
        decreases alerts_action_hashes@.len() - i,
    {
        let h = alerts_action_hashes[i];
        proof {
            lemma_take_step(alerts_action_hashes@, i as int);
            if h.0 < before.log.len() {
                assert(store@.log[h.0 as int] == before.log[h.0 as int]);
            }
        }
        let ghost mid = store@;
        match store.delete_link(h) {
            Ok(_) => {
                proof {
                    assert(is_link_commit(mid.log, h));
                    assert(mid.log[h.0 as int].signed_action.action is CreateLink);
                    assert(h.0 < before.log.len());
                    assert(is_link_commit(before.log, h));
                }
            },
            Err(e) => {
                proof {
                    lemma_first_unknown(before.log, alerts_action_hashes@, i as int);
                }
                return Err(GatherError::PolicyViolation(e));
            },
        }
        i = i + 1;
    }
    proof {
        assert(alerts_action_hashes@.take(i as int) =~= alerts_action_hashes@);
    }
    Ok(())
}

/// Where the first `i` of `hashes` name commits of edges and the next one
/// does not, `i` is the position of the first that does not.
pub proof fn lemma_first_unknown(log: Seq<Record>, hashes: Seq<ActionHash>, i: int)
    requires
        0 <= i < hashes.len(),
        first_unknown(log, hashes.take(i)) == i,
        !is_link_commit(log, hashes[i]),
    ensures
        first_unknown(log, hashes) == i,
    decreases hashes.len(),
{
    if i == hashes.len() - 1 {
        assert(hashes.drop_last() =~= hashes.take(i));
    } else {
        assert(hashes.drop_last().take(i) =~= hashes.take(i));
        lemma_first_unknown(log, hashes.drop_last(), i);
    }
}

fn copy_actions(actions: &Vec<SignedActionHashed>) -> (r: Vec<SignedActionHashed>)
    ensures
        r@ == actions@,
{
    let mut out: Vec<SignedActionHashed> = Vec::new();
    let mut i: usize = 0;
    while i < actions.len()
        invariant
            i <= actions@.len(),
            out@ == actions@.take(i as int),
        decreases actions@.len() - i,
    {
        out.push(actions[i]);
        proof {
            assert(actions@.take(i + 1) =~= actions@.take(i as int).push(actions@[i as int]));
        }
        i = i + 1;
    }
    proof {
        assert(actions@.take(i as int) =~= actions@);
    }
    out
}

/// The acting participant's alerts that were read, oldest first, each with
/// its tombstones, oldest first.
pub fn get_read_alerts(store: &Store) -> (r: Vec<(SignedActionHashed, Vec<SignedActionHashed>)>)
    ensures
        r@.len() == alerts_of(store@.log, store@.agent, true).len(),
        forall|k: int|
            0 <= k < r@.len() ==> (#[trigger] r@[k]).0 == alerts_of(
                store@.log,
                store@.agent,
                true,
            )[k] && r@[k].1@ == link_deletes_of(store@.log, r@[k].0.hash),
{
    let agent_pub_key = store.agent_info();
    let details = store.get_link_details(
        agent_pub_key.agent_initial_pubkey.into_linkable(),
        LinkTypes::MyAlerts.scoped(),
    );
    let read = read_of(&details);
    proof {
        lemma_alerts_among(
            store@.log,
            link_creates(store@.log, store@.agent.linkable(), LinkTypes::MyAlerts.scoped_spec()),
            details@,
            details@.len(),
        );
    }
    let ghost positions = read_positions(details@, details@.len());
    let mut out: Vec<(SignedActionHashed, Vec<SignedActionHashed>)> = Vec::new();
    let mut i: usize = 0;
    while i < read.len()
        invariant
            i <= read@.len(),
            out@.len() == i,
            forall|k: int|
                0 <= k < i ==> (#[trigger] out@[k]).0 == read@[k].0 && out@[k].1@ == read@[k].1@,
        decreases read@.len() - i,
    {
        let pair = read[i];
        let ghost before = out@;
        out.push((pair.0, copy_actions(&pair.1)));
        proof {
            assert forall|k: int| 0 <= k < i + 1 implies (#[trigger] out@[k]).0 == read@[k].0
                && out@[k].1@ == read@[k].1@ by {
                if k < i {
                    assert(out@[k] == before[k]);
                }
            }
        }
        i = i + 1;
    }
    proof {
        assert forall|k: int| 0 <= k < out@.len() implies (#[trigger] out@[k]).0 == alerts_of(
            store@.log,
            store@.agent,
            true,
        )[k] && out@[k].1@ == link_deletes_of(store@.log, out@[k].0.hash) by {
            assert(*read@[k] == details@[positions[k]]);
        }
    }
    out
}

/// The notifications of the alerts module.
pub struct AlertsNotifications;

/// What the alerts module implements.
pub enum ZomeTraits {
    PendingNotifications(AlertsNotifications),
}

/// What the alert at `hash` reads: nothing where the store does not hold
/// it; a failure where the commit creates no edge.
pub open spec fn plain_notification(log: Seq<Record>, dna: crate::hash::DnaHash, hash: AnyDhtHash) -> Result<
    Option<NotificationView>,
    GatherError,
> {
    match hash {
        AnyDhtHash::Entry(_) => Ok(None),
        AnyDhtHash::Action(h) => match record_of(log, h) {
            None => Ok(None),
            Some(record) => match record.signed_action.action {
                Action::CreateLink(_) => Ok(
                    Some(
                        NotificationView {
                            title: "hey"@,
                            body: "ho"@,
                            hrl: Hrl { dna_hash: dna, resource_hash: hash },
                            context: Seq::empty(),
                            pending: true,
                        },
                    ),
                ),
                _ => Err(GatherError::MalformedData(Malformed::NotACreateLink)),
            },
        },
    }
}

/// The notifications that wait at `alerts`, in order: each names its alert
/// as the place to go to.
pub open spec fn plain_pending(dna: crate::hash::DnaHash, alerts: Seq<SignedActionHashed>) -> Seq<
    PendingNotificationView,
> {
    Seq::new(
        alerts.len(),
        |k: int|
            PendingNotificationView {
                id: AnyDhtHash::Action(alerts[k].hash),
                title: "hey"@,
                body: "ho"@,
                hrl: Hrl { dna_hash: dna, resource_hash: AnyDhtHash::Action(alerts[k].hash) },
                context: Seq::empty(),
            },
    )
}

impl PendingNotifications for AlertsNotifications {
    fn get_pending_notifications(&self, store: &Store) -> (r: Result<
        Vec<PendingNotification>,
        GatherError,
    >)
        ensures
            same_pending(
                r,
                Ok(plain_pending(store@.dna, alerts_of(store@.log, store@.agent, false))),
            ),
    {
        let alerts = get_unread_alerts(store);
        let mut out: Vec<PendingNotification> = Vec::new();
        let mut i: usize = 0;
        while i < alerts.len()
            invariant
                i <= alerts@.len(),
                out@.len() == i,
                alerts@ == alerts_of(store@.log, store@.agent, false),
                forall|k: int|
                    0 <= k < i ==> (#[trigger] out@[k])@ == plain_pending(store@.dna, alerts@)[k],
            decreases alerts@.len() - i,
        {
            let id = alerts[i].hash.into_any_dht_hash();
            let ghost before = out@;
            out.push(
                PendingNotification {
                    id,
                    title: "hey".to_owned(),
                    body: "ho".to_owned(),
                    hrl_to_navigate_to_on_click: HrlWithContext {
                        hrl: Hrl { dna_hash: store.dna_info().hash, resource_hash: id },
                        context: Vec::new(),
                    },
                },
            );
            proof {
                assert forall|k: int| 0 <= k < i + 1 implies (#[trigger] out@[k])@
                    == plain_pending(store@.dna, alerts@)[k] by {
                    if k < i {
                        assert(out@[k] == before[k]);
                    }
                }
            }
            i = i + 1;
        }
        Ok(out)
    }

    fn get_notification(&self, store: &Store, input: GetNotificationInput) -> (r: Result<
        Option<Notification>,
        GatherError,
    >)
        ensures
            same_notification(
                r,
                plain_notification(store@.log, store@.dna, input.notification_hash),
            ),
    {
        let h = match input.notification_hash.into_action_hash() {
            None => {
                return Ok(None);
            },
            Some(h) => h,
        };
        let record = match store.get(h) {
            None => {
                return Ok(None);
            },
            Some(record) => record,
        };
        match record.signed_action.action {
            Action::CreateLink(_) => Ok(
                Some(
                    Notification {
                        title: "hey".to_owned(),
                        body: "ho".to_owned(),
                        hrl_to_navigate_to_on_click: HrlWithContext {
                            hrl: Hrl {
                                dna_hash: store.dna_info().hash,
                                resource_hash: input.notification_hash,
                            },
                            context: Vec::new(),
                        },
                        pending: true,
                    },
                ),
            ),
            _ => Err(GatherError::MalformedData(Malformed::NotACreateLink)),
        }
    }
}

} // verus!
