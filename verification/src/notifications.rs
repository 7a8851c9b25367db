//! Notifications about events and proposals.

use vstd::prelude::*;
use crate::error::{GatherError, Malformed, Missing, RemoteFailure};
use crate::event::get_latest_event;
use crate::hash::{ActionHash, AnyDhtHash, DnaHash};
use crate::integrity::{EntryTypes, Event, Proposal};
use crate::log::record_of;
use crate::alerts::{alerts_of, get_unread_alerts};
use crate::pending_notifications::{
    same_pending, GetNotificationInput, Hrl, HrlWithContext, Notification, NotificationView,
    PendingNotification, PendingNotificationView, PendingNotifications,
};
use crate::proposal::get_proposal;
use crate::record::{Action, LinkTag, Record, SignedActionHashed};
use crate::revisions::resolve;
use crate::store::Store;

verus! {

/// What happened to an event or a proposal.
#[derive(Clone, Copy, Debug, PartialEq, Eq, Structural)]
pub enum GatherAction {
    ProposalCreated { action_hash: ActionHash },
    ProposalUpdated { action_hash: ActionHash },
    ProposalCancelled { action_hash: ActionHash },
    ProposalUncancelled { action_hash: ActionHash },
    ProposalExpired { action_hash: ActionHash, timestamp: u64 },
    EventCreated { action_hash: ActionHash },
    EventUpdated { action_hash: ActionHash },
    EventCancelled { action_hash: ActionHash },
    EventUncancelled { action_hash: ActionHash },
    CommitmentCreated { action_hash: ActionHash },
    CommitmentCancelled { action_hash: ActionHash },
    CommitmentCancellationUndone { action_hash: ActionHash },
    SatisfactionCreated { action_hash: ActionHash },
    SatisfactionDeleted { action_hash: ActionHash },
    AssemblyCreated { action_hash: ActionHash },
}

/// An alert about an event or about a proposal.
#[derive(Clone, Copy, Debug, PartialEq, Eq, Structural)]
pub enum GatherNotification {
    EventAlert { event_hash: ActionHash, action: GatherAction },
    ProposalAlert { proposal_hash: ActionHash, action: GatherAction },
}

/// What a call into the module that tracks needs and assemblies hands
/// back: on success the assemblies that were asked for, by their commits.
#[derive(Clone, Debug, PartialEq)]
pub enum ZomeCallResponse {
    Returned(Vec<ActionHash>),
    Unauthorized,
    AuthenticationFailed,
    NetworkError,
    CountersigningSession,
}

/// What a response that is no success means.
pub open spec fn remote_failure(response: ZomeCallResponse) -> RemoteFailure {
    match response {
        ZomeCallResponse::Unauthorized => RemoteFailure::Unauthorized,
        ZomeCallResponse::AuthenticationFailed => RemoteFailure::AuthenticationFailed,
        ZomeCallResponse::NetworkError => RemoteFailure::NetworkError,
        _ => RemoteFailure::CountersigningSession,
    }
}

/// The answer that a response carries: what was asked for on success, a
/// failure of the remote call otherwise.
pub fn call_assemble(response: ZomeCallResponse) -> (r: Result<Vec<ActionHash>, GatherError>)
    ensures
        r == (match response {
            ZomeCallResponse::Returned(records) => Ok::<Vec<ActionHash>, GatherError>(records),
            _ => Err(GatherError::RemoteFailure(remote_failure(response))),
        }),
{
    match response {
        ZomeCallResponse::Returned(records) => Ok(records),
        ZomeCallResponse::Unauthorized => Err(
            GatherError::RemoteFailure(RemoteFailure::Unauthorized),
        ),
        ZomeCallResponse::AuthenticationFailed => Err(
            GatherError::RemoteFailure(RemoteFailure::AuthenticationFailed),
        ),
        ZomeCallResponse::NetworkError => Err(
            GatherError::RemoteFailure(RemoteFailure::NetworkError),
        ),
        ZomeCallResponse::CountersigningSession => Err(
            GatherError::RemoteFailure(RemoteFailure::CountersigningSession),
        ),
    }
}

/// One unit of a translation document: a text and what it reads in the
/// document's language.
#[derive(Clone, Debug, PartialEq)]
pub struct TranslationUnit {
    pub source: Option<String>,
    pub target: Option<String>,
}

/// A translation document: its files, each with its units, as they stand
/// in the document.
#[derive(Clone, Debug, PartialEq)]
pub struct Catalogue {
    pub files: Vec<Vec<TranslationUnit>>,
}

/// The first unit of `units`, from position `from` on, whose text is
/// `source`.
pub open spec fn find_in_file(units: Seq<TranslationUnit>, source: Seq<char>, from: int) -> Option<
    TranslationUnit,
>
    decreases units.len() - from,
{
    if from < 0 || from >= units.len() {
        None
    } else if units[from].source matches Some(s) && s@ == source {
        Some(units[from])
    } else {
        find_in_file(units, source, from + 1)
    }
}

/// The first unit whose text is `source`, in the files from position `from`
/// on, file by file.
pub open spec fn find_unit(files: Seq<Vec<TranslationUnit>>, source: Seq<char>, from: int) -> Option<
    TranslationUnit,
>
    decreases files.len() - from,
{
    if from < 0 || from >= files.len() {
        None
    } else {
        match find_in_file(files[from]@, source, 0) {
            Some(u) => Some(u),
            None => find_unit(files, source, from + 1),
        }
    }
}

/// What `source` reads in the language of `catalogue`: the translation of
/// the first unit with that text; the text itself where no unit has it, or
/// where the first one that has it is not translated.
pub open spec fn translated(catalogue: Catalogue, source: Seq<char>) -> Seq<char> {
    match find_unit(catalogue.files@, source, 0) {
        Some(u) => match u.target {
            Some(t) => t@,
            None => source,
        },
        None => source,
    }
}

/// What `source` reads for a reader of `locale`: Swedish for `sv`, taken
/// from the Swedish catalogue; the text itself, which is English, for every
/// other locale.
pub open spec fn localized(locale: Seq<char>, source: Seq<char>, sv: Catalogue) -> Seq<char> {
    if locale == "sv"@ {
        translated(sv, source)
    } else {
        source
    }
}

/// What `source` reads in the language of `catalogue`.
pub fn t_from_xliff(catalogue: &Catalogue, source: &str) -> (r: String)
    ensures
        r@ == translated(*catalogue, source@),
{
    let wanted = source.to_owned();
    let mut i: usize = 0;
    while i < catalogue.files.len()
        invariant
            i <= catalogue.files@.len(),
            wanted@ == source@,
            find_unit(catalogue.files@, source@, 0) == find_unit(
                catalogue.files@,
                source@,
                i as int,
            ),
        decreases catalogue.files@.len() - i,
    {
        let units = &catalogue.files[i];
        let mut j: usize = 0;
        while j < units.len()
            invariant
                j <= units@.len(),
                i < catalogue.files@.len(),
                units@ == catalogue.files@[i as int]@,
                wanted@ == source@,
                find_unit(catalogue.files@, source@, 0) == find_unit(
                    catalogue.files@,
                    source@,
                    i as int,
                ),
                find_in_file(units@, source@, 0) == find_in_file(units@, source@, j as int),
            decreases units@.len() - j,
        {
            let unit = &units[j];
            match &unit.source {
                Some(s) => {
                    if *s == wanted {
                        return match &unit.target {
                            Some(t) => t.clone(),
                            None => wanted,
                        };
                    }
                },
                None => {},
            }
            j = j + 1;
        }
        i = i + 1;
    }
    wanted
}

/// What `source` reads for a reader of `locale`.
pub fn t(locale: &str, source: &str, sv: &Catalogue) -> (r: String)
    ensures
        r@ == localized(locale@, source@, *sv),
{
    if locale.to_owned() == "sv".to_owned() {
        t_from_xliff(sv, source)
    } else {
        source.to_owned()
    }
}

/// What is said about `action`, in English. Of a created event it says
/// whether the event came of a proposal.
pub open spec fn body_text(action: GatherAction, from_proposal: bool) -> Seq<char> {
    match action {
        GatherAction::ProposalCreated { .. } => "Proposal was created."@,
        GatherAction::ProposalCancelled { .. } => "Proposal was cancelled."@,
        GatherAction::ProposalUncancelled { .. } => "Proposal was uncancelled!"@,
        GatherAction::ProposalExpired { .. } =>
        "Proposal expired without meeting the minimum required needs."@,
        GatherAction::ProposalUpdated { .. } => "Proposal was updated."@,
        GatherAction::EventCreated { .. } => if from_proposal {
            "The proposal succeeded! It is now an event."@
        } else {
            "Event was created."@
        },
        GatherAction::EventCancelled { .. } => "Event was cancelled."@,
        GatherAction::EventUncancelled { .. } => "Event was uncancelled!"@,
        GatherAction::EventUpdated { .. } => "Event was updated."@,
        GatherAction::SatisfactionCreated { .. } => "One of the needs was satisfied."@,
        GatherAction::SatisfactionDeleted { .. } => "One of the needs is no longer satisfied."@,
        GatherAction::AssemblyCreated { .. } => "All needs have been satisfied!"@,
        _ => ""@,
    }
}

/// What is said about `action`, in English.
pub fn body_source(action: &GatherAction, from_proposal: bool) -> (r: &'static str)
    ensures
        r@ == body_text(*action, from_proposal),
{
    match action {
        GatherAction::ProposalCreated { .. } => "Proposal was created.",
        GatherAction::ProposalCancelled { .. } => "Proposal was cancelled.",
        GatherAction::ProposalUncancelled { .. } => "Proposal was uncancelled!",
        GatherAction::ProposalExpired { .. } =>
        "Proposal expired without meeting the minimum required needs.",
        GatherAction::ProposalUpdated { .. } => "Proposal was updated.",
        GatherAction::EventCreated { .. } => if from_proposal {
            "The proposal succeeded! It is now an event."
        } else {
            "Event was created."
        },
        GatherAction::EventCancelled { .. } => "Event was cancelled.",
        GatherAction::EventUncancelled { .. } => "Event was uncancelled!",
        GatherAction::EventUpdated { .. } => "Event was updated.",
        GatherAction::SatisfactionCreated { .. } => "One of the needs was satisfied.",
        GatherAction::SatisfactionDeleted { .. } => "One of the needs is no longer satisfied.",
        GatherAction::AssemblyCreated { .. } => "All needs have been satisfied!",
        _ => "",
    }
}

/// The event that a current revision carries: a failure where there is no
/// current revision, where it carries no entry, or where the entry is no
/// event.
pub open spec fn event_in(resolved: Result<Option<Record>, GatherError>) -> Result<
    Event,
    GatherError,
> {
    match resolved {
        Err(e) => Err(e),
        Ok(None) => Err(GatherError::NotFound(Missing::LatestEvent)),
        Ok(Some(record)) => match record.entry {
            None => Err(GatherError::MalformedData(Malformed::NoEntry)),
            Some(EntryTypes::Event(event)) => Ok(event),
            Some(_) => Err(GatherError::MalformedData(Malformed::NotAnEvent)),
        },
    }
}

/// The proposal that a current revision carries: a failure where there is
/// no current revision, where it carries no entry, or where the entry is no
/// proposal.
pub open spec fn proposal_in(resolved: Result<Option<Record>, GatherError>) -> Result<
    Proposal,
    GatherError,
> {
    match resolved {
        Err(e) => Err(e),
        Ok(None) => Err(GatherError::NotFound(Missing::LatestProposal)),
        Ok(Some(record)) => match record.entry {
            None => Err(GatherError::MalformedData(Malformed::NoEntry)),
            Some(EntryTypes::Proposal(proposal)) => Ok(proposal),
            Some(_) => Err(GatherError::MalformedData(Malformed::NotAProposal)),
        },
    }
}

/// The event that a current revision carries.
pub fn latest_event<'a>(resolved: Result<Option<&'a Record>, GatherError>) -> (r: Result<
    &'a Event,
    GatherError,
>)
    ensures
        match (r, resolved) {
            (Ok(event), Ok(Some(record))) => record.entry == Some(EntryTypes::Event(*event)),
            (Err(e), Ok(Some(record))) => !(record.entry matches Some(EntryTypes::Event(_))) && e
                == (if record.entry is None {
                GatherError::MalformedData(Malformed::NoEntry)
            } else {
                GatherError::MalformedData(Malformed::NotAnEvent)
            }),
            (Err(e), Ok(None)) => e == GatherError::NotFound(Missing::LatestEvent),
            (Err(e), Err(f)) => e == f,
            _ => false,
        },
{
    match resolved {
        Err(e) => Err(e),
        Ok(None) => Err(GatherError::NotFound(Missing::LatestEvent)),
        Ok(Some(record)) => match &record.entry {
            None => Err(GatherError::MalformedData(Malformed::NoEntry)),
            Some(EntryTypes::Event(event)) => Ok(event),
            Some(_) => Err(GatherError::MalformedData(Malformed::NotAnEvent)),
        },
    }
}

/// The proposal that a current revision carries.
pub fn latest_proposal<'a>(resolved: Result<Option<&'a Record>, GatherError>) -> (r: Result<
    &'a Proposal,
    GatherError,
>)
    ensures
        match (r, resolved) {
            (Ok(proposal), Ok(Some(record))) => record.entry == Some(
                EntryTypes::Proposal(*proposal),
            ),
            (Err(e), Ok(Some(record))) => !(record.entry matches Some(EntryTypes::Proposal(_)))
                && e == (if record.entry is None {
                GatherError::MalformedData(Malformed::NoEntry)
            } else {
                GatherError::MalformedData(Malformed::NotAProposal)
            }),
            (Err(e), Ok(None)) => e == GatherError::NotFound(Missing::LatestProposal),
            (Err(e), Err(f)) => e == f,
            _ => false,
        },
{
    match resolved {
        Err(e) => Err(e),
        Ok(None) => Err(GatherError::NotFound(Missing::LatestProposal)),
        Ok(Some(record)) => match &record.entry {
            None => Err(GatherError::MalformedData(Malformed::NoEntry)),
            Some(EntryTypes::Proposal(proposal)) => Ok(proposal),
            Some(_) => Err(GatherError::MalformedData(Malformed::NotAProposal)),
        },
    }
}

/// The body of a notification about `action` for a reader of `locale`. For
/// a created event the event's current revision decides what is said: a
/// failure where there is none or it carries no event.
pub open spec fn body_of(
    log: Seq<Record>,
    action: GatherAction,
    locale: Seq<char>,
    sv: Catalogue,
) -> Result<Seq<char>, GatherError> {
    match action {
        GatherAction::EventCreated { action_hash } => match event_in(resolve(log, action_hash)) {
            Err(e) => Err(e),
            Ok(event) => Ok(localized(locale, body_text(action, event.from_proposal is Some), sv)),
        },
        _ => Ok(localized(locale, body_text(action, false), sv)),
    }
}

/// The body of a notification about `action` for a reader of `locale`.
pub fn get_body(store: &Store, action: GatherAction, locale: &str, sv: &Catalogue) -> (r: Result<
    String,
    GatherError,
>)
    ensures
        match (r, body_of(store@.log, action, locale@, *sv)) {
            (Ok(body), Ok(text)) => body@ == text,
            (Err(e), Err(f)) => e == f,
            _ => false,
        },
{
    let from_proposal = match action {
        GatherAction::EventCreated { action_hash } => {
            match latest_event(get_latest_event(store, action_hash)) {
                Err(e) => {
                    return Err(e);
                },
                Ok(event) => event.from_proposal.is_some(),
            }
        },
        _ => false,
    };
    Ok(t(locale, body_source(&action, from_proposal), sv))
}

/// The alert that the commit `hash` carries: nothing where the store does
/// not hold the commit; a failure where the commit creates no edge, or the
/// edge carries no alert.
pub open spec fn alert_of(log: Seq<Record>, hash: AnyDhtHash) -> Result<
    Option<GatherNotification>,
    GatherError,
> {
    match hash {
        AnyDhtHash::Entry(_) => Ok(None),
        AnyDhtHash::Action(h) => match record_of(log, h) {
            None => Ok(None),
            Some(record) => match record.signed_action.action {
                Action::CreateLink(c) => match c.tag {
                    LinkTag::Alert(alert) => Ok(Some(alert)),
                    _ => Err(GatherError::MalformedData(Malformed::NotANotification)),
                },
                _ => Err(GatherError::MalformedData(Malformed::NotACreateLink)),
            },
        },
    }
}

/// The alert that a fetched commit carries: nothing where nothing was
/// found; a failure where the commit creates no edge, or the edge carries
/// no alert.
pub fn alert_in(found: Option<&Record>) -> (r: Result<Option<GatherNotification>, GatherError>)
    ensures
        r == (match found {
            None => Ok::<Option<GatherNotification>, GatherError>(None),
            Some(record) => match record.signed_action.action {
                Action::CreateLink(c) => match c.tag {
                    LinkTag::Alert(alert) => Ok(Some(alert)),
                    _ => Err(GatherError::MalformedData(Malformed::NotANotification)),
                },
                _ => Err(GatherError::MalformedData(Malformed::NotACreateLink)),
            },
        }),
{
    match found {
        None => Ok(None),
        Some(record) => match record.signed_action.action {
            Action::CreateLink(c) => match c.tag {
                LinkTag::Alert(alert) => Ok(Some(alert)),
                _ => Err(GatherError::MalformedData(Malformed::NotANotification)),
            },
            _ => Err(GatherError::MalformedData(Malformed::NotACreateLink)),
        },
    }
}

/// The alert that the commit `hash` carries.
pub fn get_alert(store: &Store, hash: AnyDhtHash) -> (r: Result<
    Option<GatherNotification>,
    GatherError,
>)
    ensures
        r == alert_of(store@.log, hash),
{
    match hash.into_action_hash() {
        None => Ok(None),
        Some(h) => alert_in(store.get(h)),
    }
}

/// What `alert` reads for a reader of `locale`: the title of the current
/// revision of the event or proposal, what is said about the action, and
/// the event or proposal as the place to go to.
pub open spec fn notification_of(
    log: Seq<Record>,
    dna: DnaHash,
    alert: GatherNotification,
    locale: Seq<char>,
    sv: Catalogue,
) -> Result<NotificationView, GatherError> {
    match alert {
        GatherNotification::EventAlert { event_hash, action } => match event_in(
            resolve(log, event_hash),
        ) {
            Err(e) => Err(e),
            Ok(event) => match body_of(log, action, locale, sv) {
                Err(e) => Err(e),
                Ok(body) => Ok(
                    NotificationView {
                        title: event.title@,
                        body,
                        hrl: Hrl { dna_hash: dna, resource_hash: AnyDhtHash::Action(event_hash) },
                        context: Seq::empty(),
                        pending: true,
                    },
                ),
            },
        },
        GatherNotification::ProposalAlert { proposal_hash, action } => match proposal_in(
            resolve(log, proposal_hash),
        ) {
            Err(e) => Err(e),
            Ok(proposal) => match body_of(log, action, locale, sv) {
                Err(e) => Err(e),
                Ok(body) => Ok(
                    NotificationView {
                        title: proposal.title@,
                        body,
                        hrl: Hrl {
                            dna_hash: dna,
                            resource_hash: AnyDhtHash::Action(proposal_hash),
                        },
                        context: Seq::empty(),
                        pending: true,
                    },
                ),
            },
        },
    }
}

/// What the notification at `hash` reads: nothing where the store does not
/// hold it.
pub open spec fn resolved_notification(
    log: Seq<Record>,
    dna: DnaHash,
    hash: AnyDhtHash,
    locale: Seq<char>,
    sv: Catalogue,
) -> Result<Option<NotificationView>, GatherError> {
    match alert_of(log, hash) {
        Err(e) => Err(e),
        Ok(None) => Ok(None),
        Ok(Some(alert)) => match notification_of(log, dna, alert, locale, sv) {
            Err(e) => Err(e),
            Ok(n) => Ok(Some(n)),
        },
    }
}

/// Whether a resolved notification, or a failure, is what was to be found.
pub open spec fn same_notification(
    r: Result<Option<Notification>, GatherError>,
    m: Result<Option<NotificationView>, GatherError>,
) -> bool {
    match (r, m) {
        (Ok(Some(a)), Ok(Some(b))) => a@ == b,
        (Ok(None), Ok(None)) => true,
        (Err(e), Err(f)) => e == f,
        _ => false,
    }
}

/// The notifications of the gathering module, with the Swedish catalogue
/// that their bodies are translated by.
pub struct AlertsNotifications {
    pub sv: Catalogue,
}

/// What the gathering module implements.
pub enum ZomeTraits {
    PendingNotifications(AlertsNotifications),
}

impl AlertsNotifications {
    /// Resolves the alert at `input.notification_hash` for a reader of
    /// `input.locale`.
    pub fn resolve(&self, store: &Store, input: GetNotificationInput) -> (r: Result<
        Option<Notification>,
        GatherError,
    >)
        requires
            store.wf(),
        ensures
            same_notification(
                r,
                resolved_notification(
                    store@.log,
                    store@.dna,
                    input.notification_hash,
                    input.locale@,
                    self.sv,
                ),
            ),
    {
        let alert = match get_alert(store, input.notification_hash) {
            Err(e) => {
                return Err(e);
            },
            Ok(None) => {
                return Ok(None);
            },
            Ok(Some(alert)) => alert,
        };
        match alert {
            GatherNotification::EventAlert { event_hash, action } => {
                let event = match latest_event(get_latest_event(store, event_hash)) {
                    Err(e) => {
                        return Err(e);
                    },
                    Ok(event) => event,
                };
                let body = match get_body(store, action, input.locale.as_str(), &self.sv) {
                    Err(e) => {
                        return Err(e);
                    },
                    Ok(body) => body,
                };
                Ok(
                    Some(
                        Notification {
                            title: event.title.clone(),
                            body,
                            hrl_to_navigate_to_on_click: HrlWithContext {
                                hrl: Hrl {
                                    dna_hash: store.dna_info().hash,
                                    resource_hash: event_hash.into_any_dht_hash(),
                                },
                                context: Vec::new(),
                            },
                            pending: true,
                        },
                    ),
                )
            },
            GatherNotification::ProposalAlert { proposal_hash, action } => {
                let proposal = match latest_proposal(get_proposal(store, proposal_hash)) {
                    Err(e) => {
                        return Err(e);
                    },
                    Ok(proposal) => proposal,
                };
                let body = match get_body(store, action, input.locale.as_str(), &self.sv) {
                    Err(e) => {
                        return Err(e);
                    },
                    Ok(body) => body,
                };
                Ok(
                    Some(
                        Notification {
                            title: proposal.title.clone(),
                            body,
                            hrl_to_navigate_to_on_click: HrlWithContext {
                                hrl: Hrl {
                                    dna_hash: store.dna_info().hash,
                                    resource_hash: proposal_hash.into_any_dht_hash(),
                                },
                                context: Vec::new(),
                            },
                            pending: true,
                        },
                    ),
                )
            },
        }
    }
}

/// The notification that waits at the commit `alert`, read in English: a
/// failure where the alert cannot be resolved.
pub open spec fn pending_at(log: Seq<Record>, dna: DnaHash, alert: ActionHash, sv: Catalogue) -> Result<
    Option<PendingNotificationView>,
    GatherError,
> {
    match resolved_notification(log, dna, AnyDhtHash::Action(alert), "en"@, sv) {
        Err(e) => Err(e),
        Ok(None) => Ok(None),
        Ok(Some(n)) => Ok(
            Some(
                PendingNotificationView {
                    id: AnyDhtHash::Action(alert),
                    title: n.title,
                    body: n.body,
                    hrl: n.hrl,
                    context: n.context,
                },
            ),
        ),
    }
}

/// The notifications that wait at the first `n` of `alerts`, in order: the
/// first failure to resolve one of them fails the listing.
pub open spec fn pending_among(
    log: Seq<Record>,
    dna: DnaHash,
    alerts: Seq<SignedActionHashed>,
    sv: Catalogue,
    n: nat,
) -> Result<Seq<PendingNotificationView>, GatherError>
    decreases n,
{
    if n == 0 || n > alerts.len() {
        Ok(Seq::empty())
    } else {
        match pending_among(log, dna, alerts, sv, (n - 1) as nat) {
            Err(e) => Err(e),
            Ok(before) => match pending_at(log, dna, alerts[n - 1].hash, sv) {
                Err(e) => Err(e),
                Ok(None) => Ok(before),
                Ok(Some(p)) => Ok(before.push(p)),
            },
        }
    }
}

impl AlertsNotifications {
    /// The notifications that wait to be read by the acting participant:
    /// the participant's unread alerts, oldest first, each resolved in
    /// English.
    pub fn pending(&self, store: &Store) -> (r: Result<Vec<PendingNotification>, GatherError>)
        requires
            store.wf(),
        ensures
            same_pending(
                r,
                pending_among(
                    store@.log,
                    store@.dna,
                    alerts_of(store@.log, store@.agent, false),
                    self.sv,
                    alerts_of(store@.log, store@.agent, false).len(),
                ),
            ),
    {
        let alerts = get_unread_alerts(store);
        let mut out: Vec<PendingNotification> = Vec::new();
        let ghost mut views: Seq<PendingNotificationView> = Seq::empty();
        let mut i: usize = 0;
        while i < alerts.len()
            invariant
                i <= alerts@.len(),
                store.wf(),
                alerts@ == alerts_of(store@.log, store@.agent, false),
                pending_among(store@.log, store@.dna, alerts@, self.sv, i as nat) == Ok::<
                    Seq<PendingNotificationView>,
                    GatherError,
                >(views),
                out@.len() == views.len(),
                forall|k: int| 0 <= k < views.len() ==> (#[trigger] out@[k])@ == views[k],
            decreases alerts@.len() - i,
        {
            let id = alerts[i].hash.into_any_dht_hash();
            let input = GetNotificationInput { notification_hash: id, locale: "en".to_owned() };
            let ghost before = out@;
            match self.resolve(store, input) {
                Err(e) => {
                    proof {
                        lemma_pending_fails(
                            store@.log,
                            store@.dna,
                            alerts@,
                            self.sv,
                            (i + 1) as nat,
                            alerts@.len(),
                        );
                    }
                    return Err(e);
                },
                Ok(None) => {},
                Ok(Some(n)) => {
                    let pending = PendingNotification {
                        id,
                        title: n.title,
                        body: n.body,
                        hrl_to_navigate_to_on_click: n.hrl_to_navigate_to_on_click,
                    };
                    proof {
                        let next = views.push(pending@);
                        views = next;
                    }
                    out.push(pending);
                    proof {
                        assert forall|k: int| 0 <= k < views.len() implies (#[trigger] out@[k])@
                            == views[k] by {
                            if k < before.len() {
                                assert(out@[k] == before[k]);
                            }
                        }
                    }
                },
            }
            i = i + 1;
        }
        Ok(out)
    }
}

/// A listing that fails at some alert fails whatever follows.
pub proof fn lemma_pending_fails(
    log: Seq<Record>,
    dna: DnaHash,
    alerts: Seq<SignedActionHashed>,
    sv: Catalogue,
    n: nat,
    m: nat,
)
    requires
        n <= m <= alerts.len(),
        pending_among(log, dna, alerts, sv, n) is Err,
    ensures
        pending_among(log, dna, alerts, sv, m) == pending_among(log, dna, alerts, sv, n),
    decreases m,
{
    if n < m {
        lemma_pending_fails(log, dna, alerts, sv, n, (m - 1) as nat);
    }
}

impl PendingNotifications for AlertsNotifications {
    fn get_pending_notifications(&self, store: &Store) -> (r: Result<
        Vec<PendingNotification>,
        GatherError,
    >)
        ensures
            same_pending(
                r,
                pending_among(
                    store@.log,
                    store@.dna,
                    alerts_of(store@.log, store@.agent, false),
                    self.sv,
                    alerts_of(store@.log, store@.agent, false).len(),
                ),
            ),
    {
        self.pending(store)
    }

    fn get_notification(&self, store: &Store, input: GetNotificationInput) -> (r: Result<
        Option<Notification>,
        GatherError,
    >)
        ensures
            same_notification(
                r,
                resolved_notification(
                    store@.log,
                    store@.dna,
                    input.notification_hash,
                    input.locale@,
                    self.sv,
                ),
            ),
    {
        self.resolve(store, input)
    }
}

} // verus!
