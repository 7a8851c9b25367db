use gather::alerts::{
    classify, create_link_relaxed, get_read_alerts, get_unread_alerts, mark_alerts_as_read,
    notify_alert, post_commit, read_of, signal_action, unread_of, InitCallbackResult,
    NotifyAgentInput, NotifyAlertInput, Signal,
};
use gather::alerts_integrity::LinkTypes as AlertLinkTypes;
use gather::error::{GatherError, Malformed, Missing, RemoteFailure, StoreError};
use gather::event::{create_event, update_event, UpdateEventInput};
use gather::hash::{ActionHash, AgentPubKey, AnyDhtHash, AnyLinkableHash, DnaHash, EntryHash};
use gather::integrity::{
    Cancellation, EntryTypes, Event, EventTime, FromProposal, LinkTypes, Proposal,
};
use gather::notifications::{
    body_source, call_assemble, get_alert, get_body, latest_event, latest_proposal, t,
    t_from_xliff, AlertsNotifications, Catalogue, GatherAction, GatherNotification,
    TranslationUnit, ZomeCallResponse,
};
use gather::pending_notifications::{
    GetNotificationInput, Hrl, HrlWithContext, Notification, PendingNotification,
    PendingNotifications,
};
use gather::proposal::create_proposal;
use gather::record::{Action, LinkTag, Timestamp};
use gather::store::Store;

fn new_store() -> Store {
    Store::new(AgentPubKey(1), DnaHash(7))
}

fn event(title: &str, from_proposal: Option<FromProposal>) -> Event {
    Event {
        hosts: vec![],
        title: title.to_string(),
        description: String::new(),
        image: EntryHash(0),
        location: String::new(),
        time: EventTime::Unique { start_time: Timestamp(100), end_time: Timestamp(200) },
        cost: None,
        call_to_action_hash: ActionHash(1000),
        from_proposal,
    }
}

fn proposal(title: &str) -> Proposal {
    Proposal {
        hosts: vec![],
        title: title.to_string(),
        description: String::new(),
        image: EntryHash(0),
        location: None,
        time: None,
        cost: None,
        call_to_action_hash: ActionHash(1000),
    }
}

fn unit(source: Option<&str>, target: Option<&str>) -> TranslationUnit {
    TranslationUnit { source: source.map(String::from), target: target.map(String::from) }
}

fn swedish() -> Catalogue {
    Catalogue {
        files: vec![
            vec![
                unit(None, Some("ingen text")),
                unit(Some("Event was created."), Some("Evenemanget skapades.")),
                unit(Some("Event was cancelled."), None),
            ],
            vec![
                unit(Some("Event was cancelled."), Some("Evenemanget ställdes in.")),
                unit(Some("Event was created."), Some("Skapat.")),
                unit(Some("Proposal was created."), Some("Förslaget skapades.")),
                unit(
                    Some("The proposal succeeded! It is now an event."),
                    Some("Förslaget lyckades! Det är nu ett evenemang."),
                ),
            ],
        ],
    }
}

#[test]
fn translation_takes_the_first_unit_with_the_text() {
    let sv = swedish();
    assert_eq!(t_from_xliff(&sv, "Event was created."), "Evenemanget skapades.");
    assert_eq!(t_from_xliff(&sv, "Proposal was created."), "Förslaget skapades.");
    // the first unit with the text has no translation: the text itself
    assert_eq!(t_from_xliff(&sv, "Event was cancelled."), "Event was cancelled.");
    assert_eq!(t_from_xliff(&sv, "Unknown."), "Unknown.");
    assert_eq!(t_from_xliff(&Catalogue { files: vec![] }, "Unknown."), "Unknown.");
}

#[test]
fn english_is_the_fallback() {
    let sv = swedish();
    assert_eq!(t("sv", "Event was created.", &sv), "Evenemanget skapades.");
    assert_eq!(t("en", "Event was created.", &sv), "Event was created.");
    assert_eq!(t("fr", "Event was created.", &sv), "Event was created.");
    assert_eq!(t("", "Event was created.", &sv), "Event was created.");
}

#[test]
fn bodies_by_action() {
    let h = ActionHash(0);
    let cases = [
        (GatherAction::ProposalCreated { action_hash: h }, "Proposal was created."),
        (GatherAction::ProposalCancelled { action_hash: h }, "Proposal was cancelled."),
        (GatherAction::ProposalUncancelled { action_hash: h }, "Proposal was uncancelled!"),
        (
            GatherAction::ProposalExpired { action_hash: h, timestamp: 5 },
            "Proposal expired without meeting the minimum required needs.",
        ),
        (GatherAction::ProposalUpdated { action_hash: h }, "Proposal was updated."),
        (GatherAction::EventCancelled { action_hash: h }, "Event was cancelled."),
        (GatherAction::EventUncancelled { action_hash: h }, "Event was uncancelled!"),
        (GatherAction::EventUpdated { action_hash: h }, "Event was updated."),
        (GatherAction::SatisfactionCreated { action_hash: h }, "One of the needs was satisfied."),
        (
            GatherAction::SatisfactionDeleted { action_hash: h },
            "One of the needs is no longer satisfied.",
        ),
        (GatherAction::AssemblyCreated { action_hash: h }, "All needs have been satisfied!"),
        (GatherAction::CommitmentCreated { action_hash: h }, ""),
        (GatherAction::CommitmentCancelled { action_hash: h }, ""),
        (GatherAction::CommitmentCancellationUndone { action_hash: h }, ""),
    ];
    let store = new_store();
    let sv = swedish();
    for (action, text) in cases.iter() {
        assert_eq!(body_source(action, false), *text);
        assert_eq!(get_body(&store, *action, "en", &sv), Ok(text.to_string()));
    }
    assert_eq!(
        body_source(&GatherAction::EventCreated { action_hash: h }, false),
        "Event was created."
    );
    assert_eq!(
        body_source(&GatherAction::EventCreated { action_hash: h }, true),
        "The proposal succeeded! It is now an event."
    );
}

#[test]
fn body_of_a_created_event_tells_where_it_came_from() {
    let mut store = new_store();
    let sv = swedish();
    let plain = create_event(&mut store, event("a", None)).unwrap().signed_action.hash;
    let from = create_event(
        &mut store,
        event(
            "b",
            Some(FromProposal { proposal_hash: ActionHash(70), assembly_hash: ActionHash(71) }),
        ),
    )
    .unwrap()
    .signed_action
    .hash;
    assert_eq!(
        get_body(&store, GatherAction::EventCreated { action_hash: plain }, "en", &sv),
        Ok("Event was created.".to_string())
    );
    assert_eq!(
        get_body(&store, GatherAction::EventCreated { action_hash: from }, "sv", &sv),
        Ok("Förslaget lyckades! Det är nu ett evenemang.".to_string())
    );
    assert_eq!(
        get_body(&store, GatherAction::EventCreated { action_hash: ActionHash(90) }, "en", &sv),
        Err(GatherError::NotFound(Missing::LatestEvent))
    );
    let p = create_proposal(&mut store, proposal("p")).unwrap().signed_action.hash;
    assert_eq!(
        get_body(&store, GatherAction::EventCreated { action_hash: p }, "en", &sv),
        Err(GatherError::MalformedData(Malformed::NotAnEvent))
    );
    let l = store.create_link(
        AnyLinkableHash::Action(plain),
        AnyLinkableHash::Action(plain),
        LinkTypes::MyEvents.scoped(),
        LinkTag::Unit,
    );
    assert_eq!(
        get_body(&store, GatherAction::EventCreated { action_hash: l }, "en", &sv),
        Err(GatherError::MalformedData(Malformed::NoEntry))
    );
}

#[test]
fn latest_entries_are_told_apart() {
    let mut store = new_store();
    let e = create_event(&mut store, event("a", None)).unwrap().clone();
    let p = create_proposal(&mut store, proposal("p")).unwrap().clone();
    assert_eq!(latest_event(Ok(Some(&e))).map(|x| x.title.clone()), Ok("a".to_string()));
    assert_eq!(latest_proposal(Ok(Some(&p))).map(|x| x.title.clone()), Ok("p".to_string()));
    assert_eq!(
        latest_proposal(Ok(Some(&e))).map(|x| x.clone()),
        Err(GatherError::MalformedData(Malformed::NotAProposal))
    );
    assert_eq!(
        latest_proposal(Ok(None)).map(|x| x.clone()),
        Err(GatherError::NotFound(Missing::LatestProposal))
    );
    assert_eq!(
        latest_event(Err(GatherError::MalformedData(Malformed::Details))).map(|x| x.clone()),
        Err(GatherError::MalformedData(Malformed::Details))
    );
}

#[test]
fn notification_is_resolved_from_the_alert() {
    let mut store = new_store();
    store.set_time(Timestamp(1));
    let h = create_event(&mut store, event("Meetup", None)).unwrap().signed_action.hash;
    store.set_time(Timestamp(2));
    update_event(
        &mut store,
        UpdateEventInput {
            original_event_hash: h,
            previous_event_hash: h,
            updated_event: event("Meetup at noon", None),
        },
    )
    .unwrap();
    let requests = notify_alert(
        &mut store,
        NotifyAlertInput {
            alert: GatherNotification::EventAlert {
                event_hash: h,
                action: GatherAction::EventCreated { action_hash: h },
            },
            agents: vec![AgentPubKey(1)],
        },
    );
    assert_eq!(requests.len(), 1);
    let alerts = get_unread_alerts(&store);
    assert_eq!(alerts.len(), 1);
    let module = AlertsNotifications { sv: swedish() };
    let notification = module
        .get_notification(
            &store,
            GetNotificationInput {
                notification_hash: AnyDhtHash::Action(alerts[0].hash),
                locale: "sv".to_string(),
            },
        )
        .unwrap()
        .unwrap();
    assert_eq!(
        notification,
        Notification {
            title: "Meetup at noon".to_string(),
            body: "Evenemanget skapades.".to_string(),
            hrl_to_navigate_to_on_click: HrlWithContext {
                hrl: Hrl { dna_hash: DnaHash(7), resource_hash: AnyDhtHash::Action(h) },
                context: vec![],
            },
            pending: true,
        }
    );
    assert_eq!(
        get_alert(&store, AnyDhtHash::Action(alerts[0].hash)),
        Ok(Some(GatherNotification::EventAlert {
            event_hash: h,
            action: GatherAction::EventCreated { action_hash: h },
        }))
    );
}

#[test]
fn notification_about_a_proposal() {
    let mut store = new_store();
    let p = create_proposal(&mut store, proposal("Picnic")).unwrap().signed_action.hash;
    let alert = GatherNotification::ProposalAlert {
        proposal_hash: p,
        action: GatherAction::ProposalCreated { action_hash: p },
    };
    let l = create_link_relaxed(
        &mut store,
        AgentPubKey(1).into_linkable(),
        AgentPubKey(1).into_linkable(),
        AlertLinkTypes::MyAlerts.scoped(),
        LinkTag::Alert(alert),
    );
    let module = AlertsNotifications { sv: swedish() };
    let n = module
        .resolve(
            &store,
            GetNotificationInput {
                notification_hash: AnyDhtHash::Action(l),
                locale: "en".to_string(),
            },
        )
        .unwrap()
        .unwrap();
    assert_eq!(n.title, "Picnic");
    assert_eq!(n.body, "Proposal was created.");
    assert_eq!(n.hrl_to_navigate_to_on_click.hrl.resource_hash, AnyDhtHash::Action(p));
    assert!(n.pending);
}

#[test]
fn notification_that_cannot_be_resolved() {
    let mut store = new_store();
    let module = AlertsNotifications { sv: swedish() };
    let input = |h: AnyDhtHash| GetNotificationInput { notification_hash: h, locale: "en".to_string() };
    // not in the store
    assert_eq!(module.get_notification(&store, input(AnyDhtHash::Action(ActionHash(3)))), Ok(None));
    assert_eq!(module.get_notification(&store, input(AnyDhtHash::Entry(EntryHash(3)))), Ok(None));
    // no edge
    let e = create_event(&mut store, event("a", None)).unwrap().signed_action.hash;
    assert_eq!(
        module.get_notification(&store, input(AnyDhtHash::Action(e))),
        Err(GatherError::MalformedData(Malformed::NotACreateLink))
    );
    // an edge without an alert
    assert_eq!(
        module.get_notification(&store, input(AnyDhtHash::Action(ActionHash(1)))),
        Err(GatherError::MalformedData(Malformed::NotANotification))
    );
    // an alert about an event that is not there
    let l = create_link_relaxed(
        &mut store,
        AgentPubKey(1).into_linkable(),
        AgentPubKey(1).into_linkable(),
        AlertLinkTypes::MyAlerts.scoped(),
        LinkTag::Alert(GatherNotification::EventAlert {
            event_hash: ActionHash(500),
            action: GatherAction::EventUpdated { action_hash: ActionHash(500) },
        }),
    );
    assert_eq!(
        module.get_notification(&store, input(AnyDhtHash::Action(l))),
        Err(GatherError::NotFound(Missing::LatestEvent))
    );
}

#[test]
fn alerts_module_resolves_plainly() {
    let mut store = new_store();
    let module = gather::alerts::AlertsNotifications;
    let l = create_link_relaxed(
        &mut store,
        AgentPubKey(1).into_linkable(),
        AgentPubKey(1).into_linkable(),
        AlertLinkTypes::MyAlerts.scoped(),
        LinkTag::Unit,
    );
    let n = module
        .get_notification(
            &store,
            GetNotificationInput {
                notification_hash: AnyDhtHash::Action(l),
                locale: "en".to_string(),
            },
        )
        .unwrap()
        .unwrap();
    assert_eq!(n.title, "hey");
    assert_eq!(n.body, "ho");
    assert_eq!(
        n.hrl_to_navigate_to_on_click.hrl,
        Hrl { dna_hash: DnaHash(7), resource_hash: AnyDhtHash::Action(l) }
    );
    assert!(n.pending);
    let e = store.create_entry(EntryTypes::Cancellation(Cancellation {
        reason: String::new(),
        event_hash: ActionHash(0),
    }));
    let input = |h| GetNotificationInput { notification_hash: h, locale: "en".to_string() };
    assert_eq!(
        module.get_notification(&store, input(AnyDhtHash::Action(e))),
        Err(GatherError::MalformedData(Malformed::NotACreateLink))
    );
    assert_eq!(module.get_notification(&store, input(AnyDhtHash::Action(ActionHash(40)))), Ok(None));
    assert_eq!(gather::alerts::init(), InitCallbackResult::Pass);
    assert_eq!(gather::init(), InitCallbackResult::Pass);
}

#[test]
fn signals_by_edge_type() {
    let mut store = new_store();
    let me = AgentPubKey(1).into_linkable();
    let alert = create_link_relaxed(
        &mut store,
        me,
        me,
        AlertLinkTypes::MyAlerts.scoped(),
        LinkTag::Unit,
    );
    let other = store.create_link(me, me, LinkTypes::MyEvents.scoped(), LinkTag::Unit);
    let entry = store.create_entry(EntryTypes::Cancellation(Cancellation {
        reason: String::new(),
        event_hash: ActionHash(0),
    }));
    let tombstone = store.delete_link(alert).unwrap();
    let other_tombstone = store.delete_link(other).unwrap();
    let action = |h: ActionHash| store.get(h).unwrap().signed_action;

    assert_eq!(
        signal_action(&store, action(alert)),
        Ok(Some(Signal::LinkCreated { action: action(alert), link_type: AlertLinkTypes::MyAlerts }))
    );
    // an edge of another module, and an entry: nothing is said
    assert_eq!(signal_action(&store, action(other)), Ok(None));
    assert_eq!(signal_action(&store, action(entry)), Ok(None));
    assert_eq!(
        signal_action(&store, action(tombstone)),
        Ok(Some(Signal::LinkDeleted {
            action: action(tombstone),
            create_link_action: action(alert),
            link_type: AlertLinkTypes::MyAlerts,
        }))
    );
    assert_eq!(signal_action(&store, action(other_tombstone)), Ok(None));
    // the tombstoned edge cannot be fetched, or is no edge
    assert_eq!(
        classify(action(tombstone), None),
        Err(GatherError::NotFound(Missing::CreateLinkAction))
    );
    assert_eq!(
        classify(action(tombstone), store.get(entry)),
        Err(GatherError::MalformedData(Malformed::NotACreateLink))
    );
    let committed =
        vec![action(alert), action(other), action(entry), action(tombstone), action(other_tombstone)];
    let signals = post_commit(&store, committed);
    assert_eq!(signals.len(), 2);
    assert!(matches!(signals[0], Signal::LinkCreated { .. }));
    assert!(matches!(signals[1], Signal::LinkDeleted { .. }));
}

#[test]
fn alerts_are_read_once_tombstoned() {
    let mut store = new_store();
    let alert = GatherNotification::EventAlert {
        event_hash: ActionHash(0),
        action: GatherAction::EventCancelled { action_hash: ActionHash(0) },
    };
    let requests = notify_alert(
        &mut store,
        NotifyAlertInput { alert, agents: vec![AgentPubKey(1), AgentPubKey(2), AgentPubKey(1)] },
    );
    assert_eq!(
        requests,
        vec![
            NotifyAgentInput { agent: AgentPubKey(1), notification: alert },
            NotifyAgentInput { agent: AgentPubKey(2), notification: alert },
            NotifyAgentInput { agent: AgentPubKey(1), notification: alert },
        ]
    );
    assert_eq!(store.len(), 3);
    let unread: Vec<ActionHash> = get_unread_alerts(&store).iter().map(|a| a.hash).collect();
    assert_eq!(unread, vec![ActionHash(0), ActionHash(2)]);
    assert!(get_read_alerts(&store).is_empty());
    match store.get(ActionHash(0)).unwrap().action() {
        Action::CreateLink(c) => {
            assert_eq!(c.tag, LinkTag::Alert(alert));
            assert_eq!(c.base_address, AgentPubKey(1).into_linkable());
            assert_eq!(c.target_address, AgentPubKey(1).into_linkable());
        }
        _ => panic!("an edge"),
    }

    assert_eq!(mark_alerts_as_read(&mut store, vec![ActionHash(0)]), Ok(()));
    let unread: Vec<ActionHash> = get_unread_alerts(&store).iter().map(|a| a.hash).collect();
    assert_eq!(unread, vec![ActionHash(2)]);
    let read = get_read_alerts(&store);
    assert_eq!(read.len(), 1);
    assert_eq!(read[0].0.hash, ActionHash(0));
    assert_eq!(read[0].1.len(), 1);
    assert_eq!(read[0].1[0].hash, ActionHash(3));

    // another participant has one alert of their own
    store.set_agent(AgentPubKey(2));
    let unread: Vec<ActionHash> = get_unread_alerts(&store).iter().map(|a| a.hash).collect();
    assert_eq!(unread, vec![ActionHash(1)]);
}

#[test]
fn marking_stops_at_the_first_unknown_alert() {
    let mut store = new_store();
    let me = AgentPubKey(1).into_linkable();
    let a = create_link_relaxed(&mut store, me, me, AlertLinkTypes::MyAlerts.scoped(), LinkTag::Unit);
    let b = create_link_relaxed(&mut store, me, me, AlertLinkTypes::MyAlerts.scoped(), LinkTag::Unit);
    let r = mark_alerts_as_read(&mut store, vec![a, ActionHash(50), b]);
    assert_eq!(r, Err(GatherError::PolicyViolation(StoreError::NotALinkCommit(ActionHash(50)))));
    assert_eq!(store.len(), 3);
    let unread: Vec<ActionHash> = get_unread_alerts(&store).iter().map(|x| x.hash).collect();
    assert_eq!(unread, vec![b]);
    let details = store.get_link_details(me, AlertLinkTypes::MyAlerts.scoped());
    assert_eq!(unread_of(&details).len(), 1);
    assert_eq!(read_of(&details).len(), 1);
    assert_eq!(read_of(&details)[0].0.hash, a);
}

#[test]
fn remote_answers() {
    assert_eq!(call_assemble(ZomeCallResponse::Returned(vec![ActionHash(1)])), Ok(vec![ActionHash(1)]));
    assert_eq!(
        call_assemble(ZomeCallResponse::Unauthorized),
        Err(GatherError::RemoteFailure(RemoteFailure::Unauthorized))
    );
    assert_eq!(
        call_assemble(ZomeCallResponse::AuthenticationFailed),
        Err(GatherError::RemoteFailure(RemoteFailure::AuthenticationFailed))
    );
    assert_eq!(
        call_assemble(ZomeCallResponse::NetworkError),
        Err(GatherError::RemoteFailure(RemoteFailure::NetworkError))
    );
    assert_eq!(
        call_assemble(ZomeCallResponse::CountersigningSession),
        Err(GatherError::RemoteFailure(RemoteFailure::CountersigningSession))
    );
}

#[test]
fn pending_notifications_are_the_unread_alerts() {
    let mut store = new_store();
    let e = create_event(&mut store, event("Meetup", None)).unwrap().signed_action.hash;
    let p = create_proposal(&mut store, proposal("Picnic")).unwrap().signed_action.hash;
    let first = GatherNotification::EventAlert {
        event_hash: e,
        action: GatherAction::EventUpdated { action_hash: e },
    };
    let second = GatherNotification::ProposalAlert {
        proposal_hash: p,
        action: GatherAction::ProposalExpired { action_hash: p, timestamp: 9 },
    };
    notify_alert(&mut store, NotifyAlertInput { alert: first, agents: vec![AgentPubKey(1)] });
    notify_alert(&mut store, NotifyAlertInput { alert: second, agents: vec![AgentPubKey(1)] });
    let unread = get_unread_alerts(&store);
    let module = AlertsNotifications { sv: swedish() };
    let pending = module.get_pending_notifications(&store).unwrap();
    assert_eq!(
        pending,
        vec![
            PendingNotification {
                id: AnyDhtHash::Action(unread[0].hash),
                title: "Meetup".to_string(),
                body: "Event was updated.".to_string(),
                hrl_to_navigate_to_on_click: HrlWithContext {
                    hrl: Hrl { dna_hash: DnaHash(7), resource_hash: AnyDhtHash::Action(e) },
                    context: vec![],
                },
            },
            PendingNotification {
                id: AnyDhtHash::Action(unread[1].hash),
                title: "Picnic".to_string(),
                body: "Proposal expired without meeting the minimum required needs.".to_string(),
                hrl_to_navigate_to_on_click: HrlWithContext {
                    hrl: Hrl { dna_hash: DnaHash(7), resource_hash: AnyDhtHash::Action(p) },
                    context: vec![],
                },
            },
        ]
    );
    assert_eq!(module.pending(&store), Ok(pending));
    // read alerts no longer wait
    mark_alerts_as_read(&mut store, vec![unread[0].hash]).unwrap();
    let pending = module.get_pending_notifications(&store).unwrap();
    assert_eq!(pending.len(), 1);
    assert_eq!(pending[0].title, "Picnic");
    // the alerts module lists them plainly
    let plain = gather::alerts::AlertsNotifications.get_pending_notifications(&store).unwrap();
    assert_eq!(plain.len(), 1);
    assert_eq!(plain[0].id, AnyDhtHash::Action(unread[1].hash));
    assert_eq!(plain[0].title, "hey");
    assert_eq!(plain[0].body, "ho");
    assert_eq!(plain[0].hrl_to_navigate_to_on_click.hrl.resource_hash, plain[0].id);
}

#[test]
fn an_alert_that_cannot_be_resolved_fails_the_listing() {
    let mut store = new_store();
    let e = create_event(&mut store, event("Meetup", None)).unwrap().signed_action.hash;
    let good = GatherNotification::EventAlert {
        event_hash: e,
        action: GatherAction::EventUpdated { action_hash: e },
    };
    let bad = GatherNotification::EventAlert {
        event_hash: ActionHash(700),
        action: GatherAction::EventUpdated { action_hash: ActionHash(700) },
    };
    notify_alert(&mut store, NotifyAlertInput { alert: good, agents: vec![AgentPubKey(1)] });
    notify_alert(&mut store, NotifyAlertInput { alert: bad, agents: vec![AgentPubKey(1)] });
    let module = AlertsNotifications { sv: swedish() };
    assert_eq!(
        module.get_pending_notifications(&store),
        Err(GatherError::NotFound(Missing::LatestEvent))
    );
}
