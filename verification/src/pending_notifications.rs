//! What a module hands out when it is asked for its notifications.
//!
//! A module that implements this contract lists what is pending and
//! resolves one notification into a title, a body in the reader's language,
//! and the place to go to.

use vstd::prelude::*;
use crate::error::GatherError;
use crate::hash::{AnyDhtHash, DnaHash};
use crate::store::Store;

verus! {

/// A place in some store.
#[derive(Clone, Copy, Debug, PartialEq, Eq, Structural)]
pub struct Hrl {
    pub dna_hash: DnaHash,
    pub resource_hash: AnyDhtHash,
}

/// A place in some store, with what the reader needs to open it.
#[derive(Clone, Debug, PartialEq)]
pub struct HrlWithContext {
    pub hrl: Hrl,
    pub context: Vec<u8>,
}

/// A notification that waits to be read.
#[derive(Clone, Debug, PartialEq)]
pub struct PendingNotification {
    pub id: AnyDhtHash,
    pub title: String,
    pub body: String,
    pub hrl_to_navigate_to_on_click: HrlWithContext,
}

/// Which notification to resolve, and in which language.
#[derive(Clone, Debug, PartialEq)]
pub struct GetNotificationInput {
    pub notification_hash: AnyDhtHash,
    pub locale: String,
}

/// A resolved notification.
#[derive(Clone, Debug, PartialEq)]
pub struct Notification {
    pub title: String,
    pub body: String,
    pub hrl_to_navigate_to_on_click: HrlWithContext,
    pub pending: bool,
}

/// A resolved notification as plain text.
pub struct NotificationView {
    pub title: Seq<char>,
    pub body: Seq<char>,
    pub hrl: Hrl,
    pub context: Seq<u8>,
    pub pending: bool,
}

impl View for Notification {
    type V = NotificationView;

    open spec fn view(&self) -> NotificationView {
        NotificationView {
            title: self.title@,
            body: self.body@,
            hrl: self.hrl_to_navigate_to_on_click.hrl,
            context: self.hrl_to_navigate_to_on_click.context@,
            pending: self.pending,
        }
    }
}

/// A notification that waits to be read, as plain text.
pub struct PendingNotificationView {
    pub id: AnyDhtHash,
    pub title: Seq<char>,
    pub body: Seq<char>,
    pub hrl: Hrl,
    pub context: Seq<u8>,
}

impl View for PendingNotification {
    type V = PendingNotificationView;

    open spec fn view(&self) -> PendingNotificationView {
        PendingNotificationView {
            id: self.id,
            title: self.title@,
            body: self.body@,
            hrl: self.hrl_to_navigate_to_on_click.hrl,
            context: self.hrl_to_navigate_to_on_click.context@,
        }
    }
}

/// Whether the listed notifications, or the failure, are what was to be
/// listed.
pub open spec fn same_pending(
    r: Result<Vec<PendingNotification>, GatherError>,
    m: Result<Seq<PendingNotificationView>, GatherError>,
) -> bool {
    match (r, m) {
        (Ok(listed), Ok(views)) => listed@.len() == views.len() && forall|k: int|
            0 <= k < views.len() ==> (#[trigger] listed@[k])@ == views[k],
        (Err(e), Err(f)) => e == f,
        _ => false,
    }
}

/// The contract of a module that hands out notifications.
pub trait PendingNotifications {
    /// Lists the notifications that wait to be read by the acting
    /// participant.
    fn get_pending_notifications(&self, store: &Store) -> (r: Result<
        Vec<PendingNotification>,
        GatherError,
    >)
        requires
            store.wf(),
    ;

    /// Resolves one notification: nothing where the store does not hold it.
    fn get_notification(&self, store: &Store, input: GetNotificationInput) -> (r: Result<
        Option<Notification>,
        GatherError,
    >)
        requires
            store.wf(),
    ;
}

} // verus!
