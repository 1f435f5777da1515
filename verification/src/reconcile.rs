//! The reconciler: the single consumer that applies canonical events to the
//! store and decides what the presentation layer is told, plus the
//! client-level session state machine.

use vstd::prelude::*;

use crate::contact::Contact;
use crate::message::Message;
use crate::normalize::EventView;
use crate::normalize::WhatsAppEvent;
use crate::store::Store;
use crate::store::spec_session_set;
use crate::store::spec_upsert_contact;
use crate::store::spec_upsert_message;
use crate::text::str_eq;

verus! {

/// What the presentation layer is handed after one event is applied.
#[derive(Debug)]
pub enum UiUpdate {
    /// Show (or replace) the pairing code.
    ShowQr(String),
    /// Signal that the session became active.
    ShowConnected,
    /// Replace the shown contact list with this one (a full refresh).
    RefreshContacts(Vec<Contact>),
    /// Append this message to the open conversation.
    AppendMessage(Message),
    /// Nothing to show.
    NoUi,
}

/// Whether `jid` is the conversation currently open in the presentation
/// layer.
pub open spec fn spec_is_current(current: Option<&str>, jid: Seq<char>) -> bool {
    match current {
        Some(c) => c@ == jid,
        None => false,
    }
}

/// Applies one canonical event to the store and reports what to show:
/// pairing events pass through untouched; a contact or chat update is
/// upserted and answered with a full list refresh; a message update is
/// upserted and appended only when its conversation is the open one; the
/// `Connected` event durably records authentication.
pub fn apply_event(store: &mut Store, current_jid: Option<&str>, event: WhatsAppEvent) -> (u:
    UiUpdate)
    requires
        old(store).wf(),
    ensures
        final(store).wf(),
        match event {
            WhatsAppEvent::QrCode(q) => {
                &&& final(store).contacts() == old(store).contacts()
                &&& final(store).messages() == old(store).messages()
                &&& final(store).session() == old(store).session()
                &&& u == UiUpdate::ShowQr(q)
            },
            WhatsAppEvent::Connected => {
                &&& final(store).contacts() == old(store).contacts()
                &&& final(store).messages() == old(store).messages()
                &&& final(store).session() == spec_session_set(
                    old(store).session(),
                    "authenticated"@,
                    "true"@,
                )
                &&& u == UiUpdate::ShowConnected
            },
            WhatsAppEvent::ContactUpdate(c) => {
                &&& final(store).contacts() == spec_upsert_contact(old(store).contacts(), c)
                &&& final(store).messages() == old(store).messages()
                &&& final(store).session() == old(store).session()
                &&& (u matches UiUpdate::RefreshContacts(list) && list@ == final(store).contacts())
            },
            WhatsAppEvent::ChatUpdate(c) => {
                &&& final(store).contacts() == spec_upsert_contact(old(store).contacts(), c)
                &&& final(store).messages() == old(store).messages()
                &&& final(store).session() == old(store).session()
                &&& (u matches UiUpdate::RefreshContacts(list) && list@ == final(store).contacts())
            },
            WhatsAppEvent::MessageUpdate(m) => {
                &&& final(store).contacts() == old(store).contacts()
                &&& final(store).messages() == spec_upsert_message(old(store).messages(), m)
                &&& final(store).session() == old(store).session()
                &&& u == if spec_is_current(current_jid, m.jid@) {
                    UiUpdate::AppendMessage(m)
                } else {
                    UiUpdate::NoUi
                }
            },
        },
{
    match event {
        WhatsAppEvent::QrCode(q) => UiUpdate::ShowQr(q),
        WhatsAppEvent::Connected => {
            store.set_authenticated(true);
            UiUpdate::ShowConnected
        },
        WhatsAppEvent::ContactUpdate(c) => {
            store.save_contact(c);
            UiUpdate::RefreshContacts(store.get_contacts())
        },
        WhatsAppEvent::ChatUpdate(c) => {
            store.save_contact(c);
            UiUpdate::RefreshContacts(store.get_contacts())
        },
        WhatsAppEvent::MessageUpdate(m) => {
            let is_current = match current_jid {
                Some(j) => str_eq(j, m.jid.as_str()),
                None => false,
            };
            if is_current {
                let shown = m.clone();
                store.save_message(m);
                UiUpdate::AppendMessage(shown)
            } else {
                store.save_message(m);
                UiUpdate::NoUi
            }
        },
    }
}

/// The client-level session state: freshly started and unpaired, showing
/// rotating pairing codes, or connected (terminal for the process lifetime).
#[derive(Clone, Copy, Debug, PartialEq, Eq, Structural)]
pub enum SessionState {
    Unauthenticated,
    AwaitingQr,
    Connected,
}

/// The state the client starts in, read from the persisted authentication
/// flag.
pub fn initial_session_state(authenticated: bool) -> (s: SessionState)
    ensures
        s == if authenticated {
            SessionState::Connected
        } else {
            SessionState::Unauthenticated
        },
{
    if authenticated {
        SessionState::Connected
    } else {
        SessionState::Unauthenticated
    }
}

/// Opening the stream moves an unauthenticated client to awaiting a pairing
/// code; any other state is unchanged.
pub open spec fn spec_session_on_open(s: SessionState) -> SessionState {
    match s {
        SessionState::Unauthenticated => SessionState::AwaitingQr,
        other => other,
    }
}

/// Records that the event stream was opened.
pub fn session_on_open(s: SessionState) -> (r: SessionState)
    ensures
        r == spec_session_on_open(s),
{
    match s {
        SessionState::Unauthenticated => SessionState::AwaitingQr,
        other => other,
    }
}

/// How one canonical event moves the session: `Connected` is terminal; a
/// pairing code (the code rotates upstream) keeps the client awaiting; data
/// events leave the state alone.
pub open spec fn spec_session_on_event(s: SessionState, e: EventView) -> SessionState {
    if s is Connected {
        SessionState::Connected
    } else {
        match e {
            EventView::QrCode(_) => SessionState::AwaitingQr,
            EventView::Connected => SessionState::Connected,
            _ => s,
        }
    }
}

/// Advances the session state by one canonical event.
pub fn session_on_event(s: SessionState, e: &WhatsAppEvent) -> (r: SessionState)
    ensures
        r == spec_session_on_event(s, e@),
{
    if let SessionState::Connected = s {
        return SessionState::Connected;
    }
    match e {
        WhatsAppEvent::QrCode(_) => SessionState::AwaitingQr,
        WhatsAppEvent::Connected => SessionState::Connected,
        _ => s,
    }
}

/// Law: `Connected` is terminal — no event leaves it.
pub proof fn lemma_connected_terminal(e: EventView)
    ensures
        spec_session_on_event(SessionState::Connected, e) == SessionState::Connected,
{
}

} // verus!
