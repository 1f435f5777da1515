use wa_sync::contact::Contact;
use wa_sync::message::Message;
use wa_sync::normalize::WhatsAppEvent;
use wa_sync::normalize::normalize_frame;
use wa_sync::reconcile::SessionState;
use wa_sync::reconcile::UiUpdate;
use wa_sync::reconcile::apply_event;
use wa_sync::reconcile::initial_session_state;
use wa_sync::reconcile::session_on_event;
use wa_sync::reconcile::session_on_open;
use wa_sync::store::Store;

fn contact(jid: &str, name: &str, ts: i64) -> Contact {
    Contact {
        jid: jid.to_string(),
        name: name.to_string(),
        last_message: None,
        last_message_time: None,
        unread_count: 0,
        conversation_timestamp: ts,
        is_group: false,
        archived: false,
        pinned: 0,
        mute_end_time: 0,
        profile_picture_url: None,
    }
}

fn message(id: &str, jid: &str, content: &str, ts: i64) -> Message {
    Message {
        id: None,
        message_id: id.to_string(),
        jid: jid.to_string(),
        sender: "me".to_string(),
        content: content.to_string(),
        timestamp: ts,
        is_from_me: true,
        message_type: "text".to_string(),
        raw_data: None,
        quoted_message_id: None,
        media_url: None,
        caption: None,
    }
}

#[test]
fn qr_event_passes_through() {
    let mut store = Store::new();
    let u = apply_event(&mut store, None, WhatsAppEvent::QrCode("CODE".to_string()));
    assert!(matches!(u, UiUpdate::ShowQr(q) if q == "CODE"));
    assert_eq!(store.get_contacts().len(), 0);
    assert!(!store.is_authenticated());
}

#[test]
fn connected_event_records_authentication() {
    let mut store = Store::new();
    let u = apply_event(&mut store, None, WhatsAppEvent::Connected);
    assert!(matches!(u, UiUpdate::ShowConnected));
    assert!(store.is_authenticated());
}

#[test]
fn contact_event_refreshes_full_list() {
    let mut store = Store::new();
    apply_event(&mut store, None, WhatsAppEvent::ContactUpdate(contact("a@s.whatsapp.net", "A", 1)));
    let u = apply_event(
        &mut store,
        None,
        WhatsAppEvent::ChatUpdate(contact("b@s.whatsapp.net", "B", 2)),
    );
    match u {
        UiUpdate::RefreshContacts(list) => {
            assert_eq!(list.len(), 2);
            assert_eq!(list[0].name, "B");
            assert_eq!(list[1].name, "A");
        }
        other => panic!("expected a contact list refresh, got {:?}", other),
    }
}

#[test]
fn message_event_appends_only_in_open_conversation() {
    let mut store = Store::new();
    let u = apply_event(
        &mut store,
        Some("a@s.whatsapp.net"),
        WhatsAppEvent::MessageUpdate(message("M1", "a@s.whatsapp.net", "hi", 1)),
    );
    assert!(matches!(u, UiUpdate::AppendMessage(m) if m.content == "hi"));

    let u2 = apply_event(
        &mut store,
        Some("a@s.whatsapp.net"),
        WhatsAppEvent::MessageUpdate(message("M2", "b@s.whatsapp.net", "other", 2)),
    );
    assert!(matches!(u2, UiUpdate::NoUi));
    assert_eq!(store.get_messages("a@s.whatsapp.net").len(), 1);
    assert_eq!(store.get_messages("b@s.whatsapp.net").len(), 1);
}

#[test]
fn redelivered_frame_converges() {
    let frame = r#"{"type":"messages.upsert","payload":{"messages":[{"key":{"remoteJid":"123@s.whatsapp.net","fromMe":true,"id":"M1"},"messageTimestamp":1000,"message":{"conversation":"hi"}}]}}"#;
    let mut store = Store::new();
    for _ in 0..2 {
        for ev in normalize_frame(frame) {
            apply_event(&mut store, None, ev);
        }
    }
    let rows = store.get_messages("123@s.whatsapp.net");
    assert_eq!(rows.len(), 1);
    assert_eq!(rows[0].sender, "me");
    assert_eq!(rows[0].content, "hi");
}

#[test]
fn malformed_frame_does_not_stop_ingestion() {
    let mut store = Store::new();
    for ev in normalize_frame(r#"{"type":"messages.upsert","payload":{}}"#) {
        apply_event(&mut store, None, ev);
    }
    assert_eq!(store.get_contacts().len(), 0);
    let good = r#"{"type":"contacts.set","payload":{"contacts":[{"jid":"1@s.whatsapp.net","name":"Ann"}]}}"#;
    for ev in normalize_frame(good) {
        apply_event(&mut store, None, ev);
    }
    assert_eq!(store.get_contacts().len(), 1);
}

#[test]
fn session_machine_follows_pairing() {
    assert_eq!(initial_session_state(true), SessionState::Connected);
    assert_eq!(initial_session_state(false), SessionState::Unauthenticated);

    let s = initial_session_state(false);
    let s = session_on_open(s);
    assert_eq!(s, SessionState::AwaitingQr);
    let s = session_on_event(s, &WhatsAppEvent::QrCode("one".to_string()));
    assert_eq!(s, SessionState::AwaitingQr);
    let s = session_on_event(s, &WhatsAppEvent::QrCode("two".to_string()));
    assert_eq!(s, SessionState::AwaitingQr);
    let s = session_on_event(s, &WhatsAppEvent::Connected);
    assert_eq!(s, SessionState::Connected);
    let s = session_on_event(s, &WhatsAppEvent::QrCode("late".to_string()));
    assert_eq!(s, SessionState::Connected);
    assert_eq!(session_on_open(s), SessionState::Connected);
}
