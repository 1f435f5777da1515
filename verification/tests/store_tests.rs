use wa_sync::contact::Contact;
use wa_sync::message::Message;
use wa_sync::store::ContactRow;
use wa_sync::store::MessageRow;
use wa_sync::store::Store;
use wa_sync::store::contacts_of_rows;
use wa_sync::store::messages_of_rows;

fn contact(jid: &str, name: &str, ts: i64) -> Contact {
    Contact {
        jid: jid.to_string(),
        name: name.to_string(),
        last_message: None,
        last_message_time: None,
        unread_count: 0,
        conversation_timestamp: ts,
        is_group: false,
        archived: false,
        pinned: 0,
        mute_end_time: 0,
        profile_picture_url: None,
    }
}

fn message(id: &str, jid: &str, content: &str, ts: i64) -> Message {
    Message {
        id: None,
        message_id: id.to_string(),
        jid: jid.to_string(),
        sender: "me".to_string(),
        content: content.to_string(),
        timestamp: ts,
        is_from_me: true,
        message_type: "text".to_string(),
        raw_data: None,
        quoted_message_id: None,
        media_url: None,
        caption: None,
    }
}

#[test]
fn message_upsert_is_idempotent() {
    let mut store = Store::new();
    store.save_message(message("M1", "a@s.whatsapp.net", "hi", 1000));
    store.save_message(message("M1", "a@s.whatsapp.net", "hi", 1000));
    let rows = store.get_messages("a@s.whatsapp.net");
    assert_eq!(rows.len(), 1);
    assert_eq!(rows[0].content, "hi");
}

#[test]
fn message_upsert_keeps_latest_values() {
    let mut store = Store::new();
    store.save_message(message("M1", "a@s.whatsapp.net", "first", 1000));
    store.save_message(message("M1", "a@s.whatsapp.net", "edited", 1001));
    let rows = store.get_messages("a@s.whatsapp.net");
    assert_eq!(rows.len(), 1);
    assert_eq!(rows[0].content, "edited");
    assert_eq!(rows[0].timestamp, 1001);
}

#[test]
fn messages_read_back_chronologically() {
    let mut store = Store::new();
    store.save_message(message("M2", "a@s.whatsapp.net", "second", 200));
    store.save_message(message("M1", "a@s.whatsapp.net", "first", 100));
    store.save_message(message("M3", "a@s.whatsapp.net", "third", 300));
    let rows = store.get_messages("a@s.whatsapp.net");
    assert_eq!(rows.len(), 3);
    assert_eq!(rows[0].content, "first");
    assert_eq!(rows[1].content, "second");
    assert_eq!(rows[2].content, "third");
}

#[test]
fn equal_timestamps_keep_application_order() {
    let mut store = Store::new();
    store.save_message(message("A", "j@s.whatsapp.net", "one", 50));
    store.save_message(message("B", "j@s.whatsapp.net", "two", 50));
    store.save_message(message("C", "j@s.whatsapp.net", "three", 50));
    let rows = store.get_messages("j@s.whatsapp.net");
    assert_eq!(rows.len(), 3);
    assert_eq!(rows[0].message_id, "A");
    assert_eq!(rows[1].message_id, "B");
    assert_eq!(rows[2].message_id, "C");
}

#[test]
fn messages_filtered_by_conversation() {
    let mut store = Store::new();
    store.save_message(message("M1", "a@s.whatsapp.net", "for a", 1));
    store.save_message(message("M2", "b@s.whatsapp.net", "for b", 2));
    let a = store.get_messages("a@s.whatsapp.net");
    assert_eq!(a.len(), 1);
    assert_eq!(a[0].content, "for a");
    let b = store.get_messages("b@s.whatsapp.net");
    assert_eq!(b.len(), 1);
    assert_eq!(b[0].content, "for b");
    assert_eq!(store.get_messages("c@s.whatsapp.net").len(), 0);
}

#[test]
fn contact_upsert_replaces_wholesale() {
    let mut store = Store::new();
    let mut first = contact("a@s.whatsapp.net", "Old Name", 10);
    first.unread_count = 5;
    first.profile_picture_url = Some("http://pic".to_string());
    store.save_contact(first);
    store.save_contact(contact("a@s.whatsapp.net", "New Name", 20));
    let rows = store.get_contacts();
    assert_eq!(rows.len(), 1);
    assert_eq!(rows[0].name, "New Name");
    assert_eq!(rows[0].unread_count, 0);
    assert_eq!(rows[0].profile_picture_url, None);
}

#[test]
fn contacts_ordered_most_recent_first() {
    let mut store = Store::new();
    store.save_contact(contact("a@s.whatsapp.net", "A", 100));
    store.save_contact(contact("b@s.whatsapp.net", "B", 300));
    store.save_contact(contact("c@s.whatsapp.net", "C", 200));
    let rows = store.get_contacts();
    assert_eq!(rows.len(), 3);
    assert_eq!(rows[0].name, "B");
    assert_eq!(rows[1].name, "C");
    assert_eq!(rows[2].name, "A");
}

#[test]
fn contacts_with_equal_timestamps_keep_application_order() {
    let mut store = Store::new();
    store.save_contact(contact("a@s.whatsapp.net", "A", 7));
    store.save_contact(contact("b@s.whatsapp.net", "B", 7));
    let rows = store.get_contacts();
    assert_eq!(rows[0].name, "A");
    assert_eq!(rows[1].name, "B");
}

#[test]
fn session_flags_round_trip() {
    let mut store = Store::new();
    assert_eq!(store.get_session_data("authenticated"), None);
    assert!(!store.is_authenticated());
    store.set_authenticated(true);
    assert!(store.is_authenticated());
    assert_eq!(store.get_session_data("authenticated").as_deref(), Some("true"));
    store.set_authenticated(false);
    assert!(!store.is_authenticated());
    store.set_session_data("endpoint", "ws://localhost:8787");
    assert_eq!(store.get_session_data("endpoint").as_deref(), Some("ws://localhost:8787"));
    store.set_session_data("endpoint", "ws://other:1");
    assert_eq!(store.get_session_data("endpoint").as_deref(), Some("ws://other:1"));
}

#[test]
fn legacy_message_rows_load_with_defaults() {
    let rows = vec![
        MessageRow {
            id: 7,
            message_id: None,
            jid: "a@s.whatsapp.net".to_string(),
            sender: "me".to_string(),
            content: "old row".to_string(),
            timestamp: 100,
            is_from_me: true,
            message_type: None,
            raw_data: None,
            quoted_message_id: None,
            media_url: None,
            caption: None,
        },
        MessageRow {
            id: 8,
            message_id: Some("M8".to_string()),
            jid: "a@s.whatsapp.net".to_string(),
            sender: "446".to_string(),
            content: "new row".to_string(),
            timestamp: 200,
            is_from_me: false,
            message_type: Some("image".to_string()),
            raw_data: Some("{}".to_string()),
            quoted_message_id: None,
            media_url: Some("http://img".to_string()),
            caption: Some("cap".to_string()),
        },
    ];
    let ms = messages_of_rows(rows);
    assert_eq!(ms.len(), 2);
    assert_eq!(ms[0].message_id, "7");
    assert_eq!(ms[0].message_type, "text");
    assert_eq!(ms[0].id, Some(7));
    assert_eq!(ms[1].message_id, "M8");
    assert_eq!(ms[1].message_type, "image");

    let store = Store::load(Vec::new(), ms, Vec::new());
    let read = store.get_messages("a@s.whatsapp.net");
    assert_eq!(read.len(), 2);
    assert_eq!(read[0].content, "old row");
    assert_eq!(read[1].content, "new row");
}

#[test]
fn legacy_contact_rows_load_with_defaults() {
    let rows = vec![ContactRow {
        jid: "a@s.whatsapp.net".to_string(),
        name: "Ann".to_string(),
        last_message: None,
        last_message_time: None,
        unread_count: None,
        conversation_timestamp: None,
        is_group: None,
        archived: None,
        pinned: None,
        mute_end_time: None,
        profile_picture_url: None,
    }];
    let cs = contacts_of_rows(rows);
    assert_eq!(cs.len(), 1);
    assert_eq!(cs[0].unread_count, 0);
    assert_eq!(cs[0].conversation_timestamp, 0);
    assert!(!cs[0].is_group);
    assert!(!cs[0].archived);

    let store = Store::load(cs, Vec::new(), Vec::new());
    let read = store.get_contacts();
    assert_eq!(read.len(), 1);
    assert_eq!(read[0].name, "Ann");
    assert_eq!(read[0].mute_end_time, 0);
}

#[test]
fn load_applies_rows_as_upserts() {
    let cs = vec![
        contact("a@s.whatsapp.net", "First", 10),
        contact("a@s.whatsapp.net", "Second", 20),
    ];
    let session = vec![
        ("authenticated".to_string(), "false".to_string()),
        ("authenticated".to_string(), "true".to_string()),
    ];
    let store = Store::load(cs, Vec::new(), session);
    let read = store.get_contacts();
    assert_eq!(read.len(), 1);
    assert_eq!(read[0].name, "Second");
    assert!(store.is_authenticated());
}
