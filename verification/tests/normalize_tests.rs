use wa_sync::json::JsonValue;
use wa_sync::message::MessageKind;
use wa_sync::normalize::WhatsAppEvent;
use wa_sync::normalize::is_group_jid;
use wa_sync::normalize::normalize_content;
use wa_sync::normalize::normalize_frame;
use wa_sync::normalize::sender_of;
use wa_sync::wire::DocumentMessage;
use wa_sync::wire::ExtendedTextMessage;
use wa_sync::wire::MediaMessage;
use wa_sync::wire::MessageContent;
use wa_sync::wire::ReactionMessage;
use wa_sync::wire::WAKey;

fn empty_content() -> MessageContent {
    MessageContent {
        conversation: None,
        extended_text_message: None,
        reaction_message: None,
        image_message: None,
        video_message: None,
        has_audio_message: false,
        document_message: None,
        has_sticker_message: false,
    }
}

#[test]
fn contacts_set_produces_one_contact() {
    let frame = r#"{"type":"contacts.set","payload":{"contacts":[{"jid":"123@s.whatsapp.net","name":"Ann"}]}}"#;
    let events = normalize_frame(frame);
    assert_eq!(events.len(), 1);
    match &events[0] {
        WhatsAppEvent::ContactUpdate(c) => {
            assert_eq!(c.jid, "123@s.whatsapp.net");
            assert_eq!(c.name, "Ann");
            assert_eq!(c.unread_count, 0);
            assert!(!c.is_group);
        }
        other => panic!("expected a contact update, got {:?}", other),
    }
}

#[test]
fn messages_upsert_produces_message() {
    let frame = r#"{"type":"messages.upsert","payload":{"messages":[{"key":{"remoteJid":"123@s.whatsapp.net","fromMe":true,"id":"M1"},"messageTimestamp":1000,"message":{"conversation":"hi"}}]}}"#;
    let events = normalize_frame(frame);
    assert_eq!(events.len(), 1);
    match &events[0] {
        WhatsAppEvent::MessageUpdate(m) => {
            assert_eq!(m.message_id, "M1");
            assert_eq!(m.jid, "123@s.whatsapp.net");
            assert_eq!(m.sender, "me");
            assert_eq!(m.content, "hi");
            assert_eq!(m.timestamp, 1000);
            assert!(m.is_from_me);
            assert_eq!(m.message_type, "text");
            assert_eq!(m.raw_data.as_deref(), Some(r#"{"conversation":"hi"}"#));
        }
        other => panic!("expected a message update, got {:?}", other),
    }
}

#[test]
fn malformed_payload_produces_no_events() {
    let events = normalize_frame(r#"{"type":"messages.upsert","payload":{}}"#);
    assert_eq!(events.len(), 0);
}

#[test]
fn invalid_json_produces_no_events() {
    assert_eq!(normalize_frame("{not json").len(), 0);
    assert_eq!(normalize_frame("").len(), 0);
}

#[test]
fn unknown_discriminant_is_dropped() {
    assert_eq!(normalize_frame(r#"{"type":"presence.update","payload":{}}"#).len(), 0);
    assert_eq!(normalize_frame(r#"{"payload":{}}"#).len(), 0);
}

#[test]
fn connection_update_qr_and_open() {
    let events =
        normalize_frame(r#"{"type":"connection.update","payload":{"qr":"QQQ","connection":"open"}}"#);
    assert_eq!(events.len(), 2);
    assert!(matches!(&events[0], WhatsAppEvent::QrCode(q) if q == "QQQ"));
    assert!(matches!(&events[1], WhatsAppEvent::Connected));
}

#[test]
fn connection_update_closed_is_silent() {
    let events =
        normalize_frame(r#"{"type":"connection.update","payload":{"connection":"close"}}"#);
    assert_eq!(events.len(), 0);
}

#[test]
fn chats_update_bare_array() {
    let frame = r#"{"type":"chats.update","payload":[{"id":"77@s.whatsapp.net","unreadCount":3,"conversationTimestamp":500,"pinned":1}]}"#;
    let events = normalize_frame(frame);
    assert_eq!(events.len(), 1);
    match &events[0] {
        WhatsAppEvent::ChatUpdate(c) => {
            assert_eq!(c.jid, "77@s.whatsapp.net");
            assert_eq!(c.name, "77");
            assert_eq!(c.unread_count, 3);
            assert_eq!(c.conversation_timestamp, 500);
            assert_eq!(c.pinned, 1);
            assert_eq!(c.mute_end_time, 0);
            assert!(!c.archived);
        }
        other => panic!("expected a chat update, got {:?}", other),
    }
}

#[test]
fn chat_without_optional_fields_defaults_to_zero() {
    let frame = r#"{"type":"chats.set","payload":{"chats":[{"id":"9@g.us","name":"Team"}]}}"#;
    let events = normalize_frame(frame);
    assert_eq!(events.len(), 1);
    match &events[0] {
        WhatsAppEvent::ChatUpdate(c) => {
            assert_eq!(c.name, "Team");
            assert_eq!(c.unread_count, 0);
            assert_eq!(c.pinned, 0);
            assert_eq!(c.mute_end_time, 0);
            assert_eq!(c.conversation_timestamp, 0);
            assert!(c.is_group);
        }
        other => panic!("expected a chat update, got {:?}", other),
    }
}

#[test]
fn history_set_orders_chats_contacts_messages() {
    let frame = r#"{"type":"messaging-history.set","payload":{
        "chats":[{"id":"c1@s.whatsapp.net"}],
        "contacts":[{"id":"c2@s.whatsapp.net","notify":"Bob"}],
        "messages":[{"key":{"remoteJid":"c1@s.whatsapp.net","id":"m1"},"messageTimestamp":7}],
        "isLatest":true}}"#;
    let events = normalize_frame(frame);
    assert_eq!(events.len(), 3);
    assert!(matches!(&events[0], WhatsAppEvent::ChatUpdate(_)));
    assert!(matches!(&events[1], WhatsAppEvent::ContactUpdate(c) if c.name == "Bob"));
    assert!(matches!(&events[2], WhatsAppEvent::MessageUpdate(m) if m.timestamp == 7));
}

#[test]
fn message_without_identity_is_skipped() {
    let frame = r#"{"type":"messages.upsert","payload":{"messages":[
        {"messageTimestamp":1},
        {"key":{"remoteJid":"a@s.whatsapp.net"},"messageTimestamp":2},
        {"key":{"remoteJid":"a@s.whatsapp.net","id":"ok"},"messageTimestamp":3}]}}"#;
    let events = normalize_frame(frame);
    assert_eq!(events.len(), 1);
    assert!(matches!(&events[0], WhatsAppEvent::MessageUpdate(m) if m.message_id == "ok"));
}

#[test]
fn legacy_qr_frame() {
    let events = normalize_frame(r#"{"type":"qr","qr":"CODE123"}"#);
    assert_eq!(events.len(), 1);
    assert!(matches!(&events[0], WhatsAppEvent::QrCode(q) if q == "CODE123"));
}

#[test]
fn legacy_connected_frame() {
    let events = normalize_frame(r#"{"type":"connected"}"#);
    assert_eq!(events.len(), 1);
    assert!(matches!(&events[0], WhatsAppEvent::Connected));
}

#[test]
fn legacy_message_frame() {
    let frame = r#"{"type":"message","message":{"key":{"remoteJid":"55@s.whatsapp.net","fromMe":false,"id":"L1","participant":"446@s.whatsapp.net"},"messageTimestamp":42,"message":{"conversation":"yo"}}}"#;
    let events = normalize_frame(frame);
    assert_eq!(events.len(), 1);
    match &events[0] {
        WhatsAppEvent::MessageUpdate(m) => {
            assert_eq!(m.sender, "446");
            assert_eq!(m.content, "yo");
            assert_eq!(m.timestamp, 42);
            assert!(!m.is_from_me);
        }
        other => panic!("expected a message update, got {:?}", other),
    }
}

#[test]
fn legacy_contacts_frame() {
    let frame = r#"{"type":"contacts","contacts":[
        {"jid":"1@g.us","name":"Group","unreadCount":2,"isGroup":true,"profilePictureUrl":"http://x/y.png"},
        {"jid":"2@s.whatsapp.net"}]}"#;
    let events = normalize_frame(frame);
    assert_eq!(events.len(), 1);
    match &events[0] {
        WhatsAppEvent::ContactUpdate(c) => {
            assert_eq!(c.jid, "1@g.us");
            assert_eq!(c.name, "Group");
            assert_eq!(c.unread_count, 2);
            assert!(c.is_group);
            assert_eq!(c.profile_picture_url.as_deref(), Some("http://x/y.png"));
        }
        other => panic!("expected a contact update, got {:?}", other),
    }
}

#[test]
fn content_precedence_conversation_beats_image() {
    let mut c = empty_content();
    c.conversation = Some("hello".to_string());
    c.image_message = Some(MediaMessage {
        url: Some("http://img".to_string()),
        caption: Some("cap".to_string()),
    });
    let n = normalize_content(&Some(c));
    assert_eq!(n.kind, MessageKind::Text);
    assert_eq!(n.content, "hello");
    assert_eq!(n.media_url, None);
    assert_eq!(n.caption, None);
}

#[test]
fn content_extended_text_with_quote() {
    let mut c = empty_content();
    c.extended_text_message = Some(ExtendedTextMessage {
        text: "reply".to_string(),
        quoted_message_id: Some("Q1".to_string()),
    });
    let n = normalize_content(&Some(c));
    assert_eq!(n.kind, MessageKind::Text);
    assert_eq!(n.content, "reply");
    assert_eq!(n.quoted_message_id.as_deref(), Some("Q1"));
}

#[test]
fn content_reaction() {
    let mut c = empty_content();
    c.reaction_message = Some(ReactionMessage {
        text: "👍".to_string(),
        reacted_message_id: Some("M9".to_string()),
    });
    let n = normalize_content(&Some(c));
    assert_eq!(n.kind, MessageKind::Reaction);
    assert_eq!(n.content, "Reacted with 👍");
    assert_eq!(n.quoted_message_id.as_deref(), Some("M9"));
}

#[test]
fn content_image_with_and_without_caption() {
    let mut c = empty_content();
    c.image_message = Some(MediaMessage {
        url: Some("http://img".to_string()),
        caption: Some("a sunset".to_string()),
    });
    let n = normalize_content(&Some(c));
    assert_eq!(n.kind, MessageKind::Image);
    assert_eq!(n.content, "a sunset");
    assert_eq!(n.media_url.as_deref(), Some("http://img"));
    assert_eq!(n.caption.as_deref(), Some("a sunset"));

    let mut c2 = empty_content();
    c2.image_message = Some(MediaMessage { url: None, caption: None });
    let n2 = normalize_content(&Some(c2));
    assert_eq!(n2.content, "[Image]");
}

#[test]
fn content_video_audio_document_sticker() {
    let mut v = empty_content();
    v.video_message = Some(MediaMessage { url: None, caption: None });
    assert_eq!(normalize_content(&Some(v)).content, "[Video]");

    let mut a = empty_content();
    a.has_audio_message = true;
    let n = normalize_content(&Some(a));
    assert_eq!(n.kind, MessageKind::Audio);
    assert_eq!(n.content, "[Audio]");

    let mut d = empty_content();
    d.document_message = Some(DocumentMessage { file_name: Some("notes.pdf".to_string()) });
    assert_eq!(normalize_content(&Some(d)).content, "[Document: notes.pdf]");

    let mut d2 = empty_content();
    d2.document_message = Some(DocumentMessage { file_name: None });
    assert_eq!(normalize_content(&Some(d2)).content, "[Document]");

    let mut s = empty_content();
    s.has_sticker_message = true;
    let n2 = normalize_content(&Some(s));
    assert_eq!(n2.kind, MessageKind::Sticker);
    assert_eq!(n2.content, "[Sticker]");
}

#[test]
fn content_absent_is_empty_message() {
    let n = normalize_content(&None);
    assert_eq!(n.kind, MessageKind::Unknown);
    assert_eq!(n.content, "[Empty message]");

    let n2 = normalize_content(&Some(empty_content()));
    assert_eq!(n2.kind, MessageKind::Unknown);
    assert_eq!(n2.content, "[Empty message]");
}

#[test]
fn sender_resolution() {
    let own = WAKey {
        jid: "123@s.whatsapp.net".to_string(),
        from_me: true,
        id: "a".to_string(),
        participant: Some("446@s.whatsapp.net".to_string()),
    };
    assert_eq!(sender_of(&own), "me");

    let participant = WAKey {
        jid: "group@g.us".to_string(),
        from_me: false,
        id: "b".to_string(),
        participant: Some("446@s.whatsapp.net".to_string()),
    };
    assert_eq!(sender_of(&participant), "446");

    let direct = WAKey {
        jid: "123@s.whatsapp.net".to_string(),
        from_me: false,
        id: "c".to_string(),
        participant: None,
    };
    assert_eq!(sender_of(&direct), "123");
}

#[test]
fn group_jid_detection() {
    assert!(is_group_jid("12345@g.us"));
    assert!(!is_group_jid("12345@s.whatsapp.net"));
    assert!(!is_group_jid(""));
}

fn obj(entries: Vec<(&str, JsonValue)>) -> JsonValue {
    JsonValue::Obj(entries.into_iter().map(|(k, v)| (k.to_string(), v)).collect())
}

#[test]
fn history_payload_decodes_into_snapshot() {
    let payload = obj(vec![
        (
            "chats",
            JsonValue::Arr(vec![obj(vec![
                ("id", JsonValue::Str("c1@s.whatsapp.net".to_string())),
                ("unreadCount", JsonValue::Int(1)),
            ])]),
        ),
        (
            "contacts",
            JsonValue::Arr(vec![
                obj(vec![
                    ("id", JsonValue::Str("c2@s.whatsapp.net".to_string())),
                    ("name", JsonValue::Str("Bo".to_string())),
                ]),
                obj(vec![("notify", JsonValue::Str("skipped".to_string()))]),
            ]),
        ),
        (
            "messages",
            JsonValue::Arr(vec![obj(vec![
                (
                    "key",
                    obj(vec![
                        ("remoteJid", JsonValue::Str("c1@s.whatsapp.net".to_string())),
                        ("id", JsonValue::Str("m1".to_string())),
                    ]),
                ),
                ("messageTimestamp", JsonValue::Int(7)),
            ])]),
        ),
        ("isLatest", JsonValue::Bool(true)),
    ]);
    let h = wa_sync::wire::decode_history(&payload);
    assert_eq!(h.chats.len(), 1);
    assert_eq!(h.chats[0].id, "c1@s.whatsapp.net");
    assert_eq!(h.chats[0].unread_count, Some(1));
    assert_eq!(h.contacts.len(), 1);
    assert_eq!(h.contacts[0].name.as_deref(), Some("Bo"));
    assert_eq!(h.messages.len(), 1);
    assert_eq!(h.messages[0].key.id, "m1");
    assert!(h.is_latest);

    let empty = obj(Vec::new());
    let h2 = wa_sync::wire::decode_history(&empty);
    assert_eq!(h2.chats.len(), 0);
    assert_eq!(h2.contacts.len(), 0);
    assert_eq!(h2.messages.len(), 0);
    assert!(!h2.is_latest);
}

#[test]
fn extended_text_without_text_falls_through() {
    let frame = r#"{"type":"messages.upsert","payload":{"messages":[{"key":{"remoteJid":"a@s.whatsapp.net","id":"m"},"message":{"extendedTextMessage":{},"stickerMessage":{}}}]}}"#;
    let events = normalize_frame(frame);
    assert_eq!(events.len(), 1);
    match &events[0] {
        WhatsAppEvent::MessageUpdate(m) => {
            assert_eq!(m.message_type, "sticker");
            assert_eq!(m.content, "[Sticker]");
            assert_eq!(m.timestamp, 0);
        }
        other => panic!("expected a message update, got {:?}", other),
    }
}
