//! The normalizer: one raw gateway frame in, zero or more canonical events
//! out.
//!
//! Two wire variants are understood as parallel decode paths into the same
//! canonical union: the enveloped shape (a `type` discriminant with a
//! `payload`) and the legacy flat shape (`qr`, `connected`, `message`,
//! `contacts` at top level). Every protocol quirk — which content shape wins,
//! how a sender is resolved, what defaults a sparse payload gets — is decided
//! here and nowhere else. Unrecognized or malformed frames produce no events;
//! they are never an error.

use vstd::prelude::*;

use crate::contact::Contact;
use crate::contact::ContactView;
use crate::json::JsonValue;
use crate::json::json_of;
use crate::json::json_to_string;
use crate::json::parse_json;
use crate::json::spec_json_text;
use crate::message::Message;
use crate::message::MessageKind;
use crate::message::MessageView;
use crate::text::contains_str;
use crate::text::prefix_before;
use crate::text::spec_contains_seq;
use crate::text::spec_prefix_before;
use crate::text::str_eq;
use crate::text::view_opt;
use crate::wire::ConnectionUpdate;
use crate::wire::MessageContent;
use crate::wire::WAChat;
use crate::wire::WAContact;
use crate::wire::WAKey;
use crate::wire::WAMessage;
use crate::wire::array_field;
use crate::wire::decode_chat;
use crate::wire::decode_connection_update;
use crate::wire::decode_contact;
use crate::wire::decode_message;
use crate::wire::spec_array_field;
use crate::wire::spec_decode_chat;
use crate::wire::spec_decode_connection_update;
use crate::wire::spec_decode_contact;
use crate::wire::spec_decode_message;

verus! {

/// A canonical domain event: the closed union every wire variant is
/// normalized into.
#[derive(Debug)]
pub enum WhatsAppEvent {
    /// A pairing code payload, opaque to this core.
    QrCode(String),
    /// The session became active.
    Connected,
    /// A contact row to upsert.
    ContactUpdate(Contact),
    /// A chat row to upsert; chats share the contact shape and additionally
    /// carry unread/pin/mute/archive state.
    ChatUpdate(Contact),
    /// A message row to upsert.
    MessageUpdate(Message),
}

/// The mathematical content of a [`WhatsAppEvent`].
pub ghost enum EventView {
    QrCode(Seq<char>),
    Connected,
    ContactUpdate(ContactView),
    ChatUpdate(ContactView),
    MessageUpdate(MessageView),
}

impl View for WhatsAppEvent {
    type V = EventView;

    open spec fn view(&self) -> EventView {
        match self {
            WhatsAppEvent::QrCode(s) => EventView::QrCode(s@),
            WhatsAppEvent::Connected => EventView::Connected,
            WhatsAppEvent::ContactUpdate(c) => EventView::ContactUpdate(c@),
            WhatsAppEvent::ChatUpdate(c) => EventView::ChatUpdate(c@),
            WhatsAppEvent::MessageUpdate(m) => EventView::MessageUpdate(m@),
        }
    }
}

/// The views of a sequence of events.
pub open spec fn views_of(s: Seq<WhatsAppEvent>) -> Seq<EventView> {
    s.map_values(|e: WhatsAppEvent| e@)
}

/// The kind a message content union normalizes to: the first matching shape
/// wins, in the order conversation text, extended text, reaction, image,
/// video, audio, document, sticker; anything else is unknown.
pub open spec fn spec_content_kind(m: Option<MessageContent>) -> MessageKind {
    match m {
        None => MessageKind::Unknown,
        Some(c) => if c.conversation is Some {
            MessageKind::Text
        } else if c.extended_text_message is Some {
            MessageKind::Text
        } else if c.reaction_message is Some {
            MessageKind::Reaction
        } else if c.image_message is Some {
            MessageKind::Image
        } else if c.video_message is Some {
            MessageKind::Video
        } else if c.has_audio_message {
            MessageKind::Audio
        } else if c.document_message is Some {
            MessageKind::Document
        } else if c.has_sticker_message {
            MessageKind::Sticker
        } else {
            MessageKind::Unknown
        },
    }
}

/// The textual content the winning shape yields: the text itself for the
/// text shapes, `"Reacted with {emoji}"` for a reaction, the caption (or a
/// placeholder) for media, placeholders for the rest.
pub open spec fn spec_content_text(m: Option<MessageContent>) -> Seq<char> {
    match m {
        None => "[Empty message]"@,
        Some(c) => match c.conversation {
            Some(t) => t@,
            None => match c.extended_text_message {
                Some(e) => e.text@,
                None => match c.reaction_message {
                    Some(r) => "Reacted with "@ + r.text@,
                    None => match c.image_message {
                        Some(i) => match i.caption {
                            Some(cap) => cap@,
                            None => "[Image]"@,
                        },
                        None => match c.video_message {
                            Some(v) => match v.caption {
                                Some(cap) => cap@,
                                None => "[Video]"@,
                            },
                            None => if c.has_audio_message {
                                "[Audio]"@
                            } else {
                                match c.document_message {
                                    Some(d) => match d.file_name {
                                        Some(f) => "[Document: "@ + f@ + "]"@,
                                        None => "[Document]"@,
                                    },
                                    None => if c.has_sticker_message {
                                        "[Sticker]"@
                                    } else {
                                        "[Empty message]"@
                                    },
                                }
                            },
                        },
                    },
                },
            },
        },
    }
}

/// The quoted-message reference the winning shape carries: a reply's quoted
/// id for extended text, the reacted-to id for a reaction, nothing else.
pub open spec fn spec_content_quoted(m: Option<MessageContent>) -> Option<String> {
    match m {
        None => None,
        Some(c) => if c.conversation is Some {
            None
        } else {
            match c.extended_text_message {
                Some(e) => e.quoted_message_id,
                None => match c.reaction_message {
                    Some(r) => r.reacted_message_id,
                    None => None,
                },
            }
        },
    }
}

/// The media URL, carried only when an image or video shape wins.
pub open spec fn spec_content_media_url(m: Option<MessageContent>) -> Option<String> {
    match m {
        None => None,
        Some(c) => match spec_content_kind(m) {
            MessageKind::Image => match c.image_message {
                Some(i) => i.url,
                None => None,
            },
            MessageKind::Video => match c.video_message {
                Some(v) => v.url,
                None => None,
            },
            _ => None,
        },
    }
}

/// The caption, carried only when an image or video shape wins.
pub open spec fn spec_content_caption(m: Option<MessageContent>) -> Option<String> {
    match m {
        None => None,
        Some(c) => match spec_content_kind(m) {
            MessageKind::Image => match c.image_message {
                Some(i) => i.caption,
                None => None,
            },
            MessageKind::Video => match c.video_message {
                Some(v) => v.caption,
                None => None,
            },
            _ => None,
        },
    }
}

/// A message content union, normalized: the winning kind with the textual
/// content and references it yields.
#[derive(Debug)]
pub struct NormalizedContent {
    pub kind: MessageKind,
    pub content: String,
    pub quoted_message_id: Option<String>,
    pub media_url: Option<String>,
    pub caption: Option<String>,
}

/// Normalizes a message content union by the stated precedence.
pub fn normalize_content(m: &Option<MessageContent>) -> (r: NormalizedContent)
    ensures
        r.kind == spec_content_kind(*m),
        r.content@ == spec_content_text(*m),
        r.quoted_message_id == spec_content_quoted(*m),
        r.media_url == spec_content_media_url(*m),
        r.caption == spec_content_caption(*m),
{
    let c = match m {
        Some(c) => c,
        None => {
            return NormalizedContent {
                kind: MessageKind::Unknown,
                content: String::from_str("[Empty message]"),
                quoted_message_id: None,
                media_url: None,
                caption: None,
            };
        },
    };
    if let Some(t) = &c.conversation {
        NormalizedContent {
            kind: MessageKind::Text,
            content: t.clone(),
            quoted_message_id: None,
            media_url: None,
            caption: None,
        }
    } else if let Some(e) = &c.extended_text_message {
        NormalizedContent {
            kind: MessageKind::Text,
            content: e.text.clone(),
            quoted_message_id: crate::message::clone_opt_string(&e.quoted_message_id),
            media_url: None,
            caption: None,
        }
    } else if let Some(r) = &c.reaction_message {
        NormalizedContent {
            kind: MessageKind::Reaction,
            content: String::from_str("Reacted with ").concat(r.text.as_str()),
            quoted_message_id: crate::message::clone_opt_string(&r.reacted_message_id),
            media_url: None,
            caption: None,
        }
    } else if let Some(i) = &c.image_message {
        NormalizedContent {
            kind: MessageKind::Image,
            content: match &i.caption {
                Some(cap) => cap.clone(),
                None => String::from_str("[Image]"),
            },
            quoted_message_id: None,
            media_url: crate::message::clone_opt_string(&i.url),
            caption: crate::message::clone_opt_string(&i.caption),
        }
    } else if let Some(v) = &c.video_message {
        NormalizedContent {
            kind: MessageKind::Video,
            content: match &v.caption {
                Some(cap) => cap.clone(),
                None => String::from_str("[Video]"),
            },
            quoted_message_id: None,
            media_url: crate::message::clone_opt_string(&v.url),
            caption: crate::message::clone_opt_string(&v.caption),
        }
    } else if c.has_audio_message {
        NormalizedContent {
            kind: MessageKind::Audio,
            content: String::from_str("[Audio]"),
            quoted_message_id: None,
            media_url: None,
            caption: None,
        }
    } else if let Some(d) = &c.document_message {
        NormalizedContent {
            kind: MessageKind::Document,
            content: match &d.file_name {
                Some(f) => String::from_str("[Document: ").concat(f.as_str()).concat("]"),
                None => String::from_str("[Document]"),
            },
            quoted_message_id: None,
            media_url: None,
            caption: None,
        }
    } else if c.has_sticker_message {
        NormalizedContent {
            kind: MessageKind::Sticker,
            content: String::from_str("[Sticker]"),
            quoted_message_id: None,
            media_url: None,
            caption: None,
        }
    } else {
        NormalizedContent {
            kind: MessageKind::Unknown,
            content: String::from_str("[Empty message]"),
            quoted_message_id: None,
            media_url: None,
            caption: None,
        }
    }
}

/// The sender a message key resolves to: the sentinel `"me"` for own
/// messages; otherwise the participant (falling back to the conversation id)
/// with the domain suffix stripped for display.
pub open spec fn spec_sender_view(k: WAKey) -> Seq<char> {
    if k.from_me {
        "me"@
    } else {
        match k.participant {
            Some(p) => spec_prefix_before(p@, '@'),
            None => spec_prefix_before(k.jid@, '@'),
        }
    }
}

/// Resolves the sender of a message key.
pub fn sender_of(k: &WAKey) -> (r: String)
    ensures
        r@ == spec_sender_view(*k),
{
    if k.from_me {
        String::from_str("me")
    } else {
        match &k.participant {
            Some(p) => prefix_before(p.as_str(), '@'),
            None => prefix_before(k.jid.as_str(), '@'),
        }
    }
}

/// The canonical message a wire message normalizes to, with `raw` as the
/// retained original content payload.
pub open spec fn spec_message_view(m: WAMessage, raw: Option<Seq<char>>) -> MessageView {
    MessageView {
        id: None,
        message_id: m.key.id@,
        jid: m.key.jid@,
        sender: spec_sender_view(m.key),
        content: spec_content_text(m.message),
        timestamp: m.timestamp,
        is_from_me: m.key.from_me,
        message_type: spec_content_kind(m.message).spec_label(),
        raw_data: raw,
        quoted_message_id: view_opt(spec_content_quoted(m.message)),
        media_url: view_opt(spec_content_media_url(m.message)),
        caption: view_opt(spec_content_caption(m.message)),
    }
}

/// Normalizes a wire message into the canonical message entity; `raw` is
/// stored as the retained original payload.
pub fn message_from_wire(m: WAMessage, raw: Option<String>) -> (r: Message)
    ensures
        r@ == spec_message_view(m, view_opt(raw)),
{
    let sender = sender_of(&m.key);
    let n = normalize_content(&m.message);
    Message {
        id: None,
        message_id: m.key.id,
        jid: m.key.jid,
        sender,
        content: n.content,
        timestamp: m.timestamp,
        is_from_me: m.key.from_me,
        message_type: n.kind.label(),
        raw_data: raw,
        quoted_message_id: n.quoted_message_id,
        media_url: n.media_url,
        caption: n.caption,
    }
}

/// Whether a jid names a group conversation, by the fixed suffix convention.
pub open spec fn spec_is_group_jid(jid: Seq<char>) -> bool {
    spec_contains_seq(jid, "@g.us"@)
}

/// Whether a jid names a group conversation.
pub fn is_group_jid(jid: &str) -> (r: bool)
    ensures
        r == spec_is_group_jid(jid@),
{
    contains_str(jid, "@g.us")
}

/// The display name a wire contact resolves to: its name, else its notify
/// name, else the id with the domain suffix stripped.
pub open spec fn spec_contact_name(w: WAContact) -> Seq<char> {
    match w.name {
        Some(n) => n@,
        None => match w.notify {
            Some(n) => n@,
            None => spec_prefix_before(w.id@, '@'),
        },
    }
}

/// The canonical contact a bare wire contact normalizes to: chat-level state
/// (unread, pin, mute, archive) defaults to zero and false.
pub open spec fn spec_contact_of_wire(w: WAContact) -> ContactView {
    ContactView {
        jid: w.id@,
        name: spec_contact_name(w),
        last_message: None,
        last_message_time: None,
        unread_count: 0,
        conversation_timestamp: 0,
        is_group: spec_is_group_jid(w.id@),
        archived: false,
        pinned: 0,
        mute_end_time: 0,
        profile_picture_url: None,
    }
}

/// Normalizes a bare wire contact.
pub fn contact_from_wire(w: WAContact) -> (r: Contact)
    ensures
        r@ == spec_contact_of_wire(w),
{
    let is_group = is_group_jid(w.id.as_str());
    let name = match w.name {
        Some(n) => n,
        None => match w.notify {
            Some(n) => n,
            None => prefix_before(w.id.as_str(), '@'),
        },
    };
    Contact {
        jid: w.id,
        name,
        last_message: None,
        last_message_time: None,
        unread_count: 0,
        conversation_timestamp: 0,
        is_group,
        archived: false,
        pinned: 0,
        mute_end_time: 0,
        profile_picture_url: None,
    }
}

/// A chat ordering timestamp as the signed column value, saturating at the
/// signed maximum; 0 when absent.
pub open spec fn spec_chat_timestamp(t: Option<u64>) -> i64 {
    match t {
        Some(v) => if v <= i64::MAX as u64 {
            v as i64
        } else {
            i64::MAX
        },
        None => 0,
    }
}

/// The canonical contact a wire chat normalizes to: absent chat-level state
/// defaults to zero and false.
pub open spec fn spec_contact_of_chat(c: WAChat) -> ContactView {
    ContactView {
        jid: c.id@,
        name: match c.name {
            Some(n) => n@,
            None => spec_prefix_before(c.id@, '@'),
        },
        last_message: None,
        last_message_time: None,
        unread_count: match c.unread_count {
            Some(n) => n,
            None => 0,
        },
        conversation_timestamp: spec_chat_timestamp(c.conversation_timestamp),
        is_group: spec_is_group_jid(c.id@),
        archived: match c.archived {
            Some(b) => b,
            None => false,
        },
        pinned: match c.pinned {
            Some(n) => n,
            None => 0,
        },
        mute_end_time: match c.mute_end_time {
            Some(n) => n,
            None => 0,
        },
        profile_picture_url: None,
    }
}

/// Normalizes a wire chat.
pub fn contact_from_chat(c: WAChat) -> (r: Contact)
    ensures
        r@ == spec_contact_of_chat(c),
{
    let is_group = is_group_jid(c.id.as_str());
    let name = match c.name {
        Some(n) => n,
        None => prefix_before(c.id.as_str(), '@'),
    };
    let conversation_timestamp: i64 = match c.conversation_timestamp {
        Some(v) => if v <= i64::MAX as u64 {
            v as i64
        } else {
            i64::MAX
        },
        None => 0,
    };
    Contact {
        jid: c.id,
        name,
        last_message: None,
        last_message_time: None,
        unread_count: match c.unread_count {
            Some(n) => n,
            None => 0,
        },
        conversation_timestamp,
        is_group,
        archived: match c.archived {
            Some(b) => b,
            None => false,
        },
        pinned: match c.pinned {
            Some(n) => n,
            None => 0,
        },
        mute_end_time: match c.mute_end_time {
            Some(n) => n,
            None => 0,
        },
        profile_picture_url: None,
    }
}

/// `n` clamped to the `i32` range.
pub open spec fn spec_clamp_i32(n: i64) -> i32 {
    if n > i32::MAX {
        i32::MAX
    } else if n < i32::MIN {
        i32::MIN
    } else {
        n as i32
    }
}

fn clamp_i32(n: i64) -> (r: i32)
    ensures
        r == spec_clamp_i32(n),
{
    if n > i32::MAX as i64 {
        i32::MAX
    } else if n < i32::MIN as i64 {
        i32::MIN
    } else {
        n as i32
    }
}

/// The canonical contact a legacy flat contact element normalizes to, when
/// it carries the two required strings; chat-level state defaults in place.
pub open spec fn spec_legacy_contact(j: JsonValue) -> Option<ContactView> {
    match j.spec_str_field("jid"@) {
        Some(jid) => match j.spec_str_field("name"@) {
            Some(name) => Some(
                ContactView {
                    jid: jid@,
                    name: name@,
                    last_message: None,
                    last_message_time: None,
                    unread_count: spec_clamp_i32(j.spec_i64_field("unreadCount"@, 0)),
                    conversation_timestamp: j.spec_i64_field("conversationTimestamp"@, 0),
                    is_group: j.spec_bool_field("isGroup"@, false),
                    archived: j.spec_bool_field("archived"@, false),
                    pinned: j.spec_i64_field("pinned"@, 0),
                    mute_end_time: j.spec_i64_field("muteEndTime"@, 0),
                    profile_picture_url: view_opt(j.spec_str_field("profilePictureUrl"@)),
                },
            ),
            None => None,
        },
        None => None,
    }
}

/// Normalizes a legacy flat contact element.
pub fn legacy_contact(j: &JsonValue) -> (r: Option<Contact>)
    ensures
        match r {
            Some(c) => spec_legacy_contact(*j) == Some(c@),
            None => spec_legacy_contact(*j) is None,
        },
{
    let jid = match j.str_field("jid") {
        Some(s) => s,
        None => {
            return None;
        },
    };
    let name = match j.str_field("name") {
        Some(s) => s,
        None => {
            return None;
        },
    };
    Some(
        Contact {
            jid,
            name,
            last_message: None,
            last_message_time: None,
            unread_count: clamp_i32(j.i64_field("unreadCount", 0)),
            conversation_timestamp: j.i64_field("conversationTimestamp", 0),
            is_group: j.bool_field("isGroup", false),
            archived: j.bool_field("archived", false),
            pinned: j.i64_field("pinned", 0),
            mute_end_time: j.i64_field("muteEndTime", 0),
            profile_picture_url: j.str_field("profilePictureUrl"),
        },
    )
}

/// The retained raw payload of a wire message element: its `message` field
/// rendered back to text, when present.
pub open spec fn spec_raw_of(j: JsonValue) -> Option<Seq<char>> {
    match j.spec_get("message"@) {
        Some(mj) => Some(spec_json_text(mj)),
        None => None,
    }
}

/// The events a list of wire message elements produces: one `MessageUpdate`
/// per decodable element, in order; elements without an identity are skipped.
pub open spec fn spec_message_events(elems: Seq<JsonValue>) -> Seq<EventView>
    decreases elems.len(),
{
    if elems.len() == 0 {
        Seq::empty()
    } else {
        let rest = spec_message_events(elems.drop_first());
        match spec_decode_message(elems[0]) {
            Some(m) => seq![
                EventView::MessageUpdate(spec_message_view(m, spec_raw_of(elems[0]))),
            ] + rest,
            None => rest,
        }
    }
}

/// The events a list of wire chat elements produces.
pub open spec fn spec_chat_events(elems: Seq<JsonValue>) -> Seq<EventView>
    decreases elems.len(),
{
    if elems.len() == 0 {
        Seq::empty()
    } else {
        let rest = spec_chat_events(elems.drop_first());
        match spec_decode_chat(elems[0]) {
            Some(c) => seq![EventView::ChatUpdate(spec_contact_of_chat(c))] + rest,
            None => rest,
        }
    }
}

/// The events a list of wire contact elements produces.
pub open spec fn spec_contact_events(elems: Seq<JsonValue>) -> Seq<EventView>
    decreases elems.len(),
{
    if elems.len() == 0 {
        Seq::empty()
    } else {
        let rest = spec_contact_events(elems.drop_first());
        match spec_decode_contact(elems[0]) {
            Some(w) => seq![EventView::ContactUpdate(spec_contact_of_wire(w))] + rest,
            None => rest,
        }
    }
}

/// The events a list of legacy flat contact elements produces.
pub open spec fn spec_legacy_contact_events(elems: Seq<JsonValue>) -> Seq<EventView>
    decreases elems.len(),
{
    if elems.len() == 0 {
        Seq::empty()
    } else {
        let rest = spec_legacy_contact_events(elems.drop_first());
        match spec_legacy_contact(elems[0]) {
            Some(c) => seq![EventView::ContactUpdate(c)] + rest,
            None => rest,
        }
    }
}

/// The events a connection status payload produces: a `QrCode` when a code
/// is present, then `Connected` when the connection reads `"open"`.
pub open spec fn spec_connection_events(u: ConnectionUpdate) -> Seq<EventView> {
    (match u.qr {
        Some(q) => seq![EventView::QrCode(q@)],
        None => Seq::empty(),
    }) + (match u.connection {
        Some(c) => if c@ == "open"@ {
            seq![EventView::Connected]
        } else {
            Seq::empty()
        },
        None => Seq::empty(),
    })
}

/// The event a single legacy message element produces.
pub open spec fn spec_single_message_events(mj: JsonValue) -> Seq<EventView> {
    match spec_decode_message(mj) {
        Some(m) => seq![EventView::MessageUpdate(spec_message_view(m, spec_raw_of(mj)))],
        None => Seq::empty(),
    }
}

/// The elements of the array under `key` inside the frame's `payload`;
/// empty when either level is missing or differently shaped.
pub open spec fn spec_payload_array(j: JsonValue, key: Seq<char>) -> Seq<JsonValue> {
    match j.spec_get("payload"@) {
        Some(p) => spec_array_field(p, key),
        None => Seq::empty(),
    }
}

/// The canonical events one decoded frame produces, over both wire variants.
/// An unrecognized discriminant, or a payload that does not match its
/// discriminant's shape, produces no events.
pub open spec fn spec_events_of(j: JsonValue) -> Seq<EventView> {
    match j.spec_str_field("type"@) {
        None => Seq::empty(),
        Some(t) => if t@ == "connection.update"@ {
            match j.spec_get("payload"@) {
                Some(p) => spec_connection_events(spec_decode_connection_update(p)),
                None => Seq::empty(),
            }
        } else if t@ == "messages.upsert"@ {
            spec_message_events(spec_payload_array(j, "messages"@))
        } else if t@ == "chats.set"@ {
            spec_chat_events(spec_payload_array(j, "chats"@))
        } else if t@ == "chats.update"@ {
            match j.spec_get("payload"@) {
                Some(p) => spec_chat_events(
                    match p {
                        JsonValue::Arr(a) => a@,
                        _ => Seq::empty(),
                    },
                ),
                None => Seq::empty(),
            }
        } else if t@ == "contacts.set"@ {
            spec_contact_events(spec_payload_array(j, "contacts"@))
        } else if t@ == "messaging-history.set"@ {
            spec_chat_events(spec_payload_array(j, "chats"@)) + spec_contact_events(
                spec_payload_array(j, "contacts"@),
            ) + spec_message_events(spec_payload_array(j, "messages"@))
        } else if t@ == "qr"@ {
            match j.spec_str_field("qr"@) {
                Some(q) => seq![EventView::QrCode(q@)],
                None => Seq::empty(),
            }
        } else if t@ == "connected"@ {
            seq![EventView::Connected]
        } else if t@ == "message"@ {
            match j.spec_get("message"@) {
                Some(mj) => spec_single_message_events(mj),
                None => Seq::empty(),
            }
        } else if t@ == "contacts"@ {
            match j.spec_get("contacts"@) {
                Some(p) => spec_legacy_contact_events(
                    match p {
                        JsonValue::Arr(a) => a@,
                        _ => Seq::empty(),
                    },
                ),
                None => Seq::empty(),
            }
        } else {
            Seq::empty()
        },
    }
}

/// The canonical events one raw frame text produces: none when the text is
/// not valid JSON.
pub open spec fn spec_frame_events(s: Seq<char>) -> Seq<EventView> {
    match json_of(s) {
        Some(j) => spec_events_of(j),
        None => Seq::empty(),
    }
}

proof fn lemma_views_push(s: Seq<WhatsAppEvent>, e: WhatsAppEvent)
    ensures
        views_of(s.push(e)) == views_of(s) + seq![e@],
{
    assert(views_of(s.push(e)) =~= views_of(s) + seq![e@]);
}

fn no_events() -> (r: Vec<WhatsAppEvent>)
    ensures
        r@ == Seq::<WhatsAppEvent>::empty(),
        views_of(r@) == Seq::<EventView>::empty(),
{
    let r: Vec<WhatsAppEvent> = Vec::new();
    proof {
        assert(views_of(r@) =~= Seq::<EventView>::empty());
    }
    r
}

fn message_events(elems: &Vec<JsonValue>) -> (r: Vec<WhatsAppEvent>)
    ensures
        views_of(r@) == spec_message_events(elems@),
{
    let mut out: Vec<WhatsAppEvent> = Vec::new();
    let n = elems.len();
    proof {
        assert(elems@.subrange(0, n as int) =~= elems@);
        assert(views_of(out@) =~= Seq::<EventView>::empty());
    }
    let mut i: usize = 0;
    while i < n
        invariant
            n == elems@.len(),
            i <= n,
            spec_message_events(elems@) == views_of(out@) + spec_message_events(
                elems@.subrange(i as int, n as int),
            ),
        decreases n - i,
    {
        proof {
            let rem = elems@.subrange(i as int, n as int);
            assert(rem[0] == elems@[i as int]);
            assert(rem.drop_first() =~= elems@.subrange(i + 1, n as int));
        }
        let ej = &elems[i];
        match decode_message(ej) {
            Some(m) => {
                let raw = match ej.get("message") {
                    Some(mj) => Some(json_to_string(mj)),
                    None => None,
                };
                let ev = WhatsAppEvent::MessageUpdate(message_from_wire(m, raw));
                proof {
                    lemma_views_push(out@, ev);
                }
                out.push(ev);
                proof {
                    assert(spec_message_events(elems@) =~= views_of(out@) + spec_message_events(
                        elems@.subrange(i + 1, n as int),
                    ));
                }
            },
            None => {},
        }
        i += 1;
    }
    proof {
        assert(elems@.subrange(n as int, n as int) =~= Seq::<JsonValue>::empty());
        assert(spec_message_events(elems@) =~= views_of(out@));
    }
    out
}

fn chat_events(elems: &Vec<JsonValue>) -> (r: Vec<WhatsAppEvent>)
    ensures
        views_of(r@) == spec_chat_events(elems@),
{
    let mut out: Vec<WhatsAppEvent> = Vec::new();
    let n = elems.len();
    proof {
        assert(elems@.subrange(0, n as int) =~= elems@);
        assert(views_of(out@) =~= Seq::<EventView>::empty());
    }
    let mut i: usize = 0;
    while i < n
        invariant
            n == elems@.len(),
            i <= n,
            spec_chat_events(elems@) == views_of(out@) + spec_chat_events(
                elems@.subrange(i as int, n as int),
            ),
        decreases n - i,
    {
        proof {
            let rem = elems@.subrange(i as int, n as int);
            assert(rem[0] == elems@[i as int]);
            assert(rem.drop_first() =~= elems@.subrange(i + 1, n as int));
        }
        match decode_chat(&elems[i]) {
            Some(c) => {
                let ev = WhatsAppEvent::ChatUpdate(contact_from_chat(c));
                proof {
                    lemma_views_push(out@, ev);
                }
                out.push(ev);
                proof {
                    assert(spec_chat_events(elems@) =~= views_of(out@) + spec_chat_events(
                        elems@.subrange(i + 1, n as int),
                    ));
                }
            },
            None => {},
        }
        i += 1;
    }
    proof {
        assert(elems@.subrange(n as int, n as int) =~= Seq::<JsonValue>::empty());
        assert(spec_chat_events(elems@) =~= views_of(out@));
    }
    out
}

fn contact_events(elems: &Vec<JsonValue>) -> (r: Vec<WhatsAppEvent>)
    ensures
        views_of(r@) == spec_contact_events(elems@),
{
    let mut out: Vec<WhatsAppEvent> = Vec::new();
    let n = elems.len();
    proof {
        assert(elems@.subrange(0, n as int) =~= elems@);
        assert(views_of(out@) =~= Seq::<EventView>::empty());
    }
    let mut i: usize = 0;
    while i < n
        invariant
            n == elems@.len(),
            i <= n,
            spec_contact_events(elems@) == views_of(out@) + spec_contact_events(
                elems@.subrange(i as int, n as int),
            ),
        decreases n - i,
    {
        proof {
            let rem = elems@.subrange(i as int, n as int);
            assert(rem[0] == elems@[i as int]);
            assert(rem.drop_first() =~= elems@.subrange(i + 1, n as int));
        }
        match decode_contact(&elems[i]) {
            Some(w) => {
                let ev = WhatsAppEvent::ContactUpdate(contact_from_wire(w));
                proof {
                    lemma_views_push(out@, ev);
                }
                out.push(ev);
                proof {
                    assert(spec_contact_events(elems@) =~= views_of(out@) + spec_contact_events(
                        elems@.subrange(i + 1, n as int),
                    ));
                }
            },
            None => {},
        }
        i += 1;
    }
    proof {
        assert(elems@.subrange(n as int, n as int) =~= Seq::<JsonValue>::empty());
        assert(spec_contact_events(elems@) =~= views_of(out@));
    }
    out
}

fn legacy_contact_events(elems: &Vec<JsonValue>) -> (r: Vec<WhatsAppEvent>)
    ensures
        views_of(r@) == spec_legacy_contact_events(elems@),
{
    let mut out: Vec<WhatsAppEvent> = Vec::new();
    let n = elems.len();
    proof {
        assert(elems@.subrange(0, n as int) =~= elems@);
        assert(views_of(out@) =~= Seq::<EventView>::empty());
    }
    let mut i: usize = 0;
    while i < n
        invariant
            n == elems@.len(),
            i <= n,
            spec_legacy_contact_events(elems@) == views_of(out@) + spec_legacy_contact_events(
                elems@.subrange(i as int, n as int),
            ),
        decreases n - i,
    {
        proof {
            let rem = elems@.subrange(i as int, n as int);
            assert(rem[0] == elems@[i as int]);
            assert(rem.drop_first() =~= elems@.subrange(i + 1, n as int));
        }
        match legacy_contact(&elems[i]) {
            Some(c) => {
                let ev = WhatsAppEvent::ContactUpdate(c);
                proof {
                    lemma_views_push(out@, ev);
                }
                out.push(ev);
                proof {
                    assert(spec_legacy_contact_events(elems@) =~= views_of(out@)
                        + spec_legacy_contact_events(elems@.subrange(i + 1, n as int)));
                }
            },
            None => {},
        }
        i += 1;
    }
    proof {
        assert(elems@.subrange(n as int, n as int) =~= Seq::<JsonValue>::empty());
        assert(spec_legacy_contact_events(elems@) =~= views_of(out@));
    }
    out
}

fn connection_events(u: &ConnectionUpdate) -> (r: Vec<WhatsAppEvent>)
    ensures
        views_of(r@) == spec_connection_events(*u),
{
    let mut out: Vec<WhatsAppEvent> = Vec::new();
    proof {
        assert(views_of(out@) =~= Seq::<EventView>::empty());
    }
    match &u.qr {
        Some(q) => {
            let ev = WhatsAppEvent::QrCode(q.clone());
            proof {
                lemma_views_push(out@, ev);
            }
            out.push(ev);
        },
        None => {},
    }
    match &u.connection {
        Some(c) => {
            if str_eq(c.as_str(), "open") {
                let ev = WhatsAppEvent::Connected;
                proof {
                    lemma_views_push(out@, ev);
                }
                out.push(ev);
            }
        },
        None => {},
    }
    proof {
        assert(views_of(out@) =~= spec_connection_events(*u));
    }
    out
}

/// The canonical events one decoded frame produces.
pub fn events_of_json(j: &JsonValue) -> (r: Vec<WhatsAppEvent>)
    ensures
        views_of(r@) == spec_events_of(*j),
{
    let t = match j.str_field("type") {
        Some(t) => t,
        None => {
            return no_events();
        },
    };
    if str_eq(t.as_str(), "connection.update") {
        match j.get("payload") {
            Some(p) => connection_events(&decode_connection_update(p)),
            None => no_events(),
        }
    } else if str_eq(t.as_str(), "messages.upsert") {
        match j.get("payload") {
            Some(p) => match array_field(p, "messages") {
                Some(a) => message_events(a),
                None => no_events(),
            },
            None => no_events(),
        }
    } else if str_eq(t.as_str(), "chats.set") {
        match j.get("payload") {
            Some(p) => match array_field(p, "chats") {
                Some(a) => chat_events(a),
                None => no_events(),
            },
            None => no_events(),
        }
    } else if str_eq(t.as_str(), "chats.update") {
        match j.get("payload") {
            Some(p) => match p.as_arr() {
                Some(a) => chat_events(a),
                None => no_events(),
            },
            None => no_events(),
        }
    } else if str_eq(t.as_str(), "contacts.set") {
        match j.get("payload") {
            Some(p) => match array_field(p, "contacts") {
                Some(a) => contact_events(a),
                None => no_events(),
            },
            None => no_events(),
        }
    } else if str_eq(t.as_str(), "messaging-history.set") {
        let mut out: Vec<WhatsAppEvent>;
        match j.get("payload") {
            Some(p) => {
                out = match array_field(p, "chats") {
                    Some(a) => chat_events(a),
                    None => no_events(),
                };
                let mut contacts = match array_field(p, "contacts") {
                    Some(a) => contact_events(a),
                    None => no_events(),
                };
                let mut messages = match array_field(p, "messages") {
                    Some(a) => message_events(a),
                    None => no_events(),
                };
                proof {
                    assert(views_of(out@ + contacts@ + messages@) =~= views_of(out@) + views_of(
                        contacts@,
                    ) + views_of(messages@));
                }
                out.append(&mut contacts);
                out.append(&mut messages);
            },
            None => {
                out = no_events();
                proof {
                    assert(spec_payload_array(*j, "chats"@) =~= Seq::<JsonValue>::empty());
                    assert(views_of(out@) =~= spec_events_of(*j));
                }
            },
        }
        out
    } else if str_eq(t.as_str(), "qr") {
        match j.str_field("qr") {
            Some(q) => {
                let mut out: Vec<WhatsAppEvent> = Vec::new();
                let ev = WhatsAppEvent::QrCode(q);
                proof {
                    assert(views_of(out@) =~= Seq::<EventView>::empty());
                    lemma_views_push(out@, ev);
                }
                out.push(ev);
                proof {
                    assert(views_of(out@) =~= spec_events_of(*j));
                }
                out
            },
            None => no_events(),
        }
    } else if str_eq(t.as_str(), "connected") {
        let mut out: Vec<WhatsAppEvent> = Vec::new();
        let ev = WhatsAppEvent::Connected;
        proof {
            assert(views_of(out@) =~= Seq::<EventView>::empty());
            lemma_views_push(out@, ev);
        }
        out.push(ev);
        proof {
            assert(views_of(out@) =~= spec_events_of(*j));
        }
        out
    } else if str_eq(t.as_str(), "message") {
        match j.get("message") {
            Some(mj) => match decode_message(mj) {
                Some(m) => {
                    let raw = match mj.get("message") {
                        Some(inner) => Some(json_to_string(inner)),
                        None => None,
                    };
                    let ev = WhatsAppEvent::MessageUpdate(message_from_wire(m, raw));
                    let mut out: Vec<WhatsAppEvent> = Vec::new();
                    proof {
                        assert(views_of(out@) =~= Seq::<EventView>::empty());
                        lemma_views_push(out@, ev);
                    }
                    out.push(ev);
                    proof {
                        assert(views_of(out@) =~= spec_events_of(*j));
                    }
                    out
                },
                None => no_events(),
            },
            None => no_events(),
        }
    } else if str_eq(t.as_str(), "contacts") {
        match j.get("contacts") {
            Some(p) => match p.as_arr() {
                Some(a) => legacy_contact_events(a),
                None => no_events(),
            },
            None => no_events(),
        }
    } else {
        no_events()
    }
}

/// Law: content precedence — a message payload carrying plain conversation
/// text normalizes to that text as a plain text message, whatever other
/// shapes (an image, a video, ...) stand beside it.
pub proof fn lemma_content_precedence(c: MessageContent, t: String)
    requires
        c.conversation == Some(t),
    ensures
        spec_content_kind(Some(c)) == MessageKind::Text,
        spec_content_text(Some(c)) == t@,
        spec_content_quoted(Some(c)) is None,
        spec_content_media_url(Some(c)) is None,
        spec_content_caption(Some(c)) is None,
{
}

/// Law: unknown-field tolerance — a chat element that carries its id but
/// none of the unread, pin or mute fields decodes, and normalizes with zero
/// for all three, rather than failing.
pub proof fn lemma_unknown_field_tolerance(j: JsonValue)
    requires
        j.spec_str_field("id"@) is Some,
        j.spec_get("unreadCount"@) is None,
        j.spec_get("pinned"@) is None,
        j.spec_get("muteEndTime"@) is None,
    ensures
        spec_decode_chat(j) is Some,
        ({
            let c = spec_contact_of_chat(spec_decode_chat(j)->Some_0);
            c.unread_count == 0 && c.pinned == 0 && c.mute_end_time == 0
        }),
{
}

/// Normalizes one raw frame text into its canonical events. A frame that is
/// not valid JSON, carries no recognized discriminant, or whose payload does
/// not match its discriminant's shape produces no events and no error.
pub fn normalize_frame(text: &str) -> (events: Vec<WhatsAppEvent>)
    ensures
        views_of(events@) == spec_frame_events(text@),
{
    match parse_json(text) {
        Some(j) => events_of_json(&j),
        None => no_events(),
    }
}

} // verus!
