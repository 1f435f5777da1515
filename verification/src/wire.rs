//! The gateway's wire shapes, decoded from the JSON model.
//!
//! Every decoder is tolerant: a missing or differently-shaped optional field
//! becomes a default, and only the identity fields a shape cannot do without
//! are required. An element that lacks those is skipped, never an error.

use vstd::prelude::*;

use crate::json::JsonValue;

verus! {

/// The identity block of a wire message: owning conversation, sender
/// direction, gateway message id and optional group participant.
#[derive(Debug)]
pub struct WAKey {
    pub jid: String,
    pub from_me: bool,
    pub id: String,
    pub participant: Option<String>,
}

/// Extended (formatted / link-preview) text, with the id of the quoted
/// message when the text is a reply.
#[derive(Debug)]
pub struct ExtendedTextMessage {
    pub text: String,
    pub quoted_message_id: Option<String>,
}

/// An emoji reaction to an earlier message.
#[derive(Debug)]
pub struct ReactionMessage {
    pub text: String,
    pub reacted_message_id: Option<String>,
}

/// An image or video payload: a media URL and an optional caption.
#[derive(Debug)]
pub struct MediaMessage {
    pub url: Option<String>,
    pub caption: Option<String>,
}

/// A document payload.
#[derive(Debug)]
pub struct DocumentMessage {
    pub file_name: Option<String>,
}

/// The content union of one wire message: which shapes are present, each
/// with what it carries. Several may be present at once; precedence is the
/// normalizer's concern.
#[derive(Debug)]
pub struct MessageContent {
    pub conversation: Option<String>,
    pub extended_text_message: Option<ExtendedTextMessage>,
    pub reaction_message: Option<ReactionMessage>,
    pub image_message: Option<MediaMessage>,
    pub video_message: Option<MediaMessage>,
    pub has_audio_message: bool,
    pub document_message: Option<DocumentMessage>,
    pub has_sticker_message: bool,
}

/// One wire message: identity, gateway timestamp (seconds since the epoch)
/// and optional content.
#[derive(Debug)]
pub struct WAMessage {
    pub key: WAKey,
    pub timestamp: i64,
    pub message: Option<MessageContent>,
}

/// One wire contact.
#[derive(Debug)]
pub struct WAContact {
    pub id: String,
    pub name: Option<String>,
    pub notify: Option<String>,
}

/// One wire chat: a conversation with its unread/pin/mute/archive state.
#[derive(Debug)]
pub struct WAChat {
    pub id: String,
    pub name: Option<String>,
    pub unread_count: Option<i32>,
    pub conversation_timestamp: Option<u64>,
    pub archived: Option<bool>,
    pub pinned: Option<i64>,
    pub mute_end_time: Option<i64>,
}

/// The bulk history snapshot: chats, contacts and messages delivered
/// together after (re)connection.
#[derive(Debug)]
pub struct MessagingHistorySet {
    pub chats: Vec<WAChat>,
    pub contacts: Vec<WAContact>,
    pub messages: Vec<WAMessage>,
    pub is_latest: bool,
}

/// The connection status payload: a fresh pairing code and/or the connection
/// state string.
#[derive(Debug)]
pub struct ConnectionUpdate {
    pub qr: Option<String>,
    pub connection: Option<String>,
}

/// The key block of a wire message, when the JSON carries both required
/// identity strings.
pub open spec fn spec_decode_key(j: JsonValue) -> Option<WAKey> {
    match j.spec_str_field("remoteJid"@) {
        Some(jid) => match j.spec_str_field("id"@) {
            Some(id) => Some(
                WAKey {
                    jid,
                    from_me: j.spec_bool_field("fromMe"@, false),
                    id,
                    participant: j.spec_str_field("participant"@),
                },
            ),
            None => None,
        },
        None => None,
    }
}

/// Decodes the key block of a wire message.
pub fn decode_key(j: &JsonValue) -> (r: Option<WAKey>)
    ensures
        r == spec_decode_key(*j),
{
    let jid = match j.str_field("remoteJid") {
        Some(s) => s,
        None => {
            return None;
        },
    };
    let id = match j.str_field("id") {
        Some(s) => s,
        None => {
            return None;
        },
    };
    Some(
        WAKey {
            jid,
            from_me: j.bool_field("fromMe", false),
            id,
            participant: j.str_field("participant"),
        },
    )
}

/// The quoted-message id embedded in extended text context, when present.
pub open spec fn spec_quoted_of_context(e: JsonValue) -> Option<String> {
    match e.spec_get("contextInfo"@) {
        Some(ci) => ci.spec_str_field("stanzaId"@),
        None => None,
    }
}

/// The extended-text shape: present exactly when the field carries a text
/// string.
pub open spec fn spec_decode_extended(j: JsonValue) -> Option<ExtendedTextMessage> {
    match j.spec_get("extendedTextMessage"@) {
        Some(e) => match e.spec_str_field("text"@) {
            Some(t) => Some(
                ExtendedTextMessage { text: t, quoted_message_id: spec_quoted_of_context(e) },
            ),
            None => None,
        },
        None => None,
    }
}

/// The reaction shape: present exactly when the field carries the emoji
/// text; the reacted-to id comes from the embedded key.
pub open spec fn spec_decode_reaction(j: JsonValue) -> Option<ReactionMessage> {
    match j.spec_get("reactionMessage"@) {
        Some(e) => match e.spec_str_field("text"@) {
            Some(t) => Some(
                ReactionMessage {
                    text: t,
                    reacted_message_id: match e.spec_get("key"@) {
                        Some(k) => k.spec_str_field("id"@),
                        None => None,
                    },
                },
            ),
            None => None,
        },
        None => None,
    }
}

/// A media shape under `key`: present when the field is, with whatever URL
/// and caption it carries.
pub open spec fn spec_decode_media(j: JsonValue, key: Seq<char>) -> Option<MediaMessage> {
    match j.spec_get(key) {
        Some(m) => Some(
            MediaMessage { url: m.spec_str_field("url"@), caption: m.spec_str_field("caption"@) },
        ),
        None => None,
    }
}

/// The document shape, with its optional file name.
pub open spec fn spec_decode_document(j: JsonValue) -> Option<DocumentMessage> {
    match j.spec_get("documentMessage"@) {
        Some(d) => Some(DocumentMessage { file_name: d.spec_str_field("fileName"@) }),
        None => None,
    }
}

/// The full content union of one wire message. Never fails: absent shapes
/// are absent fields.
pub open spec fn spec_decode_content(j: JsonValue) -> MessageContent {
    MessageContent {
        conversation: j.spec_str_field("conversation"@),
        extended_text_message: spec_decode_extended(j),
        reaction_message: spec_decode_reaction(j),
        image_message: spec_decode_media(j, "imageMessage"@),
        video_message: spec_decode_media(j, "videoMessage"@),
        has_audio_message: j.spec_has_field("audioMessage"@),
        document_message: spec_decode_document(j),
        has_sticker_message: j.spec_has_field("stickerMessage"@),
    }
}

fn decode_media(j: &JsonValue, key: &str) -> (r: Option<MediaMessage>)
    ensures
        r == spec_decode_media(*j, key@),
{
    match j.get(key) {
        Some(m) => Some(MediaMessage { url: m.str_field("url"), caption: m.str_field("caption") }),
        None => None,
    }
}

/// Decodes the content union of one wire message.
pub fn decode_content(j: &JsonValue) -> (r: MessageContent)
    ensures
        r == spec_decode_content(*j),
{
    let extended_text_message = match j.get("extendedTextMessage") {
        Some(e) => match e.str_field("text") {
            Some(t) => Some(
                ExtendedTextMessage {
                    text: t,
                    quoted_message_id: match e.get("contextInfo") {
                        Some(ci) => ci.str_field("stanzaId"),
                        None => None,
                    },
                },
            ),
            None => None,
        },
        None => None,
    };
    let reaction_message = match j.get("reactionMessage") {
        Some(e) => match e.str_field("text") {
            Some(t) => Some(
                ReactionMessage {
                    text: t,
                    reacted_message_id: match e.get("key") {
                        Some(k) => k.str_field("id"),
                        None => None,
                    },
                },
            ),
            None => None,
        },
        None => None,
    };
    MessageContent {
        conversation: j.str_field("conversation"),
        extended_text_message,
        reaction_message,
        image_message: decode_media(j, "imageMessage"),
        video_message: decode_media(j, "videoMessage"),
        has_audio_message: j.has_field("audioMessage"),
        document_message: match j.get("documentMessage") {
            Some(d) => Some(DocumentMessage { file_name: d.str_field("fileName") }),
            None => None,
        },
        has_sticker_message: j.has_field("stickerMessage"),
    }
}

/// One wire message, when the JSON carries a well-formed key block.
pub open spec fn spec_decode_message(j: JsonValue) -> Option<WAMessage> {
    match j.spec_get("key"@) {
        Some(k) => match spec_decode_key(k) {
            Some(key) => Some(
                WAMessage {
                    key,
                    timestamp: j.spec_i64_field("messageTimestamp"@, 0),
                    message: match j.spec_get("message"@) {
                        Some(m) => Some(spec_decode_content(m)),
                        None => None,
                    },
                },
            ),
            None => None,
        },
        None => None,
    }
}

/// Decodes one wire message.
pub fn decode_message(j: &JsonValue) -> (r: Option<WAMessage>)
    ensures
        r == spec_decode_message(*j),
{
    let key = match j.get("key") {
        Some(k) => match decode_key(k) {
            Some(key) => key,
            None => {
                return None;
            },
        },
        None => {
            return None;
        },
    };
    Some(
        WAMessage {
            key,
            timestamp: j.i64_field("messageTimestamp", 0),
            message: match j.get("message") {
                Some(m) => Some(decode_content(m)),
                None => None,
            },
        },
    )
}

/// One wire contact, when the JSON carries its identity: some deployments
/// key the element `id`, others `jid`; both are understood.
pub open spec fn spec_decode_contact(j: JsonValue) -> Option<WAContact> {
    let id = match j.spec_str_field("id"@) {
        Some(i) => Some(i),
        None => j.spec_str_field("jid"@),
    };
    match id {
        Some(id) => Some(
            WAContact {
                id,
                name: j.spec_str_field("name"@),
                notify: j.spec_str_field("notify"@),
            },
        ),
        None => None,
    }
}

/// Decodes one wire contact.
pub fn decode_contact(j: &JsonValue) -> (r: Option<WAContact>)
    ensures
        r == spec_decode_contact(*j),
{
    let id = match j.str_field("id") {
        Some(i) => Some(i),
        None => j.str_field("jid"),
    };
    match id {
        Some(id) => Some(
            WAContact { id, name: j.str_field("name"), notify: j.str_field("notify") },
        ),
        None => None,
    }
}

/// The integer content of field `key` when it fits an `i32`; absent or
/// out-of-range values are absent.
pub open spec fn spec_opt_i32_field(j: JsonValue, key: Seq<char>) -> Option<i32> {
    match j.spec_get(key) {
        Some(JsonValue::Int(n)) => if i32::MIN <= n <= i32::MAX {
            Some(n as i32)
        } else {
            None
        },
        _ => None,
    }
}

/// The integer content of field `key` when it is non-negative; absent or
/// negative values are absent.
pub open spec fn spec_opt_u64_field(j: JsonValue, key: Seq<char>) -> Option<u64> {
    match j.spec_get(key) {
        Some(JsonValue::Int(n)) => if n >= 0 {
            Some(n as u64)
        } else {
            None
        },
        _ => None,
    }
}

/// The integer content of field `key`, when present.
pub open spec fn spec_opt_i64_field(j: JsonValue, key: Seq<char>) -> Option<i64> {
    match j.spec_get(key) {
        Some(JsonValue::Int(n)) => Some(n),
        _ => None,
    }
}

/// The boolean content of field `key`, when present.
pub open spec fn spec_opt_bool_field(j: JsonValue, key: Seq<char>) -> Option<bool> {
    match j.spec_get(key) {
        Some(JsonValue::Bool(b)) => Some(b),
        _ => None,
    }
}

fn opt_i32_field(j: &JsonValue, key: &str) -> (r: Option<i32>)
    ensures
        r == spec_opt_i32_field(*j, key@),
{
    match j.get(key) {
        Some(v) => match v {
            JsonValue::Int(n) => if i32::MIN as i64 <= *n && *n <= i32::MAX as i64 {
                Some(*n as i32)
            } else {
                None
            },
            _ => None,
        },
        None => None,
    }
}

fn opt_u64_field(j: &JsonValue, key: &str) -> (r: Option<u64>)
    ensures
        r == spec_opt_u64_field(*j, key@),
{
    match j.get(key) {
        Some(v) => match v {
            JsonValue::Int(n) => if *n >= 0 {
                Some(*n as u64)
            } else {
                None
            },
            _ => None,
        },
        None => None,
    }
}

fn opt_i64_field(j: &JsonValue, key: &str) -> (r: Option<i64>)
    ensures
        r == spec_opt_i64_field(*j, key@),
{
    match j.get(key) {
        Some(v) => match v {
            JsonValue::Int(n) => Some(*n),
            _ => None,
        },
        None => None,
    }
}

fn opt_bool_field(j: &JsonValue, key: &str) -> (r: Option<bool>)
    ensures
        r == spec_opt_bool_field(*j, key@),
{
    match j.get(key) {
        Some(v) => match v {
            JsonValue::Bool(b) => Some(*b),
            _ => None,
        },
        None => None,
    }
}

/// One wire chat, when the JSON carries its id.
pub open spec fn spec_decode_chat(j: JsonValue) -> Option<WAChat> {
    match j.spec_str_field("id"@) {
        Some(id) => Some(
            WAChat {
                id,
                name: j.spec_str_field("name"@),
                unread_count: spec_opt_i32_field(j, "unreadCount"@),
                conversation_timestamp: spec_opt_u64_field(j, "conversationTimestamp"@),
                archived: spec_opt_bool_field(j, "archived"@),
                pinned: spec_opt_i64_field(j, "pinned"@),
                mute_end_time: spec_opt_i64_field(j, "muteEndTime"@),
            },
        ),
        None => None,
    }
}

/// Decodes one wire chat.
pub fn decode_chat(j: &JsonValue) -> (r: Option<WAChat>)
    ensures
        r == spec_decode_chat(*j),
{
    match j.str_field("id") {
        Some(id) => Some(
            WAChat {
                id,
                name: j.str_field("name"),
                unread_count: opt_i32_field(j, "unreadCount"),
                conversation_timestamp: opt_u64_field(j, "conversationTimestamp"),
                archived: opt_bool_field(j, "archived"),
                pinned: opt_i64_field(j, "pinned"),
                mute_end_time: opt_i64_field(j, "muteEndTime"),
            },
        ),
        None => None,
    }
}

/// The connection status payload. Never fails: both fields are optional.
pub open spec fn spec_decode_connection_update(j: JsonValue) -> ConnectionUpdate {
    ConnectionUpdate { qr: j.spec_str_field("qr"@), connection: j.spec_str_field("connection"@) }
}

/// Decodes the connection status payload.
pub fn decode_connection_update(j: &JsonValue) -> (r: ConnectionUpdate)
    ensures
        r == spec_decode_connection_update(*j),
{
    ConnectionUpdate { qr: j.str_field("qr"), connection: j.str_field("connection") }
}

/// The wire chats among a payload's elements, in order; elements without an
/// identity are skipped.
pub open spec fn spec_chat_list(elems: Seq<JsonValue>) -> Seq<WAChat>
    decreases elems.len(),
{
    if elems.len() == 0 {
        Seq::empty()
    } else {
        let rest = spec_chat_list(elems.drop_first());
        match spec_decode_chat(elems[0]) {
            Some(c) => seq![c] + rest,
            None => rest,
        }
    }
}

/// The wire contacts among a payload's elements, in order.
pub open spec fn spec_contact_list(elems: Seq<JsonValue>) -> Seq<WAContact>
    decreases elems.len(),
{
    if elems.len() == 0 {
        Seq::empty()
    } else {
        let rest = spec_contact_list(elems.drop_first());
        match spec_decode_contact(elems[0]) {
            Some(c) => seq![c] + rest,
            None => rest,
        }
    }
}

/// The wire messages among a payload's elements, in order.
pub open spec fn spec_message_list(elems: Seq<JsonValue>) -> Seq<WAMessage>
    decreases elems.len(),
{
    if elems.len() == 0 {
        Seq::empty()
    } else {
        let rest = spec_message_list(elems.drop_first());
        match spec_decode_message(elems[0]) {
            Some(m) => seq![m] + rest,
            None => rest,
        }
    }
}

/// The elements of the array under `key`; empty when absent or of another
/// shape.
pub open spec fn spec_array_field(j: JsonValue, key: Seq<char>) -> Seq<JsonValue> {
    match j.spec_get(key) {
        Some(JsonValue::Arr(a)) => a@,
        _ => Seq::empty(),
    }
}

fn chat_list(elems: &Vec<JsonValue>) -> (r: Vec<WAChat>)
    ensures
        r@ == spec_chat_list(elems@),
{
    let mut out: Vec<WAChat> = Vec::new();
    let n = elems.len();
    proof {
        assert(elems@.subrange(0, n as int) =~= elems@);
    }
    let mut i: usize = 0;
    while i < n
        invariant
            n == elems@.len(),
            i <= n,
            spec_chat_list(elems@) == out@ + spec_chat_list(elems@.subrange(i as int, n as int)),
        decreases n - i,
    {
        proof {
            let rem = elems@.subrange(i as int, n as int);
            assert(rem[0] == elems@[i as int]);
            assert(rem.drop_first() =~= elems@.subrange(i + 1, n as int));
        }
        match decode_chat(&elems[i]) {
            Some(c) => {
                out.push(c);
                proof {
                    assert(spec_chat_list(elems@) =~= out@ + spec_chat_list(
                        elems@.subrange(i + 1, n as int),
                    ));
                }
            },
            None => {},
        }
        i += 1;
    }
    proof {
        assert(spec_chat_list(elems@) =~= out@);
    }
    out
}

fn contact_list(elems: &Vec<JsonValue>) -> (r: Vec<WAContact>)
    ensures
        r@ == spec_contact_list(elems@),
{
    let mut out: Vec<WAContact> = Vec::new();
    let n = elems.len();
    proof {
        assert(elems@.subrange(0, n as int) =~= elems@);
    }
    let mut i: usize = 0;
    while i < n
        invariant
            n == elems@.len(),
            i <= n,
            spec_contact_list(elems@) == out@ + spec_contact_list(
                elems@.subrange(i as int, n as int),
            ),
        decreases n - i,
    {
        proof {
            let rem = elems@.subrange(i as int, n as int);
            assert(rem[0] == elems@[i as int]);
            assert(rem.drop_first() =~= elems@.subrange(i + 1, n as int));
        }
        match decode_contact(&elems[i]) {
            Some(c) => {
                out.push(c);
                proof {
                    assert(spec_contact_list(elems@) =~= out@ + spec_contact_list(
                        elems@.subrange(i + 1, n as int),
                    ));
                }
            },
            None => {},
        }
        i += 1;
    }
    proof {
        assert(spec_contact_list(elems@) =~= out@);
    }
    out
}

fn message_list(elems: &Vec<JsonValue>) -> (r: Vec<WAMessage>)
    ensures
        r@ == spec_message_list(elems@),
{
    let mut out: Vec<WAMessage> = Vec::new();
    let n = elems.len();
    proof {
        assert(elems@.subrange(0, n as int) =~= elems@);
    }
    let mut i: usize = 0;
    while i < n
        invariant
            n == elems@.len(),
            i <= n,
            spec_message_list(elems@) == out@ + spec_message_list(
                elems@.subrange(i as int, n as int),
            ),
        decreases n - i,
    {
        proof {
            let rem = elems@.subrange(i as int, n as int);
            assert(rem[0] == elems@[i as int]);
            assert(rem.drop_first() =~= elems@.subrange(i + 1, n as int));
        }
        match decode_message(&elems[i]) {
            Some(m) => {
                out.push(m);
                proof {
                    assert(spec_message_list(elems@) =~= out@ + spec_message_list(
                        elems@.subrange(i + 1, n as int),
                    ));
                }
            },
            None => {},
        }
        i += 1;
    }
    proof {
        assert(spec_message_list(elems@) =~= out@);
    }
    out
}

/// Borrows the elements of the array under `key`, when it is one.
pub fn array_field<'a>(j: &'a JsonValue, key: &str) -> (r: Option<&'a Vec<JsonValue>>)
    ensures
        match r {
            Some(a) => spec_array_field(*j, key@) == a@,
            None => spec_array_field(*j, key@) == Seq::<JsonValue>::empty(),
        },
{
    match j.get(key) {
        Some(v) => match v {
            JsonValue::Arr(a) => Some(a),
            _ => None,
        },
        None => None,
    }
}

/// Decodes the bulk history snapshot payload: whatever chats, contacts and
/// messages it carries, each list empty when absent or of another shape.
pub fn decode_history(j: &JsonValue) -> (r: MessagingHistorySet)
    ensures
        r.chats@ == spec_chat_list(spec_array_field(*j, "chats"@)),
        r.contacts@ == spec_contact_list(spec_array_field(*j, "contacts"@)),
        r.messages@ == spec_message_list(spec_array_field(*j, "messages"@)),
        r.is_latest == j.spec_bool_field("isLatest"@, false),
{
    let chats = match array_field(j, "chats") {
        Some(a) => chat_list(a),
        None => {
            let r: Vec<WAChat> = Vec::new();
            proof {
                assert(r@ =~= spec_chat_list(Seq::<JsonValue>::empty()));
            }
            r
        },
    };
    let contacts = match array_field(j, "contacts") {
        Some(a) => contact_list(a),
        None => {
            let r: Vec<WAContact> = Vec::new();
            proof {
                assert(r@ =~= spec_contact_list(Seq::<JsonValue>::empty()));
            }
            r
        },
    };
    let messages = match array_field(j, "messages") {
        Some(a) => message_list(a),
        None => {
            let r: Vec<WAMessage> = Vec::new();
            proof {
                assert(r@ =~= spec_message_list(Seq::<JsonValue>::empty()));
            }
            r
        },
    };
    MessagingHistorySet { chats, contacts, messages, is_latest: j.bool_field("isLatest", false) }
}

} // verus!
