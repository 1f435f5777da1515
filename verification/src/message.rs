//! The canonical message entity, keyed by its gateway-assigned id.

use vstd::prelude::*;

verus! {

/// The kind of content a message carries, as recognized by the normalizer.
#[derive(Clone, Copy, Debug, PartialEq, Eq, Structural)]
pub enum MessageKind {
    Text,
    Image,
    Video,
    Audio,
    Document,
    Sticker,
    Reaction,
    Unknown,
}

impl MessageKind {
    /// The stable lower-case label stored with a message.
    pub open spec fn spec_label(self) -> Seq<char> {
        match self {
            MessageKind::Text => "text"@,
            MessageKind::Image => "image"@,
            MessageKind::Video => "video"@,
            MessageKind::Audio => "audio"@,
            MessageKind::Document => "document"@,
            MessageKind::Sticker => "sticker"@,
            MessageKind::Reaction => "reaction"@,
            MessageKind::Unknown => "unknown"@,
        }
    }

    /// Renders the kind as its stable label.
    pub fn label(self) -> (r: String)
        ensures
            r@ == self.spec_label(),
    {
        match self {
            MessageKind::Text => String::from_str("text"),
            MessageKind::Image => String::from_str("image"),
            MessageKind::Video => String::from_str("video"),
            MessageKind::Audio => String::from_str("audio"),
            MessageKind::Document => String::from_str("document"),
            MessageKind::Sticker => String::from_str("sticker"),
            MessageKind::Reaction => String::from_str("reaction"),
            MessageKind::Unknown => String::from_str("unknown"),
        }
    }
}

/// The mathematical content of a [`Message`]: the same fields with strings
/// as character sequences.
pub ghost struct MessageView {
    pub id: Option<i64>,
    pub message_id: Seq<char>,
    pub jid: Seq<char>,
    pub sender: Seq<char>,
    pub content: Seq<char>,
    pub timestamp: i64,
    pub is_from_me: bool,
    pub message_type: Seq<char>,
    pub raw_data: Option<Seq<char>>,
    pub quoted_message_id: Option<Seq<char>>,
    pub media_url: Option<Seq<char>>,
    pub caption: Option<Seq<char>>,
}

/// One mirrored message.
///
/// `message_id` is the identity key: redelivery of the same id upserts the
/// stored row instead of duplicating it. `jid` names the owning conversation,
/// `timestamp` is in seconds since the epoch, gateway-assigned. `raw_data`
/// retains the original content payload for debugging and compatibility.
#[derive(Debug)]
pub struct Message {
    pub id: Option<i64>,
    pub message_id: String,
    pub jid: String,
    pub sender: String,
    pub content: String,
    pub timestamp: i64,
    pub is_from_me: bool,
    pub message_type: String,
    pub raw_data: Option<String>,
    pub quoted_message_id: Option<String>,
    pub media_url: Option<String>,
    pub caption: Option<String>,
}

impl View for Message {
    type V = MessageView;

    open spec fn view(&self) -> MessageView {
        MessageView {
            id: self.id,
            message_id: self.message_id@,
            jid: self.jid@,
            sender: self.sender@,
            content: self.content@,
            timestamp: self.timestamp,
            is_from_me: self.is_from_me,
            message_type: self.message_type@,
            raw_data: crate::text::view_opt(self.raw_data),
            quoted_message_id: crate::text::view_opt(self.quoted_message_id),
            media_url: crate::text::view_opt(self.media_url),
            caption: crate::text::view_opt(self.caption),
        }
    }
}

/// The views of a sequence of messages.
pub open spec fn message_views(s: Seq<Message>) -> Seq<MessageView> {
    s.map_values(|m: Message| m@)
}

/// A field-preserving copy of an optional string.
pub(crate) fn clone_opt_string(s: &Option<String>) -> (r: Option<String>)
    ensures
        r == *s,
{
    match s {
        Some(v) => Some(v.clone()),
        None => None,
    }
}

impl Clone for Message {
    /// Clones preserve the value exactly.
    fn clone(&self) -> (r: Self)
        ensures
            r == *self,
    {
        Message {
            id: self.id,
            message_id: self.message_id.clone(),
            jid: self.jid.clone(),
            sender: self.sender.clone(),
            content: self.content.clone(),
            timestamp: self.timestamp,
            is_from_me: self.is_from_me,
            message_type: self.message_type.clone(),
            raw_data: clone_opt_string(&self.raw_data),
            quoted_message_id: clone_opt_string(&self.quoted_message_id),
            media_url: clone_opt_string(&self.media_url),
            caption: clone_opt_string(&self.caption),
        }
    }
}

} // verus!
