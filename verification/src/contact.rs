//! The canonical contact entity: one row per conversation participant or
//! group, keyed by its stable `jid`.

use vstd::prelude::*;

verus! {

/// The mathematical content of a [`Contact`]: the same fields with strings
/// as character sequences.
pub ghost struct ContactView {
    pub jid: Seq<char>,
    pub name: Seq<char>,
    pub last_message: Option<Seq<char>>,
    pub last_message_time: Option<i64>,
    pub unread_count: i32,
    pub conversation_timestamp: i64,
    pub is_group: bool,
    pub archived: bool,
    pub pinned: i64,
    pub mute_end_time: i64,
    pub profile_picture_url: Option<Seq<char>>,
}

/// A conversation participant or group, as mirrored locally.
///
/// `jid` is the stable identity key: any upstream contact or chat event that
/// carries the same `jid` replaces the whole row (last-write-wins upsert).
/// A `mute_end_time` of 0 means the contact is not muted.
#[derive(Debug)]
pub struct Contact {
    pub jid: String,
    pub name: String,
    pub last_message: Option<String>,
    pub last_message_time: Option<i64>,
    pub unread_count: i32,
    pub conversation_timestamp: i64,
    pub is_group: bool,
    pub archived: bool,
    pub pinned: i64,
    pub mute_end_time: i64,
    pub profile_picture_url: Option<String>,
}

impl View for Contact {
    type V = ContactView;

    open spec fn view(&self) -> ContactView {
        ContactView {
            jid: self.jid@,
            name: self.name@,
            last_message: crate::text::view_opt(self.last_message),
            last_message_time: self.last_message_time,
            unread_count: self.unread_count,
            conversation_timestamp: self.conversation_timestamp,
            is_group: self.is_group,
            archived: self.archived,
            pinned: self.pinned,
            mute_end_time: self.mute_end_time,
            profile_picture_url: crate::text::view_opt(self.profile_picture_url),
        }
    }
}

impl Contact {
    /// The name shown for this contact.
    pub fn display_name(&self) -> (r: String)
        ensures
            r@ == self.name@,
    {
        self.name.clone()
    }

    /// Whether the contact is muted at the instant `now_millis`
    /// (milliseconds since the epoch). 0 stands for "not muted".
    pub fn is_muted_at(&self, now_millis: i64) -> (r: bool)
        ensures
            r == (self.mute_end_time != 0 && self.mute_end_time > now_millis),
    {
        self.mute_end_time != 0 && self.mute_end_time > now_millis
    }

    /// Whether the contact is muted right now, by the system clock.
    ///
    /// The clock is read outside the verified code, so only clock-independent
    /// facts are promised: an unmuted contact is never reported muted.
    pub fn is_muted(&self) -> (r: bool)
        ensures
            self.mute_end_time == 0 ==> !r,
            r ==> self.mute_end_time != 0,
    {
        let now = now_millis();
        self.is_muted_at(now)
    }
}

impl Clone for Contact {
    /// Clones preserve the value exactly.
    fn clone(&self) -> (r: Self)
        ensures
            r == *self,
    {
        Contact {
            jid: self.jid.clone(),
            name: self.name.clone(),
            last_message: crate::message::clone_opt_string(&self.last_message),
            last_message_time: self.last_message_time,
            unread_count: self.unread_count,
            conversation_timestamp: self.conversation_timestamp,
            is_group: self.is_group,
            archived: self.archived,
            pinned: self.pinned,
            mute_end_time: self.mute_end_time,
            profile_picture_url: crate::message::clone_opt_string(&self.profile_picture_url),
        }
    }
}

/// Relies on std::time::SystemTime::now and Duration::as_millis: the wall
/// clock as milliseconds since the Unix epoch, 0 if the clock reads earlier
/// than the epoch. No two calls are related; only non-negativity is stated.
#[verifier::external_body]
fn now_millis() -> (r: i64)
    ensures
        r >= 0,
{
    match std::time::SystemTime::now().duration_since(std::time::UNIX_EPOCH) {
        Ok(d) => {
            let ms = d.as_millis();
            if ms > i64::MAX as u128 {
                i64::MAX
            } else {
                ms as i64
            }
        },
        Err(_) => 0,
    }
}

} // verus!
