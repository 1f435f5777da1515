//! The persistence store's logic: idempotent, key-addressed upsert and
//! ordered read-back for contacts, messages and session flags.
//!
//! The store is the single writer of mirrored state. Contacts are kept
//! ordered by conversation timestamp, most recent first; messages
//! chronologically; both keyed by their stable identity, so redelivery of an
//! event converges instead of duplicating. A durable engine around this type
//! only has to load rows at start and write each upsert through.

use vstd::prelude::*;

use crate::contact::Contact;
use crate::message::Message;
use crate::text::str_eq;

verus! {

broadcast use Seq::lemma_filter_push;

/// No two contacts share a jid.
pub open spec fn contacts_unique(s: Seq<Contact>) -> bool {
    forall|i: int, j: int| 0 <= i < j < s.len() ==> s[i].jid@ != s[j].jid@
}

/// Contacts are ordered by conversation timestamp, most recent first.
pub open spec fn contacts_sorted(s: Seq<Contact>) -> bool {
    forall|i: int, j: int|
        0 <= i <= j < s.len() ==> s[i].conversation_timestamp >= s[j].conversation_timestamp
}

/// No two messages share a message id.
pub open spec fn messages_unique(s: Seq<Message>) -> bool {
    forall|i: int, j: int| 0 <= i < j < s.len() ==> s[i].message_id@ != s[j].message_id@
}

/// Messages are ordered chronologically.
pub open spec fn messages_sorted(s: Seq<Message>) -> bool {
    forall|i: int, j: int| 0 <= i <= j < s.len() ==> s[i].timestamp <= s[j].timestamp
}

/// No two session entries share a key.
pub open spec fn session_unique(s: Seq<(Seq<char>, Seq<char>)>) -> bool {
    forall|i: int, j: int| 0 <= i < j < s.len() ==> s[i].0 != s[j].0
}

/// The contacts with any row under `jid` removed.
pub open spec fn spec_remove_contact(s: Seq<Contact>, jid: Seq<char>) -> Seq<Contact> {
    s.filter(|c: Contact| c.jid@ != jid)
}

/// The messages with any row under `id` removed.
pub open spec fn spec_remove_message(s: Seq<Message>, id: Seq<char>) -> Seq<Message> {
    s.filter(|m: Message| m.message_id@ != id)
}

/// Where a contact with ordering timestamp `ts` is inserted in a
/// most-recent-first sequence: after every row at least as recent, so rows
/// of equal timestamp keep their order of application.
pub open spec fn spec_contact_pos(s: Seq<Contact>, ts: i64) -> int
    decreases s.len(),
{
    if s.len() == 0 {
        0
    } else if s[0].conversation_timestamp < ts {
        0
    } else {
        1 + spec_contact_pos(s.drop_first(), ts)
    }
}

/// Where a message with timestamp `ts` is inserted in a chronological
/// sequence: after every row at most as old, so rows of equal timestamp keep
/// their order of application.
pub open spec fn spec_message_pos(s: Seq<Message>, ts: i64) -> int
    decreases s.len(),
{
    if s.len() == 0 {
        0
    } else if s[0].timestamp > ts {
        0
    } else {
        1 + spec_message_pos(s.drop_first(), ts)
    }
}

/// Last-write-wins upsert of a contact: the previous row under the same jid
/// goes away wholesale, the new row takes its ordered place.
pub open spec fn spec_upsert_contact(s: Seq<Contact>, c: Contact) -> Seq<Contact> {
    let t = spec_remove_contact(s, c.jid@);
    t.insert(spec_contact_pos(t, c.conversation_timestamp), c)
}

/// Last-write-wins upsert of a message, keyed by message id.
pub open spec fn spec_upsert_message(s: Seq<Message>, m: Message) -> Seq<Message> {
    let t = spec_remove_message(s, m.message_id@);
    t.insert(spec_message_pos(t, m.timestamp), m)
}

/// The result of applying a sequence of contact upserts in order.
pub open spec fn spec_apply_contacts(s: Seq<Contact>, cs: Seq<Contact>) -> Seq<Contact>
    decreases cs.len(),
{
    if cs.len() == 0 {
        s
    } else {
        spec_apply_contacts(spec_upsert_contact(s, cs[0]), cs.drop_first())
    }
}

/// The result of applying a sequence of message upserts in order.
pub open spec fn spec_apply_messages(s: Seq<Message>, ms: Seq<Message>) -> Seq<Message>
    decreases ms.len(),
{
    if ms.len() == 0 {
        s
    } else {
        spec_apply_messages(spec_upsert_message(s, ms[0]), ms.drop_first())
    }
}

/// The character-sequence view of session entries.
pub open spec fn session_view(s: Seq<(String, String)>) -> Seq<(Seq<char>, Seq<char>)> {
    s.map_values(|e: (String, String)| (e.0@, e.1@))
}

/// The session entries with the one under `key` removed.
pub open spec fn spec_session_remove(s: Seq<(Seq<char>, Seq<char>)>, key: Seq<char>) -> Seq<
    (Seq<char>, Seq<char>),
> {
    s.filter(|e: (Seq<char>, Seq<char>)| e.0 != key)
}

/// Sets `key` to `value`: any previous entry under `key` goes away, the new
/// pair is appended.
pub open spec fn spec_session_set(
    s: Seq<(Seq<char>, Seq<char>)>,
    key: Seq<char>,
    value: Seq<char>,
) -> Seq<(Seq<char>, Seq<char>)> {
    spec_session_remove(s, key).push((key, value))
}

/// The value under `key`, when present.
pub open spec fn spec_session_get(s: Seq<(Seq<char>, Seq<char>)>, key: Seq<char>) -> Option<
    Seq<char>,
>
    decreases s.len(),
{
    if s.len() == 0 {
        None
    } else if s[0].0 == key {
        Some(s[0].1)
    } else {
        spec_session_get(s.drop_first(), key)
    }
}

/// The session entries a sequence of raw key/value rows loads to, applied in
/// order.
pub open spec fn spec_load_session(rows: Seq<(String, String)>) -> Seq<(Seq<char>, Seq<char>)>
    decreases rows.len(),
{
    if rows.len() == 0 {
        Seq::empty()
    } else {
        spec_session_set(spec_load_session(rows.drop_last()), rows.last().0@, rows.last().1@)
    }
}

proof fn lemma_contact_pos_bounds(s: Seq<Contact>, ts: i64)
    ensures
        0 <= spec_contact_pos(s, ts) <= s.len(),
    decreases s.len(),
{
    if s.len() > 0 && !(s[0].conversation_timestamp < ts) {
        lemma_contact_pos_bounds(s.drop_first(), ts);
    }
}

proof fn lemma_message_pos_bounds(s: Seq<Message>, ts: i64)
    ensures
        0 <= spec_message_pos(s, ts) <= s.len(),
    decreases s.len(),
{
    if s.len() > 0 && !(s[0].timestamp > ts) {
        lemma_message_pos_bounds(s.drop_first(), ts);
    }
}

proof fn lemma_contact_pos_at(s: Seq<Contact>, ts: i64, p: int)
    requires
        0 <= p <= s.len(),
        forall|k: int| 0 <= k < p ==> s[k].conversation_timestamp >= ts,
        p == s.len() || s[p].conversation_timestamp < ts,
    ensures
        spec_contact_pos(s, ts) == p,
    decreases p,
{
    if p == 0 {
    } else {
        lemma_contact_pos_at(s.drop_first(), ts, p - 1);
    }
}

proof fn lemma_message_pos_at(s: Seq<Message>, ts: i64, p: int)
    requires
        0 <= p <= s.len(),
        forall|k: int| 0 <= k < p ==> s[k].timestamp <= ts,
        p == s.len() || s[p].timestamp > ts,
    ensures
        spec_message_pos(s, ts) == p,
    decreases p,
{
    if p == 0 {
    } else {
        lemma_message_pos_at(s.drop_first(), ts, p - 1);
    }
}

/// The store of mirrored state: contacts and messages with their ordering
/// and identity invariants, and the flat session key/value area.
pub struct Store {
    contacts: Vec<Contact>,
    messages: Vec<Message>,
    session: Vec<(String, String)>,
}

impl Store {
    /// The stored contacts, most recent conversation first.
    pub closed spec fn contacts(&self) -> Seq<Contact> {
        self.contacts@
    }

    /// The stored messages, chronological.
    pub closed spec fn messages(&self) -> Seq<Message> {
        self.messages@
    }

    /// The session key/value entries.
    pub closed spec fn session(&self) -> Seq<(Seq<char>, Seq<char>)> {
        session_view(self.session@)
    }

    /// The store's invariant: unique identities, both tables ordered.
    pub closed spec fn wf(&self) -> bool {
        &&& contacts_unique(self.contacts@)
        &&& contacts_sorted(self.contacts@)
        &&& messages_unique(self.messages@)
        &&& messages_sorted(self.messages@)
        &&& session_unique(self.session())
    }

    /// An empty store.
    pub fn new() -> (r: Store)
        ensures
            r.wf(),
            r.contacts() == Seq::<Contact>::empty(),
            r.messages() == Seq::<Message>::empty(),
            r.session() == Seq::<(Seq<char>, Seq<char>)>::empty(),
    {
        let r = Store { contacts: Vec::new(), messages: Vec::new(), session: Vec::new() };
        proof {
            assert(r.session() =~= Seq::<(Seq<char>, Seq<char>)>::empty());
        }
        r
    }

    /// Upserts a contact: replaces any row with the same jid wholesale and
    /// keeps the most-recent-first order, rows of equal timestamp staying in
    /// order of application.
    pub fn save_contact(&mut self, c: Contact)
        requires
            old(self).wf(),
        ensures
            final(self).wf(),
            final(self).contacts() == spec_upsert_contact(old(self).contacts(), c),
            final(self).messages() == old(self).messages(),
            final(self).session() == old(self).session(),
    {
        let n = self.contacts.len();
        let mut kept: Vec<Contact> = Vec::new();
        proof {
            assert(self.contacts@.subrange(0, 0) =~= Seq::<Contact>::empty());
            assert(Seq::<Contact>::empty().filter(|x: Contact| x.jid@ != c.jid@)
                =~= Seq::<Contact>::empty()) by {
                reveal(Seq::filter);
            }
        }
        let mut i: usize = 0;
        while i < n
            invariant
                n == self.contacts@.len(),
                i <= n,
                kept@ == spec_remove_contact(self.contacts@.subrange(0, i as int), c.jid@),
            decreases n - i,
        {
            let e = &self.contacts[i];
            proof {
                assert(self.contacts@.subrange(0, i + 1) =~= self.contacts@.subrange(
                    0,
                    i as int,
                ).push(*e));
            }
            if !str_eq(e.jid.as_str(), c.jid.as_str()) {
                kept.push(e.clone());
            }
            i += 1;
        }
        proof {
            assert(self.contacts@.subrange(0, n as int) =~= self.contacts@);
            lemma_remove_contact_props(self.contacts@, c.jid@);
        }
        let m = kept.len();
        let mut pos: usize = 0;
        while pos < m && kept[pos].conversation_timestamp >= c.conversation_timestamp
            invariant
                m == kept@.len(),
                pos <= m,
                forall|k: int|
                    0 <= k < pos ==> kept@[k].conversation_timestamp >= c.conversation_timestamp,
            decreases m - pos,
        {
            pos += 1;
        }
        proof {
            lemma_contact_pos_at(kept@, c.conversation_timestamp, pos as int);
        }
        kept.insert(pos, c);
        self.contacts = kept;
    }

    /// Upserts a message: redelivery of the same id replaces the stored row
    /// instead of duplicating it; chronological order is kept, rows of equal
    /// timestamp staying in order of application.
    pub fn save_message(&mut self, msg: Message)
        requires
            old(self).wf(),
        ensures
            final(self).wf(),
            final(self).messages() == spec_upsert_message(old(self).messages(), msg),
            final(self).contacts() == old(self).contacts(),
            final(self).session() == old(self).session(),
    {
        let n = self.messages.len();
        let mut kept: Vec<Message> = Vec::new();
        proof {
            assert(self.messages@.subrange(0, 0) =~= Seq::<Message>::empty());
            assert(Seq::<Message>::empty().filter(|x: Message| x.message_id@ != msg.message_id@)
                =~= Seq::<Message>::empty()) by {
                reveal(Seq::filter);
            }
        }
        let mut i: usize = 0;
        while i < n
            invariant
                n == self.messages@.len(),
                i <= n,
                kept@ == spec_remove_message(self.messages@.subrange(0, i as int), msg.message_id@),
            decreases n - i,
        {
            let e = &self.messages[i];
            proof {
                assert(self.messages@.subrange(0, i + 1) =~= self.messages@.subrange(
                    0,
                    i as int,
                ).push(*e));
            }
            if !str_eq(e.message_id.as_str(), msg.message_id.as_str()) {
                kept.push(e.clone());
            }
            i += 1;
        }
        proof {
            assert(self.messages@.subrange(0, n as int) =~= self.messages@);
            lemma_remove_message_props(self.messages@, msg.message_id@);
        }
        let m = kept.len();
        let mut pos: usize = 0;
        while pos < m && kept[pos].timestamp <= msg.timestamp
            invariant
                m == kept@.len(),
                pos <= m,
                forall|k: int| 0 <= k < pos ==> kept@[k].timestamp <= msg.timestamp,
            decreases m - pos,
        {
            pos += 1;
        }
        proof {
            lemma_message_pos_at(kept@, msg.timestamp, pos as int);
        }
        kept.insert(pos, msg);
        self.messages = kept;
    }

    /// The full contact list, most recent conversation first. Freshly
    /// computed per call.
    pub fn get_contacts(&self) -> (r: Vec<Contact>)
        ensures
            r@ == self.contacts(),
    {
        let n = self.contacts.len();
        let mut out: Vec<Contact> = Vec::new();
        let mut i: usize = 0;
        while i < n
            invariant
                n == self.contacts@.len(),
                i <= n,
                out@ == self.contacts@.subrange(0, i as int),
            decreases n - i,
        {
            out.push(self.contacts[i].clone());
            proof {
                assert(out@ =~= self.contacts@.subrange(0, i + 1));
            }
            i += 1;
        }
        proof {
            assert(self.contacts@.subrange(0, n as int) =~= self.contacts@);
        }
        out
    }

    /// The messages of the conversation `jid`, chronological. Freshly
    /// computed per call.
    pub fn get_messages(&self, jid: &str) -> (r: Vec<Message>)
        ensures
            r@ == self.messages().filter(|m: Message| m.jid@ == jid@),
    {
        let n = self.messages.len();
        let mut out: Vec<Message> = Vec::new();
        proof {
            assert(self.messages@.subrange(0, 0) =~= Seq::<Message>::empty());
            assert(Seq::<Message>::empty().filter(|m: Message| m.jid@ == jid@)
                =~= Seq::<Message>::empty()) by {
                reveal(Seq::filter);
            }
        }
        let mut i: usize = 0;
        while i < n
            invariant
                n == self.messages@.len(),
                i <= n,
                out@ == self.messages@.subrange(0, i as int).filter(|m: Message| m.jid@ == jid@),
            decreases n - i,
        {
            let e = &self.messages[i];
            proof {
                assert(self.messages@.subrange(0, i + 1) =~= self.messages@.subrange(
                    0,
                    i as int,
                ).push(*e));
            }
            if str_eq(e.jid.as_str(), jid) {
                out.push(e.clone());
            }
            i += 1;
        }
        proof {
            assert(self.messages@.subrange(0, n as int) =~= self.messages@);
        }
        out
    }
}

impl Store {
    /// Sets the session entry `key` to `value`, replacing any previous
    /// value.
    pub fn set_session_data(&mut self, key: &str, value: &str)
        requires
            old(self).wf(),
        ensures
            final(self).wf(),
            final(self).session() == spec_session_set(old(self).session(), key@, value@),
            final(self).contacts() == old(self).contacts(),
            final(self).messages() == old(self).messages(),
    {
        let n = self.session.len();
        let mut kept: Vec<(String, String)> = Vec::new();
        proof {
            assert(self.session@.subrange(0, 0) =~= Seq::<(String, String)>::empty());
            assert(session_view(Seq::<(String, String)>::empty())
                =~= Seq::<(Seq<char>, Seq<char>)>::empty());
            assert(spec_session_remove(Seq::<(Seq<char>, Seq<char>)>::empty(), key@)
                =~= Seq::<(Seq<char>, Seq<char>)>::empty()) by {
                reveal(Seq::filter);
            }
        }
        let mut i: usize = 0;
        while i < n
            invariant
                n == self.session@.len(),
                i <= n,
                session_view(kept@) == spec_session_remove(
                    session_view(self.session@.subrange(0, i as int)),
                    key@,
                ),
            decreases n - i,
        {
            let e = &self.session[i];
            proof {
                assert(self.session@.subrange(0, i + 1) =~= self.session@.subrange(
                    0,
                    i as int,
                ).push(*e));
                assert(session_view(self.session@.subrange(0, i + 1)) =~= session_view(
                    self.session@.subrange(0, i as int),
                ).push((e.0@, e.1@)));
            }
            if !str_eq(e.0.as_str(), key) {
                let copy = (e.0.clone(), e.1.clone());
                kept.push(copy);
                proof {
                    assert(session_view(kept@) =~= session_view(kept@.drop_last()).push(
                        (e.0@, e.1@),
                    ));
                }
            }
            i += 1;
        }
        proof {
            assert(self.session@.subrange(0, n as int) =~= self.session@);
            lemma_session_remove_props(self.session(), key@);
        }
        let entry = (String::from_str(key), String::from_str(value));
        kept.push(entry);
        proof {
            assert(session_view(kept@) =~= session_view(kept@.drop_last()).push((key@, value@)));
        }
        self.session = kept;
        proof {
            let oldv = old(self).session();
            let newv = self.session();
            let removed = spec_session_remove(oldv, key@);
            assert(newv == removed.push((key@, value@)));
            assert forall|i: int, j: int| 0 <= i < j < newv.len() implies (#[trigger] newv[i]).0
                != (#[trigger] newv[j]).0 by {
                if j < removed.len() {
                    assert(newv[i] == removed[i] && newv[j] == removed[j]);
                } else {
                    assert(newv[j] == (key@, value@));
                    assert(newv[i] == removed[i]);
                    assert(removed[i].0 != key@);
                }
            }
        }
    }

    /// The value of the session entry `key`, when set.
    pub fn get_session_data(&self, key: &str) -> (r: Option<String>)
        ensures
            crate::text::view_opt(r) == spec_session_get(self.session(), key@),
    {
        let n = self.session.len();
        proof {
            assert(session_view(self.session@).subrange(0, n as int) =~= session_view(
                self.session@,
            ));
        }
        let mut i: usize = 0;
        while i < n
            invariant
                n == self.session@.len(),
                i <= n,
                n == self.session().len(),
                spec_session_get(self.session(), key@) == spec_session_get(
                    self.session().subrange(i as int, n as int),
                    key@,
                ),
            decreases n - i,
        {
            proof {
                assert(self.session().subrange(i as int, n as int)[0] == self.session()[i as int]);
                assert(self.session().subrange(i as int, n as int).drop_first()
                    =~= self.session().subrange(i + 1, n as int));
                assert(self.session()[i as int] == (self.session@[i as int].0@, self.session@[
                    i as int].1@));
            }
            let e = &self.session[i];
            if str_eq(e.0.as_str(), key) {
                return Some(e.1.clone());
            }
            i += 1;
        }
        None
    }

    /// Whether the session records a completed pairing: the `authenticated`
    /// entry reads exactly `"true"`.
    pub fn is_authenticated(&self) -> (r: bool)
        ensures
            r == (spec_session_get(self.session(), "authenticated"@) == Some("true"@)),
    {
        match self.get_session_data("authenticated") {
            Some(v) => str_eq(v.as_str(), "true"),
            None => false,
        }
    }

    /// Records whether pairing completed, as the `authenticated` entry.
    pub fn set_authenticated(&mut self, authenticated: bool)
        requires
            old(self).wf(),
        ensures
            final(self).wf(),
            final(self).session() == spec_session_set(
                old(self).session(),
                "authenticated"@,
                if authenticated {
                    "true"@
                } else {
                    "false"@
                },
            ),
            final(self).contacts() == old(self).contacts(),
            final(self).messages() == old(self).messages(),
    {
        if authenticated {
            self.set_session_data("authenticated", "true");
        } else {
            self.set_session_data("authenticated", "false");
        }
    }
}

proof fn lemma_session_witness(s: Seq<(Seq<char>, Seq<char>)>, key: Seq<char>, i: int)
    requires
        0 <= i < spec_session_remove(s, key).len(),
    ensures
        exists|a: int| 0 <= a < s.len() && s[a] == spec_session_remove(s, key)[i],
    decreases s.len(),
{
    reveal(Seq::filter);
    if s.len() == 0 {
    } else {
        let t = s.drop_last();
        if s.last().0 != key && i == spec_session_remove(s, key).len() - 1 {
            assert(s[s.len() - 1] == spec_session_remove(s, key)[i]);
        } else {
            assert(spec_session_remove(s, key)[i] == spec_session_remove(t, key)[i]);
            lemma_session_witness(t, key, i);
            let a = choose|a: int| 0 <= a < t.len() && t[a] == spec_session_remove(t, key)[i];
            assert(s[a] == spec_session_remove(s, key)[i]);
        }
    }
}

proof fn lemma_session_remove_props(s: Seq<(Seq<char>, Seq<char>)>, key: Seq<char>)
    ensures
        session_unique(s) ==> session_unique(spec_session_remove(s, key)),
        forall|k: int|
            0 <= k < spec_session_remove(s, key).len() ==> (#[trigger] spec_session_remove(
                s,
                key,
            )[k]).0 != key,
    decreases s.len(),
{
    reveal(Seq::filter);
    if s.len() == 0 {
    } else {
        let t = s.drop_last();
        lemma_session_remove_props(t, key);
        let tf = spec_session_remove(t, key);
        let f = spec_session_remove(s, key);
        let keep_last = s.last().0 != key;
        if keep_last {
            assert(f == tf.push(s.last()));
        } else {
            assert(f == tf);
        }
        if session_unique(s) {
            assert(session_unique(t));
            if keep_last {
                assert forall|k: int| 0 <= k < tf.len() implies (#[trigger] tf[k]).0
                    != s.last().0 by {
                    lemma_session_witness(t, key, k);
                    let a = choose|a: int| 0 <= a < t.len() && t[a] == spec_session_remove(
                        t,
                        key,
                    )[k];
                    assert(s[a] == t[a]);
                    assert(s[a].0 != s[s.len() - 1].0);
                }
            }
            assert forall|i: int, j: int| 0 <= i < j < f.len() implies f[i].0 != f[j].0 by {
                if keep_last {
                    if j < tf.len() {
                        assert(f[i] == tf[i] && f[j] == tf[j]);
                    } else {
                        assert(f[j] == s.last());
                        assert(f[i] == tf[i]);
                    }
                }
            }
        }
    }
}

/// One stored contact row as an earlier schema may have written it: later
/// columns are optional and default when absent.
#[derive(Debug)]
pub struct ContactRow {
    pub jid: String,
    pub name: String,
    pub last_message: Option<String>,
    pub last_message_time: Option<i64>,
    pub unread_count: Option<i32>,
    pub conversation_timestamp: Option<i64>,
    pub is_group: Option<bool>,
    pub archived: Option<bool>,
    pub pinned: Option<i64>,
    pub mute_end_time: Option<i64>,
    pub profile_picture_url: Option<String>,
}

/// One stored message row as an earlier schema may have written it: rows
/// from before the identity and typing columns existed lack them.
#[derive(Debug)]
pub struct MessageRow {
    pub id: i64,
    pub message_id: Option<String>,
    pub jid: String,
    pub sender: String,
    pub content: String,
    pub timestamp: i64,
    pub is_from_me: bool,
    pub message_type: Option<String>,
    pub raw_data: Option<String>,
    pub quoted_message_id: Option<String>,
    pub media_url: Option<String>,
    pub caption: Option<String>,
}

/// The contact a stored row reads back as: absent columns take their safe
/// defaults, the rest carry over unchanged.
pub open spec fn spec_contact_of_row(r: ContactRow) -> Contact {
    Contact {
        jid: r.jid,
        name: r.name,
        last_message: r.last_message,
        last_message_time: r.last_message_time,
        unread_count: match r.unread_count {
            Some(n) => n,
            None => 0,
        },
        conversation_timestamp: match r.conversation_timestamp {
            Some(n) => n,
            None => 0,
        },
        is_group: match r.is_group {
            Some(b) => b,
            None => false,
        },
        archived: match r.archived {
            Some(b) => b,
            None => false,
        },
        pinned: match r.pinned {
            Some(n) => n,
            None => 0,
        },
        mute_end_time: match r.mute_end_time {
            Some(n) => n,
            None => 0,
        },
        profile_picture_url: r.profile_picture_url,
    }
}

/// Reads one stored contact row back, defaulting absent columns.
pub fn contact_of_row(r: ContactRow) -> (c: Contact)
    ensures
        c == spec_contact_of_row(r),
{
    Contact {
        jid: r.jid,
        name: r.name,
        last_message: r.last_message,
        last_message_time: r.last_message_time,
        unread_count: match r.unread_count {
            Some(n) => n,
            None => 0,
        },
        conversation_timestamp: match r.conversation_timestamp {
            Some(n) => n,
            None => 0,
        },
        is_group: match r.is_group {
            Some(b) => b,
            None => false,
        },
        archived: match r.archived {
            Some(b) => b,
            None => false,
        },
        pinned: match r.pinned {
            Some(n) => n,
            None => 0,
        },
        mute_end_time: match r.mute_end_time {
            Some(n) => n,
            None => 0,
        },
        profile_picture_url: r.profile_picture_url,
    }
}

/// The message a stored row reads back as: a row without the identity
/// column gets its rowid in decimal as a synthetic id, a row without the
/// typing column reads as plain text, other absent columns stay empty.
pub open spec fn spec_message_of_row(r: MessageRow) -> crate::message::MessageView {
    crate::message::MessageView {
        id: Some(r.id),
        message_id: match r.message_id {
            Some(s) => s@,
            None => crate::text::spec_i64_digits(r.id),
        },
        jid: r.jid@,
        sender: r.sender@,
        content: r.content@,
        timestamp: r.timestamp,
        is_from_me: r.is_from_me,
        message_type: match r.message_type {
            Some(s) => s@,
            None => "text"@,
        },
        raw_data: crate::text::view_opt(r.raw_data),
        quoted_message_id: crate::text::view_opt(r.quoted_message_id),
        media_url: crate::text::view_opt(r.media_url),
        caption: crate::text::view_opt(r.caption),
    }
}

/// Reads one stored message row back, defaulting absent columns.
pub fn message_of_row(r: MessageRow) -> (m: Message)
    ensures
        m@ == spec_message_of_row(r),
{
    let message_id = match r.message_id {
        Some(s) => s,
        None => crate::text::i64_to_string(r.id),
    };
    let message_type = match r.message_type {
        Some(s) => s,
        None => String::from_str("text"),
    };
    Message {
        id: Some(r.id),
        message_id,
        jid: r.jid,
        sender: r.sender,
        content: r.content,
        timestamp: r.timestamp,
        is_from_me: r.is_from_me,
        message_type,
        raw_data: r.raw_data,
        quoted_message_id: r.quoted_message_id,
        media_url: r.media_url,
        caption: r.caption,
    }
}

/// Reads stored contact rows back, in order.
pub fn contacts_of_rows(rows: Vec<ContactRow>) -> (cs: Vec<Contact>)
    ensures
        cs@ == rows@.map_values(|row: ContactRow| spec_contact_of_row(row)),
{
    let ghost mapped = rows@.map_values(|row: ContactRow| spec_contact_of_row(row));
    let mut rows = rows;
    let mut cs: Vec<Contact> = Vec::new();
    while rows.len() > 0
        invariant
            mapped == cs@ + rows@.map_values(|row: ContactRow| spec_contact_of_row(row)),
        decreases rows@.len(),
    {
        proof {
            let rm = rows@.map_values(|row: ContactRow| spec_contact_of_row(row));
            assert(rm[0] == spec_contact_of_row(rows@[0]));
            assert(rm.drop_first() =~= rows@.drop_first().map_values(
                |row: ContactRow| spec_contact_of_row(row),
            ));
        }
        let row = rows.remove(0);
        cs.push(contact_of_row(row));
        proof {
            assert(mapped =~= cs@ + rows@.map_values(|row: ContactRow| spec_contact_of_row(row)));
        }
    }
    proof {
        assert(mapped =~= cs@);
    }
    cs
}

/// Reads stored message rows back, in order, defaulting the columns an
/// earlier schema lacked.
pub fn messages_of_rows(rows: Vec<MessageRow>) -> (ms: Vec<Message>)
    ensures
        crate::message::message_views(ms@) == rows@.map_values(
            |row: MessageRow| spec_message_of_row(row),
        ),
{
    let ghost mapped = rows@.map_values(|row: MessageRow| spec_message_of_row(row));
    let mut rows = rows;
    let mut ms: Vec<Message> = Vec::new();
    while rows.len() > 0
        invariant
            mapped == crate::message::message_views(ms@) + rows@.map_values(
                |row: MessageRow| spec_message_of_row(row),
            ),
        decreases rows@.len(),
    {
        proof {
            let rm = rows@.map_values(|row: MessageRow| spec_message_of_row(row));
            assert(rm[0] == spec_message_of_row(rows@[0]));
            assert(rm.drop_first() =~= rows@.drop_first().map_values(
                |row: MessageRow| spec_message_of_row(row),
            ));
        }
        let row = rows.remove(0);
        ms.push(message_of_row(row));
        proof {
            assert(mapped =~= crate::message::message_views(ms@) + rows@.map_values(
                |row: MessageRow| spec_message_of_row(row),
            ));
        }
    }
    proof {
        assert(mapped =~= crate::message::message_views(ms@));
    }
    ms
}

impl Store {
    /// Builds the store from previously loaded entities and session rows,
    /// applied in order through the same idempotent upserts as live events.
    /// Together with `contacts_of_rows` and `messages_of_rows` this opens
    /// the store against rows an earlier, narrower schema wrote: they load
    /// with safe defaults instead of failing.
    pub fn load(
        contacts: Vec<Contact>,
        messages: Vec<Message>,
        session_rows: Vec<(String, String)>,
    ) -> (r: Store)
        ensures
            r.wf(),
            r.contacts() == spec_apply_contacts(Seq::empty(), contacts@),
            r.messages() == spec_apply_messages(Seq::empty(), messages@),
            r.session() == spec_load_session(session_rows@),
    {
        let ghost cs = contacts@;
        let ghost ms = messages@;
        let mut store = Store::new();
        let mut contacts = contacts;
        while contacts.len() > 0
            invariant
                store.wf(),
                spec_apply_contacts(Seq::empty(), cs) == spec_apply_contacts(
                    store.contacts(),
                    contacts@,
                ),
                store.messages() == Seq::<Message>::empty(),
                store.session() == Seq::<(Seq<char>, Seq<char>)>::empty(),
            decreases contacts@.len(),
        {
            let c = contacts.remove(0);
            store.save_contact(c);
        }
        let mut messages = messages;
        while messages.len() > 0
            invariant
                store.wf(),
                store.contacts() == spec_apply_contacts(Seq::empty(), cs),
                spec_apply_messages(Seq::empty(), ms) == spec_apply_messages(
                    store.messages(),
                    messages@,
                ),
                store.session() == Seq::<(Seq<char>, Seq<char>)>::empty(),
            decreases messages@.len(),
        {
            let m = messages.remove(0);
            store.save_message(m);
        }
        let sn = session_rows.len();
        let mut i: usize = 0;
        while i < sn
            invariant
                sn == session_rows@.len(),
                i <= sn,
                store.wf(),
                store.contacts() == spec_apply_contacts(Seq::empty(), cs),
                store.messages() == spec_apply_messages(Seq::empty(), ms),
                store.session() == spec_load_session(session_rows@.subrange(0, i as int)),
            decreases sn - i,
        {
            proof {
                assert(session_rows@.subrange(0, i + 1).drop_last() =~= session_rows@.subrange(
                    0,
                    i as int,
                ));
                assert(session_rows@.subrange(0, i + 1).last() == session_rows@[i as int]);
            }
            let e = &session_rows[i];
            store.set_session_data(e.0.as_str(), e.1.as_str());
            i += 1;
        }
        proof {
            assert(session_rows@.subrange(0, sn as int) =~= session_rows@);
        }
        store
    }
}

proof fn lemma_remove_absent_contact(s: Seq<Contact>, jid: Seq<char>)
    requires
        forall|k: int| 0 <= k < s.len() ==> (#[trigger] s[k]).jid@ != jid,
    ensures
        spec_remove_contact(s, jid) == s,
    decreases s.len(),
{
    reveal(Seq::filter);
    if s.len() == 0 {
    } else {
        let t = s.drop_last();
        lemma_remove_absent_contact(t, jid);
        assert(spec_remove_contact(s, jid) =~= s);
    }
}

proof fn lemma_remove_absent_message(s: Seq<Message>, id: Seq<char>)
    requires
        forall|k: int| 0 <= k < s.len() ==> (#[trigger] s[k]).message_id@ != id,
    ensures
        spec_remove_message(s, id) == s,
    decreases s.len(),
{
    reveal(Seq::filter);
    if s.len() == 0 {
    } else {
        let t = s.drop_last();
        lemma_remove_absent_message(t, id);
        assert(spec_remove_message(s, id) =~= s);
    }
}

proof fn lemma_remove_message_of_insert(s: Seq<Message>, m: Message)
    requires
        forall|k: int| 0 <= k < s.len() ==> (#[trigger] s[k]).message_id@ != m.message_id@,
    ensures
        0 <= spec_message_pos(s, m.timestamp) <= s.len(),
        spec_remove_message(
            s.insert(spec_message_pos(s, m.timestamp), m),
            m.message_id@,
        ) == s,
{
    let id = m.message_id@;
    lemma_message_pos_bounds(s, m.timestamp);
    let p = spec_message_pos(s, m.timestamp);
    let u = s.insert(p, m);
    let front = s.take(p);
    let back = s.skip(p);
    assert(u =~= front + (seq![m] + back));
    assert(spec_remove_message(seq![m], id) =~= Seq::<Message>::empty()) by {
        reveal(Seq::filter);
    }
    lemma_remove_absent_message(front, id);
    lemma_remove_absent_message(back, id);
    assert(spec_remove_message(u, id) == spec_remove_message(front, id) + spec_remove_message(
        seq![m] + back,
        id,
    ));
    assert(spec_remove_message(seq![m] + back, id) == spec_remove_message(seq![m], id)
        + spec_remove_message(back, id));
    assert(spec_remove_message(u, id) =~= s) by {
        assert(front + back =~= s);
    }
}

proof fn lemma_remove_contact_of_insert(s: Seq<Contact>, c: Contact)
    requires
        forall|k: int| 0 <= k < s.len() ==> (#[trigger] s[k]).jid@ != c.jid@,
    ensures
        0 <= spec_contact_pos(s, c.conversation_timestamp) <= s.len(),
        spec_remove_contact(
            s.insert(spec_contact_pos(s, c.conversation_timestamp), c),
            c.jid@,
        ) == s,
{
    let jid = c.jid@;
    lemma_contact_pos_bounds(s, c.conversation_timestamp);
    let p = spec_contact_pos(s, c.conversation_timestamp);
    let u = s.insert(p, c);
    let front = s.take(p);
    let back = s.skip(p);
    assert(u =~= front + (seq![c] + back));
    assert(spec_remove_contact(seq![c], jid) =~= Seq::<Contact>::empty()) by {
        reveal(Seq::filter);
    }
    lemma_remove_absent_contact(front, jid);
    lemma_remove_absent_contact(back, jid);
    assert(spec_remove_contact(u, jid) == spec_remove_contact(front, jid) + spec_remove_contact(
        seq![c] + back,
        jid,
    ));
    assert(spec_remove_contact(seq![c] + back, jid) == spec_remove_contact(seq![c], jid)
        + spec_remove_contact(back, jid));
    assert(spec_remove_contact(u, jid) =~= s) by {
        assert(front + back =~= s);
    }
}

/// Law: upserting the same message twice — with identical field values —
/// leaves exactly the store that one application leaves.
pub proof fn lemma_upsert_message_idempotent(s: Seq<Message>, m: Message)
    ensures
        spec_upsert_message(spec_upsert_message(s, m), m) == spec_upsert_message(s, m),
{
    lemma_remove_message_props(s, m.message_id@);
    let t = spec_remove_message(s, m.message_id@);
    lemma_remove_message_of_insert(t, m);
}

/// Law: upserting the same contact twice — with identical field values —
/// leaves exactly the store that one application leaves.
pub proof fn lemma_upsert_contact_idempotent(s: Seq<Contact>, c: Contact)
    ensures
        spec_upsert_contact(spec_upsert_contact(s, c), c) == spec_upsert_contact(s, c),
{
    lemma_remove_contact_props(s, c.jid@);
    let t = spec_remove_contact(s, c.jid@);
    lemma_remove_contact_of_insert(t, c);
}

/// Law: after upserting a message — under a new or an already stored id,
/// with identical or differing field values — exactly one stored row carries
/// its id, and that row holds the values applied last.
pub proof fn lemma_upsert_message_one_row(s: Seq<Message>, m: Message)
    ensures
        ({
            let u = spec_upsert_message(s, m);
            exists|i: int|
                0 <= i < u.len() && #[trigger] u[i] == m && forall|k: int|
                    0 <= k < u.len() && k != i ==> (#[trigger] u[k]).message_id@ != m.message_id@
        }),
{
    lemma_remove_message_props(s, m.message_id@);
    let t = spec_remove_message(s, m.message_id@);
    lemma_message_pos_bounds(t, m.timestamp);
    let p = spec_message_pos(t, m.timestamp);
    let u = spec_upsert_message(s, m);
    assert(u[p] == m);
    assert(forall|k: int|
        0 <= k < u.len() && k != p ==> (#[trigger] u[k]).message_id@ != m.message_id@) by {
        assert(forall|k: int| 0 <= k < p ==> u[k] == t[k]);
        assert(forall|k: int| p < k < u.len() ==> u[k] == t[k - 1]);
    }
}

/// Law: a message whose id is not yet stored and whose timestamp is at
/// least that of every stored row is appended at the end: within one epoch,
/// ordered delivery reads back in the order of application.
pub proof fn lemma_upsert_message_fresh_latest(s: Seq<Message>, m: Message)
    requires
        forall|k: int| 0 <= k < s.len() ==> (#[trigger] s[k]).message_id@ != m.message_id@,
        forall|k: int| 0 <= k < s.len() ==> (#[trigger] s[k]).timestamp <= m.timestamp,
    ensures
        spec_upsert_message(s, m) == s.push(m),
{
    lemma_remove_absent_message(s, m.message_id@);
    lemma_message_pos_at(s, m.timestamp, s.len() as int);
    assert(s.insert(s.len() as int, m) =~= s.push(m));
}

/// Law: a contact whose jid is not yet stored and whose activity is more
/// recent than every stored row goes to the front: the contact list reads
/// back most recent activity first.
pub proof fn lemma_upsert_contact_fresh_recent(s: Seq<Contact>, c: Contact)
    requires
        forall|k: int| 0 <= k < s.len() ==> (#[trigger] s[k]).jid@ != c.jid@,
        forall|k: int|
            0 <= k < s.len() ==> (#[trigger] s[k]).conversation_timestamp
                < c.conversation_timestamp,
    ensures
        spec_upsert_contact(s, c) == seq![c] + s,
{
    lemma_remove_absent_contact(s, c.jid@);
    lemma_contact_pos_at(s, c.conversation_timestamp, 0);
    assert(s.insert(0, c) =~= seq![c] + s);
}

/// Law: a whole epoch of messages — ids fresh and pairwise distinct,
/// timestamps nondecreasing in the order produced, nothing older than what
/// is stored — applied in order reads back appended in exactly that order.
pub proof fn lemma_epoch_order(s: Seq<Message>, ms: Seq<Message>)
    requires
        forall|i: int, k: int|
            0 <= i < ms.len() && 0 <= k < s.len() ==> (#[trigger] s[k]).message_id@ != (
            #[trigger] ms[i]).message_id@,
        forall|i: int, j: int|
            0 <= i < j < ms.len() ==> (#[trigger] ms[i]).message_id@ != (
            #[trigger] ms[j]).message_id@,
        forall|i: int, j: int|
            0 <= i <= j < ms.len() ==> (#[trigger] ms[i]).timestamp <= (#[trigger] ms[j]).timestamp,
        forall|i: int, k: int|
            0 <= i < ms.len() && 0 <= k < s.len() ==> (#[trigger] s[k]).timestamp <= (
            #[trigger] ms[i]).timestamp,
    ensures
        spec_apply_messages(s, ms) == s + ms,
    decreases ms.len(),
{
    if ms.len() == 0 {
        assert(s + ms =~= s);
    } else {
        let m0 = ms[0];
        assert forall|k: int| 0 <= k < s.len() implies (#[trigger] s[k]).message_id@
            != m0.message_id@ && s[k].timestamp <= m0.timestamp by {}
        lemma_upsert_message_fresh_latest(s, m0);
        let s1 = s.push(m0);
        let rest = ms.drop_first();
        assert forall|i: int, k: int|
            0 <= i < rest.len() && 0 <= k < s1.len() implies (#[trigger] s1[k]).message_id@ != (
        #[trigger] rest[i]).message_id@ by {
            assert(rest[i] == ms[i + 1]);
            if k < s.len() {
                assert(s1[k] == s[k]);
            } else {
                assert(s1[k] == m0);
            }
        }
        assert forall|i: int, k: int|
            0 <= i < rest.len() && 0 <= k < s1.len() implies (#[trigger] s1[k]).timestamp <= (
        #[trigger] rest[i]).timestamp by {
            assert(rest[i] == ms[i + 1]);
            if k < s.len() {
                assert(s1[k] == s[k]);
            } else {
                assert(s1[k] == m0);
            }
        }
        assert forall|i: int, j: int|
            0 <= i < j < rest.len() implies (#[trigger] rest[i]).message_id@ != (
        #[trigger] rest[j]).message_id@ by {
            assert(rest[i] == ms[i + 1] && rest[j] == ms[j + 1]);
        }
        assert forall|i: int, j: int|
            0 <= i <= j < rest.len() implies (#[trigger] rest[i]).timestamp <= (
        #[trigger] rest[j]).timestamp by {
            assert(rest[i] == ms[i + 1] && rest[j] == ms[j + 1]);
        }
        lemma_epoch_order(s1, rest);
        assert(s1 + rest =~= s + ms);
    }
}


/// Law: a whole epoch of contact activity — jids fresh and pairwise
/// distinct, ordering timestamps strictly increasing in the order produced
/// and more recent than everything stored — reads back most recent first:
/// the produced order, reversed, ahead of the old list.
pub proof fn lemma_epoch_order_contacts(s: Seq<Contact>, cs: Seq<Contact>)
    requires
        forall|i: int, k: int|
            0 <= i < cs.len() && 0 <= k < s.len() ==> (#[trigger] s[k]).jid@ != (
            #[trigger] cs[i]).jid@,
        forall|i: int, j: int|
            0 <= i < j < cs.len() ==> (#[trigger] cs[i]).jid@ != (#[trigger] cs[j]).jid@,
        forall|i: int, j: int|
            0 <= i < j < cs.len() ==> (#[trigger] cs[i]).conversation_timestamp < (
            #[trigger] cs[j]).conversation_timestamp,
        forall|i: int, k: int|
            0 <= i < cs.len() && 0 <= k < s.len() ==> (#[trigger] s[k]).conversation_timestamp < (
            #[trigger] cs[i]).conversation_timestamp,
    ensures
        spec_apply_contacts(s, cs) == cs.reverse() + s,
    decreases cs.len(),
{
    if cs.len() == 0 {
        assert(cs.reverse() + s =~= s);
    } else {
        let c0 = cs[0];
        assert forall|k: int| 0 <= k < s.len() implies (#[trigger] s[k]).jid@ != c0.jid@ && s[
            k].conversation_timestamp < c0.conversation_timestamp by {}
        lemma_upsert_contact_fresh_recent(s, c0);
        let s1 = seq![c0] + s;
        let rest = cs.drop_first();
        assert forall|i: int, k: int|
            0 <= i < rest.len() && 0 <= k < s1.len() implies (#[trigger] s1[k]).jid@ != (
        #[trigger] rest[i]).jid@ && s1[k].conversation_timestamp < rest[i].conversation_timestamp by {
            assert(rest[i] == cs[i + 1]);
            if k == 0 {
                assert(s1[k] == c0);
            } else {
                assert(s1[k] == s[k - 1]);
            }
        }
        assert forall|i: int, j: int|
            0 <= i < j < rest.len() implies (#[trigger] rest[i]).jid@ != (#[trigger] rest[j]).jid@
            && rest[i].conversation_timestamp < rest[j].conversation_timestamp by {
            assert(rest[i] == cs[i + 1] && rest[j] == cs[j + 1]);
        }
        lemma_epoch_order_contacts(s1, rest);
        assert(rest.reverse() + s1 =~= cs.reverse() + s) by {
            assert forall|k: int| 0 <= k < rest.reverse().len() implies rest.reverse()[k]
                == cs.reverse()[k] by {
                assert(rest.reverse()[k] == rest[rest.len() - 1 - k]);
                assert(cs.reverse()[k] == cs[cs.len() - 1 - k]);
                assert(rest[rest.len() - 1 - k] == cs[cs.len() - 1 - k]);
            }
            assert(cs.reverse()[cs.len() - 1] == cs[0]);
        }
    }
}


proof fn lemma_remove_witness_contact(s: Seq<Contact>, jid: Seq<char>, i: int)
    requires
        0 <= i < spec_remove_contact(s, jid).len(),
    ensures
        exists|a: int| 0 <= a < s.len() && s[a] == spec_remove_contact(s, jid)[i],
    decreases s.len(),
{
    reveal(Seq::filter);
    if s.len() == 0 {
    } else {
        let t = s.drop_last();
        if s.last().jid@ != jid && i == spec_remove_contact(s, jid).len() - 1 {
            assert(s[s.len() - 1] == spec_remove_contact(s, jid)[i]);
        } else {
            assert(spec_remove_contact(s, jid)[i] == spec_remove_contact(t, jid)[i]);
            lemma_remove_witness_contact(t, jid, i);
            let a = choose|a: int| 0 <= a < t.len() && t[a] == spec_remove_contact(t, jid)[i];
            assert(s[a] == spec_remove_contact(s, jid)[i]);
        }
    }
}

proof fn lemma_remove_witness_message(s: Seq<Message>, id: Seq<char>, i: int)
    requires
        0 <= i < spec_remove_message(s, id).len(),
    ensures
        exists|a: int| 0 <= a < s.len() && s[a] == spec_remove_message(s, id)[i],
    decreases s.len(),
{
    reveal(Seq::filter);
    if s.len() == 0 {
    } else {
        let t = s.drop_last();
        if s.last().message_id@ != id && i == spec_remove_message(s, id).len() - 1 {
            assert(s[s.len() - 1] == spec_remove_message(s, id)[i]);
        } else {
            assert(spec_remove_message(s, id)[i] == spec_remove_message(t, id)[i]);
            lemma_remove_witness_message(t, id, i);
            let a = choose|a: int| 0 <= a < t.len() && t[a] == spec_remove_message(t, id)[i];
            assert(s[a] == spec_remove_message(s, id)[i]);
        }
    }
}

proof fn lemma_remove_contact_props(s: Seq<Contact>, jid: Seq<char>)
    ensures
        contacts_sorted(s) ==> contacts_sorted(spec_remove_contact(s, jid)),
        contacts_unique(s) ==> contacts_unique(spec_remove_contact(s, jid)),
        forall|k: int|
            0 <= k < spec_remove_contact(s, jid).len() ==> (#[trigger] spec_remove_contact(
                s,
                jid,
            )[k]).jid@ != jid,
    decreases s.len(),
{
    reveal(Seq::filter);
    if s.len() == 0 {
    } else {
        let t = s.drop_last();
        lemma_remove_contact_props(t, jid);
        let tf = spec_remove_contact(t, jid);
        let f = spec_remove_contact(s, jid);
        let keep_last = s.last().jid@ != jid;
        if keep_last {
            assert(f == tf.push(s.last()));
        } else {
            assert(f == tf);
        }
        if contacts_sorted(s) {
            assert(contacts_sorted(t));
            if keep_last {
                assert forall|k: int|
                    0 <= k < tf.len() implies (#[trigger] tf[k]).conversation_timestamp
                    >= s.last().conversation_timestamp by {
                    lemma_remove_witness_contact(t, jid, k);
                    let a = choose|a: int| 0 <= a < t.len() && t[a] == spec_remove_contact(
                        t,
                        jid,
                    )[k];
                    assert(s[a] == t[a]);
                    assert(s[a].conversation_timestamp >= s[s.len() - 1].conversation_timestamp);
                }
            }
            assert forall|i: int, j: int|
                0 <= i <= j < f.len() implies f[i].conversation_timestamp
                >= f[j].conversation_timestamp by {
                if keep_last {
                    if j < tf.len() {
                        assert(f[i] == tf[i] && f[j] == tf[j]);
                    } else {
                        assert(f[j] == s.last());
                        if i < tf.len() {
                            assert(f[i] == tf[i]);
                        }
                    }
                }
            }
        }
        if contacts_unique(s) {
            assert(contacts_unique(t));
            if keep_last {
                assert forall|k: int| 0 <= k < tf.len() implies (#[trigger] tf[k]).jid@
                    != s.last().jid@ by {
                    lemma_remove_witness_contact(t, jid, k);
                    let a = choose|a: int| 0 <= a < t.len() && t[a] == spec_remove_contact(
                        t,
                        jid,
                    )[k];
                    assert(s[a] == t[a]);
                    assert(s[a].jid@ != s[s.len() - 1].jid@);
                }
            }
            assert forall|i: int, j: int| 0 <= i < j < f.len() implies f[i].jid@ != f[j].jid@ by {
                if keep_last {
                    if j < tf.len() {
                        assert(f[i] == tf[i] && f[j] == tf[j]);
                    } else {
                        assert(f[j] == s.last());
                        assert(f[i] == tf[i]);
                    }
                }
            }
        }
    }
}

proof fn lemma_remove_message_props(s: Seq<Message>, id: Seq<char>)
    ensures
        messages_sorted(s) ==> messages_sorted(spec_remove_message(s, id)),
        messages_unique(s) ==> messages_unique(spec_remove_message(s, id)),
        forall|k: int|
            0 <= k < spec_remove_message(s, id).len() ==> (#[trigger] spec_remove_message(
                s,
                id,
            )[k]).message_id@ != id,
    decreases s.len(),
{
    reveal(Seq::filter);
    if s.len() == 0 {
    } else {
        let t = s.drop_last();
        lemma_remove_message_props(t, id);
        let tf = spec_remove_message(t, id);
        let f = spec_remove_message(s, id);
        let keep_last = s.last().message_id@ != id;
        if keep_last {
            assert(f == tf.push(s.last()));
        } else {
            assert(f == tf);
        }
        if messages_sorted(s) {
            assert(messages_sorted(t));
            if keep_last {
                assert forall|k: int| 0 <= k < tf.len() implies (#[trigger] tf[k]).timestamp
                    <= s.last().timestamp by {
                    lemma_remove_witness_message(t, id, k);
                    let a = choose|a: int| 0 <= a < t.len() && t[a] == spec_remove_message(
                        t,
                        id,
                    )[k];
                    assert(s[a] == t[a]);
                    assert(s[a].timestamp <= s[s.len() - 1].timestamp);
                }
            }
            assert forall|i: int, j: int|
                0 <= i <= j < f.len() implies f[i].timestamp <= f[j].timestamp by {
                if keep_last {
                    if j < tf.len() {
                        assert(f[i] == tf[i] && f[j] == tf[j]);
                    } else {
                        assert(f[j] == s.last());
                        if i < tf.len() {
                            assert(f[i] == tf[i]);
                        }
                    }
                }
            }
        }
        if messages_unique(s) {
            assert(messages_unique(t));
            if keep_last {
                assert forall|k: int| 0 <= k < tf.len() implies (#[trigger] tf[k]).message_id@
                    != s.last().message_id@ by {
                    lemma_remove_witness_message(t, id, k);
                    let a = choose|a: int| 0 <= a < t.len() && t[a] == spec_remove_message(
                        t,
                        id,
                    )[k];
                    assert(s[a] == t[a]);
                    assert(s[a].message_id@ != s[s.len() - 1].message_id@);
                }
            }
            assert forall|i: int, j: int|
                0 <= i < j < f.len() implies f[i].message_id@ != f[j].message_id@ by {
                if keep_last {
                    if j < tf.len() {
                        assert(f[i] == tf[i] && f[j] == tf[j]);
                    } else {
                        assert(f[j] == s.last());
                        assert(f[i] == tf[i]);
                    }
                }
            }
        }
    }
}

} // verus!
