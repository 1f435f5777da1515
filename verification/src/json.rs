//! A plain model of a decoded JSON document, and the one trusted entry point
//! that produces it from frame text.
//!
//! Every wire payload the normalizer reads is held in [`JsonValue`]: a pure
//! tree of booleans, integers, strings, arrays and key/value lists. All shape
//! dispatch and field extraction downstream is verified code over this tree;
//! only the parse itself is an outside call.

use vstd::prelude::*;

use crate::text::str_eq;

verus! {

/// A decoded JSON document.
///
/// Object entries are listed with unique keys in ascending key order, as the
/// parser delivers them. Numbers that are not integers, or that do not fit a
/// signed 64-bit value, read as 0; the wire protocol uses neither.
#[derive(Debug)]
pub enum JsonValue {
    Null,
    Bool(bool),
    Int(i64),
    Str(String),
    Arr(Vec<JsonValue>),
    Obj(Vec<(String, JsonValue)>),
}

/// The value under `key` in an entry list: the first entry whose key matches.
pub open spec fn spec_lookup(entries: Seq<(String, JsonValue)>, key: Seq<char>) -> Option<
    JsonValue,
>
    decreases entries.len(),
{
    if entries.len() == 0 {
        None
    } else if entries[0].0@ == key {
        Some(entries[0].1)
    } else {
        spec_lookup(entries.drop_first(), key)
    }
}

impl JsonValue {
    /// The value of field `key`, when `self` is an object that has it.
    pub open spec fn spec_get(self, key: Seq<char>) -> Option<JsonValue> {
        match self {
            JsonValue::Obj(entries) => spec_lookup(entries@, key),
            _ => None,
        }
    }

    /// The string content, when `self` is a string.
    pub open spec fn spec_as_str(self) -> Option<String> {
        match self {
            JsonValue::Str(s) => Some(s),
            _ => None,
        }
    }

    /// The string content of field `key`, when present with that shape.
    pub open spec fn spec_str_field(self, key: Seq<char>) -> Option<String> {
        match self.spec_get(key) {
            Some(v) => v.spec_as_str(),
            None => None,
        }
    }

    /// The integer content of field `key`; `default` when absent or of
    /// another shape.
    pub open spec fn spec_i64_field(self, key: Seq<char>, default: i64) -> i64 {
        match self.spec_get(key) {
            Some(JsonValue::Int(n)) => n,
            _ => default,
        }
    }

    /// The boolean content of field `key`; `default` when absent or of
    /// another shape.
    pub open spec fn spec_bool_field(self, key: Seq<char>, default: bool) -> bool {
        match self.spec_get(key) {
            Some(JsonValue::Bool(b)) => b,
            _ => default,
        }
    }

    /// Whether `self` is an object with a field `key`.
    pub open spec fn spec_has_field(self, key: Seq<char>) -> bool {
        self.spec_get(key) is Some
    }

    /// Looks up field `key`, when `self` is an object that has it.
    pub fn get<'a>(&'a self, key: &str) -> (r: Option<&'a JsonValue>)
        ensures
            match r {
                Some(v) => self.spec_get(key@) == Some(*v),
                None => self.spec_get(key@) is None,
            },
    {
        match self {
            JsonValue::Obj(entries) => {
                let n = entries.len();
                proof {
                    assert(entries@.subrange(0, n as int) =~= entries@);
                    assert(self.spec_get(key@) == spec_lookup(entries@, key@));
                }
                let mut i: usize = 0;
                while i < n
                    invariant
                        n == entries@.len(),
                        i <= n,
                        self.spec_get(key@) == spec_lookup(
                            entries@.subrange(i as int, n as int),
                            key@,
                        ),
                    decreases n - i,
                {
                    proof {
                        assert(entries@.subrange(i as int, n as int)[0] == entries@[i as int]);
                        assert(entries@.subrange(i as int, n as int).drop_first()
                            =~= entries@.subrange(i + 1, n as int));
                    }
                    let e = &entries[i];
                    if str_eq(e.0.as_str(), key) {
                        proof {
                            assert(spec_lookup(entries@.subrange(i as int, n as int), key@)
                                == Some(entries@[i as int].1));
                        }
                        return Some(&e.1);
                    }
                    i += 1;
                }
                None
            },
            _ => None,
        }
    }

    /// The string content, when `self` is a string.
    pub fn as_str<'a>(&'a self) -> (r: Option<&'a String>)
        ensures
            match r {
                Some(s) => self.spec_as_str() == Some(*s),
                None => self.spec_as_str() is None,
            },
    {
        match self {
            JsonValue::Str(s) => Some(s),
            _ => None,
        }
    }

    /// The elements, when `self` is an array.
    pub fn as_arr<'a>(&'a self) -> (r: Option<&'a Vec<JsonValue>>)
        ensures
            match r {
                Some(a) => *self == JsonValue::Arr(*a),
                None => !(self is Arr),
            },
    {
        match self {
            JsonValue::Arr(a) => Some(a),
            _ => None,
        }
    }

    /// A copy of the string content of field `key`, when present with that
    /// shape.
    pub fn str_field(&self, key: &str) -> (r: Option<String>)
        ensures
            r == self.spec_str_field(key@),
    {
        match self.get(key) {
            Some(v) => match v.as_str() {
                Some(s) => Some(s.clone()),
                None => None,
            },
            None => None,
        }
    }

    /// The integer content of field `key`, or `default`.
    pub fn i64_field(&self, key: &str, default: i64) -> (r: i64)
        ensures
            r == self.spec_i64_field(key@, default),
    {
        match self.get(key) {
            Some(v) => match v {
                JsonValue::Int(n) => *n,
                _ => default,
            },
            None => default,
        }
    }

    /// The boolean content of field `key`, or `default`.
    pub fn bool_field(&self, key: &str, default: bool) -> (r: bool)
        ensures
            r == self.spec_bool_field(key@, default),
    {
        match self.get(key) {
            Some(v) => match v {
                JsonValue::Bool(b) => *b,
                _ => default,
            },
            None => default,
        }
    }

    /// Whether `self` is an object with a field `key`.
    pub fn has_field(&self, key: &str) -> (r: bool)
        ensures
            r == self.spec_has_field(key@),
    {
        match self.get(key) {
            Some(_) => true,
            None => false,
        }
    }
}

/// The lower-case hex digit for `d`.
pub open spec fn spec_hex_char(d: int) -> char {
    if d == 0 {
        '0'
    } else if d == 1 {
        '1'
    } else if d == 2 {
        '2'
    } else if d == 3 {
        '3'
    } else if d == 4 {
        '4'
    } else if d == 5 {
        '5'
    } else if d == 6 {
        '6'
    } else if d == 7 {
        '7'
    } else if d == 8 {
        '8'
    } else if d == 9 {
        '9'
    } else if d == 10 {
        'a'
    } else if d == 11 {
        'b'
    } else if d == 12 {
        'c'
    } else if d == 13 {
        'd'
    } else if d == 14 {
        'e'
    } else {
        'f'
    }
}

fn hex_char(d: u32) -> (r: char)
    requires
        d < 16,
    ensures
        r == spec_hex_char(d as int),
{
    if d == 0 {
        '0'
    } else if d == 1 {
        '1'
    } else if d == 2 {
        '2'
    } else if d == 3 {
        '3'
    } else if d == 4 {
        '4'
    } else if d == 5 {
        '5'
    } else if d == 6 {
        '6'
    } else if d == 7 {
        '7'
    } else if d == 8 {
        '8'
    } else if d == 9 {
        '9'
    } else if d == 10 {
        'a'
    } else if d == 11 {
        'b'
    } else if d == 12 {
        'c'
    } else if d == 13 {
        'd'
    } else if d == 14 {
        'e'
    } else {
        'f'
    }
}

/// How one character is written inside a JSON string literal: quote,
/// backslash and the named control characters get a two-character escape,
/// other control characters a `\u00..` escape, everything else itself.
pub open spec fn spec_escape_char(c: char) -> Seq<char> {
    if c == '"' {
        seq!['\\', '"']
    } else if c == '\\' {
        seq!['\\', '\\']
    } else if c == '\n' {
        seq!['\\', 'n']
    } else if c == '\r' {
        seq!['\\', 'r']
    } else if c == '\t' {
        seq!['\\', 't']
    } else if (c as int) < 32 {
        seq!['\\', 'u', '0', '0', spec_hex_char((c as int) / 16), spec_hex_char((c as int) % 16)]
    } else {
        seq![c]
    }
}

/// The body of a JSON string literal for the characters `s`.
pub open spec fn spec_escape(s: Seq<char>) -> Seq<char>
    decreases s.len(),
{
    if s.len() == 0 {
        Seq::empty()
    } else {
        spec_escape_char(s[0]) + spec_escape(s.drop_first())
    }
}

proof fn lemma_escape_push(s: Seq<char>, c: char)
    ensures
        spec_escape(s.push(c)) == spec_escape(s) + spec_escape_char(c),
    decreases s.len(),
{
    if s.len() == 0 {
        let p = s.push(c);
        assert(p.len() == 1 && p[0] == c);
        assert(p.drop_first() =~= Seq::<char>::empty());
        assert(spec_escape(p) == spec_escape_char(c) + spec_escape(Seq::<char>::empty()));
        assert(spec_escape(Seq::<char>::empty()) == Seq::<char>::empty());
        assert(spec_escape(p) =~= spec_escape(s) + spec_escape_char(c));
    } else {
        assert(s.push(c).drop_first() =~= s.drop_first().push(c));
        lemma_escape_push(s.drop_first(), c);
        assert(spec_escape(s.push(c)) =~= spec_escape(s) + spec_escape_char(c));
    }
}

/// The canonical text rendering of a JSON document: no whitespace, object
/// entries in the order held, strings escaped per `spec_escape`.
pub open spec fn spec_json_text(j: JsonValue) -> Seq<char>
    decreases j,
{
    match j {
        JsonValue::Null => "null"@,
        JsonValue::Bool(b) => if b {
            "true"@
        } else {
            "false"@
        },
        JsonValue::Int(n) => crate::text::spec_i64_digits(n),
        JsonValue::Str(s) => seq!['"'] + spec_escape(s@) + seq!['"'],
        JsonValue::Arr(a) => seq!['['] + spec_json_list(a@) + seq![']'],
        JsonValue::Obj(o) => seq!['{'] + spec_json_entries(o@) + seq!['}'],
    }
}

/// Comma-separated renderings of the elements.
pub open spec fn spec_json_list(s: Seq<JsonValue>) -> Seq<char>
    decreases s,
{
    if s.len() == 0 {
        Seq::empty()
    } else if s.len() == 1 {
        spec_json_text(s[0])
    } else {
        spec_json_text(s[0]) + seq![','] + spec_json_list(s.drop_first())
    }
}

/// Comma-separated `"key":value` renderings of the entries.
pub open spec fn spec_json_entries(s: Seq<(String, JsonValue)>) -> Seq<char>
    decreases s,
{
    if s.len() == 0 {
        Seq::empty()
    } else if s.len() == 1 {
        spec_json_entry(s[0])
    } else {
        spec_json_entry(s[0]) + seq![','] + spec_json_entries(s.drop_first())
    }
}

/// One `"key":value` rendering.
pub open spec fn spec_json_entry(e: (String, JsonValue)) -> Seq<char>
    decreases e,
{
    seq!['"'] + spec_escape(e.0@) + seq!['"', ':'] + spec_json_text(e.1)
}

fn write_escaped(s: &str, out: &mut String)
    ensures
        final(out)@ == old(out)@ + spec_escape(s@),
{
    let n = s.unicode_len();
    let mut i: usize = 0;
    proof {
        assert(s@.subrange(0, 0) =~= Seq::<char>::empty());
        assert(old(out)@ + spec_escape(s@.subrange(0, 0)) =~= old(out)@);
    }
    while i < n
        invariant
            n == s@.len(),
            i <= n,
            out@ == old(out)@ + spec_escape(s@.subrange(0, i as int)),
        decreases n - i,
    {
        let c = s.get_char(i);
        if c == '"' {
            crate::text::push_char(out, '\\');
            crate::text::push_char(out, '"');
        } else if c == '\\' {
            crate::text::push_char(out, '\\');
            crate::text::push_char(out, '\\');
        } else if c == '\n' {
            crate::text::push_char(out, '\\');
            crate::text::push_char(out, 'n');
        } else if c == '\r' {
            crate::text::push_char(out, '\\');
            crate::text::push_char(out, 'r');
        } else if c == '\t' {
            crate::text::push_char(out, '\\');
            crate::text::push_char(out, 't');
        } else {
            let code = c as u32;
            if code < 32 {
                crate::text::push_char(out, '\\');
                crate::text::push_char(out, 'u');
                crate::text::push_char(out, '0');
                crate::text::push_char(out, '0');
                crate::text::push_char(out, hex_char(code / 16));
                crate::text::push_char(out, hex_char(code % 16));
            } else {
                crate::text::push_char(out, c);
            }
        }
        proof {
            lemma_escape_push(s@.subrange(0, i as int), c);
            assert(s@.subrange(0, i + 1) =~= s@.subrange(0, i as int).push(c));
            assert(out@ =~= old(out)@ + spec_escape(s@.subrange(0, i + 1)));
        }
        i += 1;
    }
    proof {
        assert(s@.subrange(0, n as int) =~= s@);
    }
}

fn write_json(j: &JsonValue, out: &mut String)
    ensures
        final(out)@ == old(out)@ + spec_json_text(*j),
    decreases *j,
{
    match j {
        JsonValue::Null => {
            out.append("null");
        },
        JsonValue::Bool(b) => {
            if *b {
                out.append("true");
            } else {
                out.append("false");
            }
        },
        JsonValue::Int(n) => {
            let digits = crate::text::i64_to_string(*n);
            out.append(digits.as_str());
        },
        JsonValue::Str(s) => {
            crate::text::push_char(out, '"');
            write_escaped(s.as_str(), out);
            crate::text::push_char(out, '"');
            proof {
                assert(out@ =~= old(out)@ + spec_json_text(*j));
            }
        },
        JsonValue::Arr(a) => {
            crate::text::push_char(out, '[');
            if a.len() > 0 {
                write_json_list(a, 0, out);
                proof {
                    assert(a@.subrange(0, a@.len() as int) =~= a@);
                }
            }
            crate::text::push_char(out, ']');
            proof {
                assert(spec_json_text(*j) == seq!['['] + spec_json_list(a@) + seq![']']);
                assert(out@ =~= old(out)@ + spec_json_text(*j));
            }
        },
        JsonValue::Obj(o) => {
            crate::text::push_char(out, '{');
            if o.len() > 0 {
                write_json_entries(o, 0, out);
                proof {
                    assert(o@.subrange(0, o@.len() as int) =~= o@);
                }
            }
            crate::text::push_char(out, '}');
            proof {
                assert(spec_json_text(*j) == seq!['{'] + spec_json_entries(o@) + seq!['}']);
                assert(out@ =~= old(out)@ + spec_json_text(*j));
            }
        },
    }
}

fn write_json_list(a: &Vec<JsonValue>, i: usize, out: &mut String)
    requires
        i < a@.len(),
    ensures
        final(out)@ == old(out)@ + spec_json_list(a@.subrange(i as int, a@.len() as int)),
    decreases *a, a@.len() - i,
{
    let n = a.len();
    write_json(&a[i], out);
    if i + 1 < n {
        crate::text::push_char(out, ',');
        write_json_list(a, i + 1, out);
    }
    proof {
        let rest = a@.subrange(i as int, a@.len() as int);
        assert(rest[0] == a@[i as int]);
        if i + 1 < a@.len() {
            assert(rest.drop_first() =~= a@.subrange(i + 1, a@.len() as int));
        } else {
            assert(rest.len() == 1);
        }
        assert(out@ =~= old(out)@ + spec_json_list(rest));
    }
}

fn write_json_entries(o: &Vec<(String, JsonValue)>, i: usize, out: &mut String)
    requires
        i < o@.len(),
    ensures
        final(out)@ == old(out)@ + spec_json_entries(o@.subrange(i as int, o@.len() as int)),
    decreases *o, o@.len() - i,
{
    let n = o.len();
    crate::text::push_char(out, '"');
    let e = &o[i];
    write_escaped(e.0.as_str(), out);
    crate::text::push_char(out, '"');
    crate::text::push_char(out, ':');
    write_json(&e.1, out);
    proof {
        assert(*e == o@[i as int]);
        assert(spec_json_entry(o@[i as int]) == seq!['"'] + spec_escape(e.0@) + seq!['"', ':']
            + spec_json_text(e.1));
    }
    if i + 1 < n {
        crate::text::push_char(out, ',');
        write_json_entries(o, i + 1, out);
    }
    proof {
        let rest = o@.subrange(i as int, o@.len() as int);
        assert(rest[0] == o@[i as int]);
        if i + 1 < o@.len() {
            assert(rest.drop_first() =~= o@.subrange(i + 1, o@.len() as int));
            assert(spec_json_entries(rest) == spec_json_entry(rest[0]) + seq![',']
                + spec_json_entries(rest.drop_first()));
        } else {
            assert(rest.len() == 1);
        }
        assert(out@ =~= old(out)@ + spec_json_entries(rest));
    }
}

/// Renders a JSON document as its canonical text.
pub fn json_to_string(j: &JsonValue) -> (r: String)
    ensures
        r@ == spec_json_text(*j),
{
    let mut out = String::new();
    write_json(j, &mut out);
    proof {
        assert(out@ =~= spec_json_text(*j));
    }
    out
}

/// Declares serde_json::Value, the parser's own document type, so that the
/// conversion below may take it; the library never reads it directly.
#[verifier::external_type_specification]
#[verifier::external_body]
pub struct ExValue(serde_json::Value);

/// The JSON document encoded by a text, `None` when the text is not valid
/// JSON, exactly as `parse_json` computes it.
pub uninterp spec fn json_of(s: Seq<char>) -> Option<JsonValue>;

/// Relies on serde_json::Value's public variants and accessors: maps each
/// JSON node one-for-one onto the library's model. A number that is not an
/// integer or does not fit a signed 64-bit value maps to 0.
#[verifier::external_body]
fn json_to_model(v: &serde_json::Value) -> JsonValue {
    match v {
        serde_json::Value::Null => JsonValue::Null,
        serde_json::Value::Bool(b) => JsonValue::Bool(*b),
        serde_json::Value::Number(n) => JsonValue::Int(n.as_i64().unwrap_or(0)),
        serde_json::Value::String(s) => JsonValue::Str(s.clone()),
        serde_json::Value::Array(a) => JsonValue::Arr(a.iter().map(json_to_model).collect()),
        serde_json::Value::Object(m) => JsonValue::Obj(
            m.iter().map(|(k, x)| (k.clone(), json_to_model(x))).collect(),
        ),
    }
}

/// Relies on serde_json::from_str: decodes the text into a JSON tree, `None`
/// exactly when the text is not valid JSON. With the parser's default map the
/// tree is a function of the text alone: object keys come out unique and
/// sorted, the last of duplicate keys wins.
#[verifier::external_body]
pub(crate) fn parse_json(text: &str) -> (r: Option<JsonValue>)
    ensures
        r == json_of(text@),
{
    match serde_json::from_str::<serde_json::Value>(text) {
        Ok(v) => Some(json_to_model(&v)),
        Err(_) => None,
    }
}

} // verus!
