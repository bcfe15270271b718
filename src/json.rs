//! The library's own model of a JSON value, with its compact text.
use vstd::prelude::*;
use crate::table::{entries_map, last_with_key, lemma_last_entry_wins, lemma_absent_key};
use crate::text::{str_eq, trim, trim_spec};

verus! {

/// A JSON value. A number is held as the text that a JSON writer gives for it.
#[derive(Debug, PartialEq)]
pub enum JsonValue {
    Null,
    Bool(bool),
    Number(String),
    Str(String),
    Array(Vec<JsonValue>),
    Object(Vec<(String, JsonValue)>),
}

/// `s` written as a JSON string literal, quotes and escapes included.
pub uninterp spec fn json_quoted(s: Seq<char>) -> Seq<char>;

/// Relies on `serde_json::to_string` for a `str`: it writes the JSON string literal for
/// the text, which never fails.
#[verifier::external_body]
fn quote(s: &str) -> (r: String)
    ensures
        r@ == json_quoted(s@),
{
    serde_json::to_string(s).unwrap_or_default()
}

/// The compact JSON text of a value: no white space between tokens.
pub open spec fn compact(v: JsonValue) -> Seq<char>
    decreases v,
{
    match v {
        JsonValue::Null => seq!['n', 'u', 'l', 'l'],
        JsonValue::Bool(b) => if b {
            seq!['t', 'r', 'u', 'e']
        } else {
            seq!['f', 'a', 'l', 's', 'e']
        },
        JsonValue::Number(t) => t@,
        JsonValue::Str(s) => json_quoted(s@),
        JsonValue::Array(items) => seq!['['] + compact_items(items@) + seq![']'],
        JsonValue::Object(fields) => seq!['{'] + compact_fields(fields@) + seq!['}'],
    }
}

/// The compact texts of `items`, separated by commas.
pub open spec fn compact_items(items: Seq<JsonValue>) -> Seq<char>
    decreases items,
{
    if items.len() == 0 {
        Seq::empty()
    } else if items.len() == 1 {
        compact(items[0])
    } else {
        compact_items(items.drop_last()) + seq![','] + compact(items.last())
    }
}

/// The compact texts of `fields` as `"key":value`, separated by commas.
pub open spec fn compact_fields(fields: Seq<(String, JsonValue)>) -> Seq<char>
    decreases fields,
{
    if fields.len() == 0 {
        Seq::empty()
    } else if fields.len() == 1 {
        json_quoted(fields[0].0@) + seq![':'] + compact(fields[0].1)
    } else {
        compact_fields(fields.drop_last()) + seq![','] + json_quoted(fields.last().0@) + seq![':']
            + compact(fields.last().1)
    }
}

/// The text that stands for a value in a template: a string gives its characters, any
/// other value its compact JSON text.
pub open spec fn display_text(v: JsonValue) -> Seq<char> {
    match v {
        JsonValue::Str(s) => s@,
        _ => compact(v),
    }
}

/// The value under `key` in a JSON object; for a key given twice, the later one.
pub open spec fn field_of(v: JsonValue, key: Seq<char>) -> Option<JsonValue> {
    match v {
        JsonValue::Object(fields) => if entries_map(fields@).contains_key(key) {
            Some(entries_map(fields@)[key])
        } else {
            None
        },
        _ => None,
    }
}

impl JsonValue {
    /// The value under `key`, if `self` is an object that has it.
    pub fn get(&self, key: &str) -> (r: Option<&JsonValue>)
        ensures
            match r {
                Some(x) => field_of(*self, key@) == Some(*x),
                None => field_of(*self, key@) is None,
            },
    {
        match self {
            JsonValue::Object(fields) => {
                let mut i = fields.len();
                while i > 0
                    invariant
                        *self == JsonValue::Object(*fields),
                        i <= fields@.len(),
                        forall|j: int| i <= j < fields@.len() ==> fields@[j].0@ != key@,
                    decreases i,
                {
                    i = i - 1;
                    if str_eq(fields[i].0.as_str(), key) {
                        proof {
                            assert(last_with_key(fields@, i as int, key@));
                            lemma_last_entry_wins(fields@, i as int, key@);
                        }
                        return Some(&fields[i].1);
                    }
                }
                proof {
                    lemma_absent_key(fields@, key@);
                }
                None
            },
            _ => None,
        }
    }

    /// The text of a string value.
    pub fn as_str(&self) -> (r: Option<&str>)
        ensures
            match *self {
                JsonValue::Str(s) => r is Some && r->Some_0@ == s@,
                _ => r is None,
            },
    {
        match self {
            JsonValue::Str(s) => Some(s.as_str()),
            _ => None,
        }
    }

    /// The compact JSON text of the value.
    pub fn to_compact(&self) -> (r: String)
        ensures
            r@ == compact(*self),
        decreases self,
    {
        let mut out = String::new();
        match self {
            JsonValue::Null => {
                out.append("null");
                proof {
                    reveal_strlit("null");
                    assert(out@ =~= compact(*self));
                }
            },
            JsonValue::Bool(b) => {
                if *b {
                    out.append("true");
                    proof {
                        reveal_strlit("true");
                        assert(out@ =~= compact(*self));
                    }
                } else {
                    out.append("false");
                    proof {
                        reveal_strlit("false");
                        assert(out@ =~= compact(*self));
                    }
                }
            },
            JsonValue::Number(t) => {
                out.append(t.as_str());
                proof {
                    assert(out@ =~= compact(*self));
                }
            },
            JsonValue::Str(s) => {
                out = quote(s.as_str());
            },
            JsonValue::Array(items) => {
                out.append("[");
                proof {
                    reveal_strlit("[");
                }
                let mut i: usize = 0;
                while i < items.len()
                    invariant
                        *self == JsonValue::Array(*items),
                        i <= items@.len(),
                        out@ == seq!['['] + compact_items(items@.subrange(0, i as int)),
                    decreases items@.len() - i,
                {
                    if i > 0 {
                        out.append(",");
                        proof {
                            reveal_strlit(",");
                        }
                    }
                    proof {
                        let ghost v = *self;
                        assert(decreases_to!(v => v->Array_0));
                        vstd::std_specs::vec::axiom_vec_index_decreases(*items, i as int);
                        assert(decreases_to!(*items => items[i as int]));
                    }
                    let piece = items[i].to_compact();
                    out.append(piece.as_str());
                    proof {
                        let s = items@.subrange(0, i as int + 1);
                        assert(s.drop_last() =~= items@.subrange(0, i as int));
                        assert(out@ =~= seq!['['] + compact_items(s));
                    }
                    i = i + 1;
                }
                out.append("]");
                proof {
                    reveal_strlit("]");
                    assert(items@.subrange(0, items@.len() as int) =~= items@);
                    assert(out@ =~= compact(*self));
                }
            },
            JsonValue::Object(fields) => {
                out.append("{");
                proof {
                    reveal_strlit("{");
                }
                let mut i: usize = 0;
                while i < fields.len()
                    invariant
                        *self == JsonValue::Object(*fields),
                        i <= fields@.len(),
                        out@ == seq!['{'] + compact_fields(fields@.subrange(0, i as int)),
                    decreases fields@.len() - i,
                {
                    if i > 0 {
                        out.append(",");
                        proof {
                            reveal_strlit(",");
                        }
                    }
                    let key = quote(fields[i].0.as_str());
                    out.append(key.as_str());
                    out.append(":");
                    proof {
                        reveal_strlit(":");
                    }
                    proof {
                        let ghost v = *self;
                        assert(decreases_to!(v => v->Object_0));
                        vstd::std_specs::vec::axiom_vec_index_decreases(*fields, i as int);
                        assert(decreases_to!(fields[i as int] => fields[i as int].1));
                    }
                    let piece = fields[i].1.to_compact();
                    out.append(piece.as_str());
                    proof {
                        let s = fields@.subrange(0, i as int + 1);
                        assert(s.drop_last() =~= fields@.subrange(0, i as int));
                        assert(out@ =~= seq!['{'] + compact_fields(s));
                    }
                    i = i + 1;
                }
                out.append("}");
                proof {
                    reveal_strlit("}");
                    assert(fields@.subrange(0, fields@.len() as int) =~= fields@);
                    assert(out@ =~= compact(*self));
                }
            },
        }
        out
    }

    /// The text that stands for the value in a template.
    pub fn display_text(&self) -> (r: String)
        ensures
            r@ == display_text(*self),
    {
        match self {
            JsonValue::Str(s) => s.clone(),
            _ => self.to_compact(),
        }
    }
}

/// What parsing `text` as one JSON value gives: the value, or the parser's message.
pub uninterp spec fn parsed_json(text: Seq<char>) -> Result<JsonValue, Seq<char>>;

/// Relies on `serde_json::from_str::<serde_json::Value>`: the outcome depends on the
/// text alone; the value is moved into the library's model by `from_serde`, and an
/// error becomes its message.
#[verifier::external_body]
fn parse_json(text: &str) -> (r: Result<JsonValue, String>)
    ensures
        match parsed_json(text@) {
            Ok(v) => r matches Ok(x) && x == v,
            Err(m) => r matches Err(e) && e@ == m,
        },
{
    serde_json::from_str::<serde_json::Value>(text).map(from_serde).map_err(|e| e.to_string())
}

/// serde_json's JSON value, opaque here: it is only moved into `JsonValue`.
#[verifier::external_type_specification]
#[verifier::external_body]
pub struct ExValue(serde_json::Value);

/// Relies on the variants of `serde_json::Value`: each is moved into the matching
/// variant of `JsonValue`, a number as the text that serde_json writes for it.
#[verifier::external_body]
fn from_serde(v: serde_json::Value) -> JsonValue {
    match v {
        serde_json::Value::Null => JsonValue::Null,
        serde_json::Value::Bool(b) => JsonValue::Bool(b),
        serde_json::Value::Number(n) => JsonValue::Number(n.to_string()),
        serde_json::Value::String(s) => JsonValue::Str(s),
        serde_json::Value::Array(a) => JsonValue::Array(a.into_iter().map(from_serde).collect()),
        serde_json::Value::Object(m) => JsonValue::Object(
            m.into_iter().map(|(k, x)| (k, from_serde(x))).collect(),
        ),
    }
}

/// What a file's content or an input line holds, once surrounding white space is gone.
#[derive(Debug)]
pub enum Payload {
    /// Nothing but white space.
    Empty,
    /// Text that is not one JSON value; the parser's message.
    Malformed { error: String },
    /// One JSON value.
    Event { value: JsonValue },
}

/// The payload that `text` holds.
pub open spec fn payload_of(text: Seq<char>) -> Option<Result<JsonValue, Seq<char>>> {
    if trim_spec(text).len() == 0 {
        None
    } else {
        Some(parsed_json(trim_spec(text)))
    }
}

/// `p` is what `text` holds.
pub open spec fn payload_agrees(p: Payload, text: Seq<char>) -> bool {
    match payload_of(text) {
        None => p is Empty,
        Some(Ok(v)) => p matches Payload::Event { value } && value == v,
        Some(Err(m)) => p matches Payload::Malformed { error } && error@ == m,
    }
}

/// Reads a payload: trims the text, and parses what is left unless nothing is.
pub fn read_payload(text: &str) -> (r: Payload)
    ensures
        payload_agrees(r, text@),
{
    let trimmed = trim(text);
    if trimmed.unicode_len() == 0 {
        return Payload::Empty;
    }
    match parse_json(trimmed) {
        Ok(value) => Payload::Event { value },
        Err(error) => Payload::Malformed { error },
    }
}

} // verus!
