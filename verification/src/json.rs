//! The JSON boundary. `serde_json` parses a text one level deep into a
//! `JsonNode` (children stay as JSON texts, so the library walks them one
//! level at a time) and quotes strings; the layouts built on top of these
//! two calls are verified in `message`.

use vstd::prelude::*;
use crate::text::str_equal;

verus! {

/// One level of a parsed JSON text. Array elements and object members are
/// kept as their compact JSON texts; objects list each key once, in the
/// order `serde_json` keeps them.
#[derive(Debug)]
pub enum JsonNode {
    Null,
    Scalar,
    Str(String),
    Array(Vec<String>),
    Object(Vec<(String, String)>),
    Invalid,
}

pub enum JsonNodeView {
    Null,
    Scalar,
    Str(Seq<char>),
    Array(Seq<Seq<char>>),
    Object(Seq<(Seq<char>, Seq<char>)>),
    Invalid,
}

impl View for JsonNode {
    type V = JsonNodeView;

    open spec fn view(&self) -> JsonNodeView {
        match self {
            JsonNode::Null => JsonNodeView::Null,
            JsonNode::Scalar => JsonNodeView::Scalar,
            JsonNode::Str(s) => JsonNodeView::Str(s@),
            JsonNode::Array(a) => JsonNodeView::Array(a@.map_values(|t: String| t@)),
            JsonNode::Object(m) => JsonNodeView::Object(
                m@.map_values(|kv: (String, String)| (kv.0@, kv.1@)),
            ),
            JsonNode::Invalid => JsonNodeView::Invalid,
        }
    }
}

/// What `serde_json` makes of a text, one level deep.
pub uninterp spec fn spec_json_node(text: Seq<char>) -> JsonNodeView;

/// The hex digit for `n` in `0..16`, lower case.
pub open spec fn spec_hex_digit(n: int) -> char {
    if n < 10 {
        ('0' as int + n) as char
    } else {
        ('a' as int + n - 10) as char
    }
}

/// How `serde_json` escapes one character inside a string: the quote and
/// the backslash get a backslash, the control characters with a short
/// form (backspace, tab, line feed, form feed, carriage return) get it,
/// the other control characters below U+0020 become `\u00XX` in lower-case
/// hex, and every other character stands as it is.
pub open spec fn spec_escape_char(c: char) -> Seq<char> {
    if c == '"' {
        seq!['\\', '"']
    } else if c == '\\' {
        seq!['\\', '\\']
    } else if c == '\u{8}' {
        seq!['\\', 'b']
    } else if c == '\t' {
        seq!['\\', 't']
    } else if c == '\n' {
        seq!['\\', 'n']
    } else if c == '\u{c}' {
        seq!['\\', 'f']
    } else if c == '\r' {
        seq!['\\', 'r']
    } else if (c as int) < 0x20 {
        seq!['\\', 'u', '0', '0', spec_hex_digit((c as int) / 16), spec_hex_digit((c as int) % 16)]
    } else {
        seq![c]
    }
}

/// Every character of `s` escaped, in order.
pub open spec fn spec_escaped(s: Seq<char>) -> Seq<char>
    decreases s.len(),
{
    if s.len() == 0 {
        Seq::empty()
    } else {
        spec_escaped(s.drop_last()) + spec_escape_char(s.last())
    }
}

/// What `serde_json::to_string` writes for a string: the escaped
/// characters between double quotes.
pub open spec fn spec_json_quote(s: Seq<char>) -> Seq<char> {
    seq!['"'] + spec_escaped(s) + seq!['"']
}

/// What `serde_json::from_str::<Vec<String>>` makes of a text: the
/// strings of a JSON array of strings, or nothing where the text is not one.
pub uninterp spec fn spec_json_string_list(text: Seq<char>) -> Option<Seq<Seq<char>>>;

/// `serde_json::from_str::<serde_json::Value>`, with the top-level value
/// told apart by kind: a string, an array (each element re-rendered by its
/// `Display`), an object (each member likewise), null, a number or boolean
/// (`Scalar`), or a parse error (`Invalid`). The result is named: it
/// depends on the text alone.
#[verifier::external_body]
pub(crate) fn json_node(text: &str) -> (r: JsonNode)
    ensures
        r@ == spec_json_node(text@),
{
    match serde_json::from_str::<serde_json::Value>(text) {
        Ok(serde_json::Value::Null) => JsonNode::Null,
        Ok(serde_json::Value::Bool(_)) => JsonNode::Scalar,
        Ok(serde_json::Value::Number(_)) => JsonNode::Scalar,
        Ok(serde_json::Value::String(s)) => JsonNode::Str(s),
        Ok(serde_json::Value::Array(a)) => JsonNode::Array(a.iter().map(|v| v.to_string()).collect()),
        Ok(serde_json::Value::Object(m)) => JsonNode::Object(m.iter().map(|(k, v)| (k.clone(), v.to_string())).collect()),
        Err(_) => JsonNode::Invalid,
    }
}

/// `serde_json::to_string` on a `&str`: the JSON string literal for `s`,
/// escaped as `spec_escape_char` says (the compact formatter's escape
/// table). Serialising a string cannot fail.
#[verifier::external_body]
pub(crate) fn json_quote(s: &str) -> (r: String)
    ensures
        r@ == spec_json_quote(s@),
{
    serde_json::to_string(s).unwrap_or_default()
}

/// `serde_json::to_string` on a `Vec<String>`: the compact JSON array of
/// the strings, each quoted as `json_quote` does, separated by commas.
/// Serialising strings cannot fail.
#[verifier::external_body]
pub(crate) fn json_string_list_text(v: &Vec<String>) -> (r: String)
    ensures
        r@ == crate::message::spec_string_list_json(crate::text::strings_view(v@)),
{
    serde_json::to_string(v).unwrap_or_default()
}

/// `serde_json::from_str::<Vec<String>>`: the strings of a JSON array of
/// strings, `None` where the text is anything else. The result is named:
/// it depends on the text alone.
#[verifier::external_body]
pub(crate) fn json_string_list(text: &str) -> (r: Option<Vec<String>>)
    ensures
        r matches Some(v) ==> spec_json_string_list(text@) == Some(crate::text::strings_view(v@)),
        r is None ==> spec_json_string_list(text@) is None,
{
    serde_json::from_str::<Vec<String>>(text).ok()
}

/// The text of the first member of `fields` named `key`.
pub open spec fn spec_field(fields: Seq<(Seq<char>, Seq<char>)>, key: Seq<char>) -> Option<Seq<char>>
    decreases fields.len(),
{
    if fields.len() == 0 {
        None
    } else if fields[0].0 == key {
        Some(fields[0].1)
    } else {
        spec_field(fields.drop_first(), key)
    }
}

proof fn lemma_field_skip(fields: Seq<(Seq<char>, Seq<char>)>, key: Seq<char>, i: int)
    requires
        0 <= i <= fields.len(),
        forall|k: int| 0 <= k < i ==> fields[k].0 != key,
    ensures
        spec_field(fields, key) == spec_field(fields.skip(i), key),
    decreases i,
{
    if i > 0 {
        assert(fields[0].0 != key);
        lemma_field_skip(fields.drop_first(), key, i - 1);
        assert(fields.drop_first().skip(i - 1) =~= fields.skip(i));
    } else {
        assert(fields.skip(0) =~= fields);
    }
}

/// The member of an object named `key`, as its JSON text.
pub fn field(fields: &Vec<(String, String)>, key: &str) -> (r: Option<String>)
    ensures
        r matches Some(t) ==> spec_field(fields@.map_values(|kv: (String, String)| (kv.0@, kv.1@)), key@) == Some(t@),
        r is None ==> spec_field(fields@.map_values(|kv: (String, String)| (kv.0@, kv.1@)), key@) is None,
{
    let ghost fv = fields@.map_values(|kv: (String, String)| (kv.0@, kv.1@));
    let mut i: usize = 0;
    while i < fields.len()
        invariant
            i <= fields.len(),
            fv == fields@.map_values(|kv: (String, String)| (kv.0@, kv.1@)),
            forall|k: int| 0 <= k < i ==> fv[k].0 != key@,
        decreases fields.len() - i,
    {
        if str_equal(fields[i].0.as_str(), key) {
            proof {
                lemma_field_skip(fv, key@, i as int);
            }
            return Some(fields[i].1.clone());
        }
        i = i + 1;
    }
    proof {
        lemma_field_skip(fv, key@, i as int);
    }
    None
}

/// The string that the JSON text `t` holds, where it holds one.
pub open spec fn spec_json_str(t: Seq<char>) -> Option<Seq<char>> {
    match spec_json_node(t) {
        JsonNodeView::Str(s) => Some(s),
        _ => None,
    }
}

pub fn json_str(t: &str) -> (r: Option<String>)
    ensures
        r matches Some(s) ==> spec_json_str(t@) == Some(s@),
        r is None ==> spec_json_str(t@) is None,
{
    match json_node(t) {
        JsonNode::Str(s) => Some(s),
        _ => None,
    }
}

/// Whether the JSON text `t` is `null`.
pub open spec fn spec_json_is_null(t: Seq<char>) -> bool {
    spec_json_node(t) is Null
}

pub fn json_is_null(t: &str) -> (r: bool)
    ensures
        r == spec_json_is_null(t@),
{
    match json_node(t) {
        JsonNode::Null => true,
        _ => false,
    }
}

} // verus!
