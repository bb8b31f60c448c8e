//! JSON canonicalisation of results, through `serde_json`.
use vstd::prelude::*;
use crate::hex_text::hex_digit;

verus! {

/// The compact text of the document that `text` parses to, or `None` where
/// `text` is not JSON.
pub uninterp spec fn json_reserialized_of(text: Seq<char>) -> Option<Seq<char>>;

/// How a character stands in a JSON string literal: `"` and `\` behind a
/// backslash; backspace, tab, line feed, form feed and carriage return as
/// `\b` `\t` `\n` `\f` `\r`; the other characters below U+0020 as `\u00`
/// and two lowercase hexadecimal digits; every other character as itself.
pub open spec fn json_escaped_char(c: char) -> Seq<char> {
    if c == '"' {
        seq!['\\', '"']
    } else if c == '\\' {
        seq!['\\', '\\']
    } else if c == '\u{8}' {
        seq!['\\', 'b']
    } else if c == '\t' {
        seq!['\\', 't']
    } else if c == '\n' {
        seq!['\\', 'n']
    } else if c == '\u{c}' {
        seq!['\\', 'f']
    } else if c == '\r' {
        seq!['\\', 'r']
    } else if (c as int) < 32 {
        seq![
            '\\',
            'u',
            '0',
            '0',
            hex_digit(((c as int) / 16) as u8),
            hex_digit(((c as int) % 16) as u8),
        ]
    } else {
        seq![c]
    }
}

/// The characters of a text, each escaped for a JSON string literal.
#[verifier::opaque]
pub open spec fn json_escaped(s: Seq<char>) -> Seq<char>
    decreases s.len(),
{
    if s.len() == 0 {
        Seq::empty()
    } else {
        json_escaped(s.drop_last()) + json_escaped_char(s.last())
    }
}

/// The JSON string literal that holds `text`: its escaped characters between
/// double quotes.
pub open spec fn json_quoted(text: Seq<char>) -> Seq<char> {
    seq!['"'] + json_escaped(text) + seq!['"']
}

/// Relies on serde_json::from_str into a `serde_json::Value` and on the compact
/// `Display` of that value: the result depends on the text alone.
#[verifier::external_body]
pub(crate) fn json_reserialize(text: &str) -> (r: Option<String>)
    ensures
        r.is_some() == json_reserialized_of(text@).is_some(),
        r.is_some() ==> r.unwrap()@ == json_reserialized_of(text@).unwrap(),
{
    serde_json::from_str::<serde_json::Value>(text).ok().map(|v| v.to_string())
}

/// Relies on the compact `Display` of `serde_json::Value::String`, which
/// writes the text between quotes and escapes it as `json_escaped_char` says.
#[verifier::external_body]
pub(crate) fn json_quote(text: &str) -> (r: String)
    ensures
        r@ == json_quoted(text@),
{
    serde_json::Value::String(text.to_owned()).to_string()
}

/// The canonical text of a result body: the body re-serialised where it is
/// JSON, else the body as a JSON string.
pub open spec fn canonical_of(body: Seq<char>) -> Seq<char> {
    match json_reserialized_of(body) {
        Some(t) => t,
        None => json_quoted(body),
    }
}

/// Canonicalises a result body (see `canonical_of`).
pub fn canonical_result(body: &str) -> (r: String)
    ensures
        r@ == canonical_of(body@),
{
    match json_reserialize(body) {
        Some(t) => t,
        None => json_quote(body),
    }
}

} // verus!
