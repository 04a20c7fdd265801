//! How a category's keyword lists are stored: as JSON arrays of strings.

use vstd::prelude::*;

use crate::keys::hex_digit;

verus! {

/// How one character appears inside a JSON string written by serde_json:
/// `"` and `\` behind a backslash, the control characters below U+0020 as
/// `\b`, `\t`, `\n`, `\f`, `\r` or `\u00xx` (lowercase hex), anything else
/// as itself.
pub open spec fn json_char(c: char) -> Seq<char> {
    let u = c as u32;
    if c == '"' {
        seq!['\\', '"']
    } else if c == '\\' {
        seq!['\\', '\\']
    } else if u == 0x08 {
        seq!['\\', 'b']
    } else if u == 0x09 {
        seq!['\\', 't']
    } else if u == 0x0a {
        seq!['\\', 'n']
    } else if u == 0x0c {
        seq!['\\', 'f']
    } else if u == 0x0d {
        seq!['\\', 'r']
    } else if u < 0x20 {
        seq!['\\', 'u', '0', '0', hex_digit((u / 16) as nat), hex_digit((u % 16) as nat)]
    } else {
        seq![c]
    }
}

/// The characters of `s`, each escaped as inside a JSON string.
pub open spec fn json_escape(s: Seq<char>) -> Seq<char>
    decreases s.len(),
{
    if s.len() == 0 {
        seq![]
    } else {
        json_escape(s.drop_last()) + json_char(s.last())
    }
}

/// `s` as a JSON string literal.
pub open spec fn json_string(s: Seq<char>) -> Seq<char> {
    seq!['"'] + json_escape(s) + seq!['"']
}

/// The string literals of `items`, separated by commas.
pub open spec fn json_items(items: Seq<Seq<char>>) -> Seq<char>
    decreases items.len(),
{
    if items.len() == 0 {
        seq![]
    } else if items.len() == 1 {
        json_string(items[0])
    } else {
        json_items(items.drop_last()) + seq![','] + json_string(items.last())
    }
}

/// The compact JSON array of the strings `items`, as serde_json writes it.
pub open spec fn json_list(items: Seq<Seq<char>>) -> Seq<char> {
    seq!['['] + json_items(items) + seq![']']
}

/// What `serde_json::from_str::<Vec<String>>` returns for a text, `None` for
/// an error.
pub uninterp spec fn strings_of_json(text: Seq<char>) -> Option<Seq<Seq<char>>>;

/// Calls `serde_json::to_string` on a list of strings. serde_json's compact
/// formatter writes `[`, the string literals separated by `,`, and `]`,
/// escaping each string by its `ESCAPE` table; serialising strings into a
/// `String` does not fail.
#[verifier::external_body]
fn to_json_strings(items: &Vec<String>) -> (r: Option<String>)
    ensures
        r.deep_view() == Some(json_list(items.deep_view())),
{
    match serde_json::to_string(items) {
        Ok(s) => Some(s),
        Err(_) => None,
    }
}

/// Calls `serde_json::from_str` for a list of strings. The result is named:
/// parsing depends on the text alone. A text that serde_json itself writes
/// for a list of strings parses back to that list.
#[verifier::external_body]
fn from_json_strings(text: &str) -> (r: Option<Vec<String>>)
    ensures
        r.deep_view() == strings_of_json(text@),
        forall|v: Seq<Seq<char>>| text@ == json_list(v) ==> r.deep_view() == Some(v),
{
    match serde_json::from_str::<Vec<String>>(text) {
        Ok(v) => Some(v),
        Err(_) => None,
    }
}

/// The stored form of a keyword list: its JSON text.
pub fn encode_keywords(keywords: &Vec<String>) -> (r: String)
    ensures
        r@ == json_list(keywords.deep_view()),
{
    match to_json_strings(keywords) {
        Some(t) => t,
        None => String::from_str("[]"),
    }
}

/// A keyword list read back from its stored form: the strings of the JSON
/// array, or no keywords when the text is not one. Reading back what
/// `encode_keywords` stored gives the same list.
pub fn decode_keywords(text: &str) -> (r: Vec<String>)
    ensures
        r.deep_view() == match strings_of_json(text@) {
            Some(v) => v,
            None => Seq::<Seq<char>>::empty(),
        },
        forall|v: Seq<Seq<char>>| text@ == json_list(v) ==> r.deep_view() == v,
{
    match from_json_strings(text) {
        Some(v) => v,
        None => {
            let v: Vec<String> = Vec::new();
            assert(v.deep_view() =~= Seq::<Seq<char>>::empty());
            v
        },
    }
}

} // verus!
