//! JSON, as `serde_json` writes it.
use serde_json::Value as JsonTree;
use vstd::prelude::*;

verus! {

/// The tree that `serde_json` holds a JSON document in.
#[verifier::external_type_specification]
#[verifier::external_body]
pub struct ExJsonTree(JsonTree);

/// The error of `serde_json`.
#[verifier::external_type_specification]
#[verifier::external_body]
pub struct ExJsonError(serde_json::Error);

/// The bytes that `serde_json` writes a document as.
pub uninterp spec fn json_encoding(tree: JsonTree) -> Seq<u8>;

/// Calls `serde_json::to_vec` on a document. It always succeeds: the keys of an object are texts, and
/// bytes in memory take whatever is written. What it writes is a function of the document alone.
#[verifier::external_body]
pub(crate) fn encode_json(tree: &JsonTree) -> (r: Result<Vec<u8>, serde_json::Error>)
    ensures
        r is Ok,
        r matches Ok(bytes) ==> bytes@ == json_encoding(*tree),
{
    serde_json::to_vec(tree)
}

/// The hexadecimal digit of a number under sixteen.
pub open spec fn hex_digit(n: int) -> char {
    if n < 10 {
        (48 + n) as char
    } else {
        (87 + n) as char
    }
}

/// A character as it stands in a JSON string: the quote, the backslash and the control characters
/// are escaped.
pub open spec fn json_char(c: char) -> Seq<char> {
    if c == '"' {
        seq!['\\', '"']
    } else if c == '\\' {
        seq!['\\', '\\']
    } else if c as u32 == 8 {
        seq!['\\', 'b']
    } else if c as u32 == 9 {
        seq!['\\', 't']
    } else if c as u32 == 10 {
        seq!['\\', 'n']
    } else if c as u32 == 12 {
        seq!['\\', 'f']
    } else if c as u32 == 13 {
        seq!['\\', 'r']
    } else if (c as u32) < 32 {
        seq![
            '\\',
            'u',
            '0',
            '0',
            hex_digit((c as u32 / 16) as int),
            hex_digit((c as u32 % 16) as int),
        ]
    } else {
        seq![c]
    }
}

/// A text as a JSON string.
pub open spec fn json_string(s: Seq<char>) -> Seq<char> {
    seq!['"'] + crate::text::replaced(s, |c: char| json_char(c)) + seq!['"']
}

/// Calls `serde_json::to_string` on a text. It always writes the text in double quotes, with the
/// quote, the backslash and the control characters escaped and every other character as it is.
#[verifier::external_body]
fn encode_text(s: &str) -> (r: Result<String, serde_json::Error>)
    ensures
        r is Ok,
        r matches Ok(t) ==> t@ == json_string(s@),
{
    serde_json::to_string(s)
}

/// A text as a JSON string.
pub fn quote_json(s: &str) -> (r: String)
    ensures
        r@ == json_string(s@),
{
    match encode_text(s) {
        Ok(t) => t,
        Err(_) => String::new(),
    }
}

} // verus!
