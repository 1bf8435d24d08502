//! The body posted for one delivery: `{"content":"@everyone <message>"}`.
use vstd::prelude::*;
use vstd::string::StringExecFns;

verus! {

/// Lower-case hexadecimal digit of `n`, for `0 <= n < 16`.
pub open spec fn hex_digit(n: int) -> char {
    seq!['0', '1', '2', '3', '4', '5', '6', '7', '8', '9', 'a', 'b', 'c', 'd', 'e', 'f'][n]
}

/// How one character stands inside a JSON string literal: quote and
/// backslash escaped, the short escapes for backspace, tab, line feed, form
/// feed and carriage return, `\u00xx` for the other control characters below
/// U+0020, and every other character as itself.
pub open spec fn escape_char(c: char) -> Seq<char> {
    if c == '"' {
        seq!['\\', '"']
    } else if c == '\\' {
        seq!['\\', '\\']
    } else if c == '\u{8}' {
        seq!['\\', 'b']
    } else if c == '\t' {
        seq!['\\', 't']
    } else if c == '\n' {
        seq!['\\', 'n']
    } else if c == '\u{c}' {
        seq!['\\', 'f']
    } else if c == '\r' {
        seq!['\\', 'r']
    } else if (c as int) < 0x20 {
        seq!['\\', 'u', '0', '0', hex_digit(c as int / 16), hex_digit(c as int % 16)]
    } else {
        seq![c]
    }
}

/// The characters of `s`, each escaped.
pub open spec fn escape_text(s: Seq<char>) -> Seq<char>
    decreases s.len(),
{
    if s.len() == 0 {
        seq![]
    } else {
        escape_text(s.drop_last()) + escape_char(s.last())
    }
}

/// The JSON string literal of a text.
pub open spec fn json_quote(s: Seq<char>) -> Seq<char> {
    seq!['"'] + escape_text(s) + seq!['"']
}

/// Relies on `serde_json::to_string` applied to a `str`: the text as one JSON
/// string literal, which is always produced (the writer is a `Vec<u8>`).
#[verifier::external_body]
fn json_string(s: &str) -> (r: Option<String>)
    ensures
        r is Some,
        r matches Some(j) ==> j@ == json_quote(s@),
{
    serde_json::to_string(s).ok()
}

/// The text that is posted: the message, addressed to everyone.
pub open spec fn mention(message: Seq<char>) -> Seq<char> {
    "@everyone "@ + message
}

/// The JSON object around an already quoted content string.
pub open spec fn payload_of(quoted: Seq<char>) -> Seq<char> {
    "{\"content\":"@ + quoted + "}"@
}

/// The text posted for `message`.
pub fn mention_text(message: &str) -> (r: String)
    ensures
        r@ == mention(message@),
{
    let mut s = String::from_str("@everyone ");
    s.append(message);
    s
}

/// Wraps a JSON string literal as the `content` field of an object.
pub fn frame_payload(quoted: &str) -> (r: String)
    ensures
        r@ == payload_of(quoted@),
{
    let mut s = String::from_str("{\"content\":");
    s.append(quoted);
    s.append("}");
    s
}

/// The request body for `message`.
pub fn delivery_body(message: &str) -> (r: String)
    ensures
        r@ == payload_of(json_quote(mention(message@))),
{
    let text = mention_text(message);
    match json_string(text.as_str()) {
        Some(q) => frame_payload(q.as_str()),
        None => String::new(),
    }
}

} // verus!
