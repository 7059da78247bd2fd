//! Strings written as JSON string literals, by `serde_json`.

use vstd::prelude::*;

verus! {

/// The hexadecimal digit for `d`, which is below sixteen, in lower case.
pub open spec fn hex_digit(d: int) -> char {
    if d < 10 {
        ((48 + d) as u32) as char
    } else {
        ((87 + d) as u32) as char
    }
}

/// How a JSON string literal writes the character `c`: a quote, a
/// backslash and the control characters are escaped (those with a short
/// escape by it, the rest as `\u00` and two hexadecimal digits); every other
/// character stands for itself.
pub open spec fn json_escape_char(c: char) -> Seq<char> {
    if c == '"' {
        seq!['\\', '"']
    } else if c == '\\' {
        seq!['\\', '\\']
    } else if c == '\x08' {
        seq!['\\', 'b']
    } else if c == '\t' {
        seq!['\\', 't']
    } else if c == '\n' {
        seq!['\\', 'n']
    } else if c == '\x0c' {
        seq!['\\', 'f']
    } else if c == '\r' {
        seq!['\\', 'r']
    } else if (c as int) < 0x20 {
        seq!['\\', 'u', '0', '0', hex_digit((c as int) / 16), hex_digit((c as int) % 16)]
    } else {
        seq![c]
    }
}

/// The characters of `s`, each written as a JSON string literal writes it.
pub open spec fn json_escape(s: Seq<char>) -> Seq<char>
    decreases s.len(),
{
    if s.len() == 0 {
        Seq::empty()
    } else {
        json_escape(s.drop_last()) + json_escape_char(s.last())
    }
}

/// `s` as a JSON string literal: in double quotes, escaped.
pub open spec fn json_string(s: Seq<char>) -> Seq<char> {
    seq!['"'] + json_escape(s) + seq!['"']
}

/// `serde_json::to_string` on a string: the string as a JSON string
/// literal. The source writes a quote, then each run of characters that
/// need no escape as it is and each byte of its escape table as its escape
/// (`\"`, `\\`, `\b`, `\t`, `\n`, `\f`, `\r`, or `\u00` with two lower-case
/// hexadecimal digits for the other bytes below 0x20), then a quote. The
/// only failure it can report is one of the writer, and it writes into a
/// `Vec<u8>`, whose writes do not fail, so the error arm is not reached.
#[verifier::external_body]
pub(crate) fn to_json_string(s: &str) -> (r: String)
    ensures
        r@ == json_string(s@),
{
    serde_json::to_string(s).expect("invalid json to_string")
}

} // verus!
