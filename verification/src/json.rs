//! JSON text for the two kinds of value an event holds: strings and
//! integers.
//!
//! Writing is `serde_json`'s work. What it writes for a string and for an
//! `i32` is stated here in full, as [`string_literal`] and
//! [`integer_literal`], so that the readers in [`crate::json_read`] can be
//! proved to accept exactly that text and to give back the value it was
//! written from.

use vstd::prelude::*;

verus! {

/// The lower-case hexadecimal digit for `n`, where `0 <= n < 16`.
pub open spec fn hex_digit(n: int) -> char {
    if n < 10 {
        (0x30 + n) as char
    } else {
        (0x57 + n) as char
    }
}

/// The decimal digit for `n`, where `0 <= n < 10`.
pub open spec fn decimal_digit(n: int) -> char {
    (0x30 + n) as char
}

/// How one character of a string stands inside a JSON string literal.
///
/// The quotation mark, the backslash and the control characters below
/// U+0020 are escaped: seven of them by a backslash and one letter, the
/// other control characters as `\u00` and two lower-case hexadecimal digits.
/// Every other character stands for itself.
pub open spec fn escaped(c: char) -> Seq<char> {
    if c == '"' {
        seq!['\\', '"']
    } else if c == '\\' {
        seq!['\\', '\\']
    } else if c == '\u{8}' {
        seq!['\\', 'b']
    } else if c == '\t' {
        seq!['\\', 't']
    } else if c == '\n' {
        seq!['\\', 'n']
    } else if c == '\u{c}' {
        seq!['\\', 'f']
    } else if c == '\r' {
        seq!['\\', 'r']
    } else if (c as u32) < 0x20 {
        seq!['\\', 'u', '0', '0', hex_digit(c as int / 16), hex_digit(c as int % 16)]
    } else {
        seq![c]
    }
}

/// The characters of `s`, each as it stands inside a JSON string literal.
pub open spec fn escaped_text(s: Seq<char>) -> Seq<char>
    decreases s.len(),
{
    if s.len() == 0 {
        Seq::empty()
    } else {
        escaped(s[0]) + escaped_text(s.drop_first())
    }
}

/// The JSON string literal for `s`: its escaped characters between two
/// quotation marks.
pub open spec fn string_literal(s: Seq<char>) -> Seq<char> {
    seq!['"'] + escaped_text(s) + seq!['"']
}

/// The decimal digits of `n`, without leading zeros.
pub open spec fn decimal_digits(n: nat) -> Seq<char>
    decreases n,
{
    if n < 10 {
        seq![decimal_digit(n as int)]
    } else {
        decimal_digits(n / 10).push(decimal_digit((n % 10) as int))
    }
}

/// The JSON number for the integer `i`: its decimal digits, after a minus
/// sign where it is negative.
pub open spec fn integer_literal(i: int) -> Seq<char> {
    if i < 0 {
        seq!['-'] + decimal_digits((-i) as nat)
    } else {
        decimal_digits(i as nat)
    }
}

/// Calls `serde_json::to_string` on a string slice.
///
/// The call reports an error only where the value's own serialisation fails
/// or a map has a key that is no string; a string slice is neither, so the
/// text is always there. It is the string literal that `string_literal`
/// states: `serde_json` writes a quotation mark, then each character as
/// `escaped` gives it, then a quotation mark.
#[verifier::external_body]
fn to_string_literal(value: &str) -> (text: Option<String>)
    ensures
        text is Some,
        text.unwrap()@ == string_literal(value@),
{
    serde_json::to_string(value).ok()
}

/// Calls `serde_json::to_string` on an `i32`.
///
/// The call cannot fail for an integer. The text is the integer in decimal
/// digits, with a minus sign before a negative one and no sign otherwise.
#[verifier::external_body]
fn to_integer_literal(value: i32) -> (text: Option<String>)
    ensures
        text is Some,
        text.unwrap()@ == integer_literal(value as int),
{
    serde_json::to_string(&value).ok()
}

/// Writes `value` as a JSON string literal.
pub fn write_string_literal(value: &str) -> (text: String)
    ensures
        text@ == string_literal(value@),
{
    to_string_literal(value).unwrap()
}

/// Writes `value` as a JSON number.
pub fn write_integer_literal(value: i32) -> (text: String)
    ensures
        text@ == integer_literal(value as int),
{
    to_integer_literal(value).unwrap()
}

} // verus!
