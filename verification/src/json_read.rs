//! Reading the JSON text that [`crate::json`] writes.
//!
//! The readers here are strict: each accepts exactly what the writer of its
//! kind of value produces, and nothing else that JSON would allow. Their
//! contracts say so in terms of the text itself: which literal stands at a
//! position, and that no other one does.

use vstd::prelude::*;
use crate::json::{decimal_digits, escaped, escaped_text, integer_literal, string_literal};
use crate::text::{lemma_stands_at_concat, stands_at};

verus! {

/// The value of a lower-case hexadecimal digit.
spec fn hex_value(c: char) -> Option<int> {
    if '0' <= c <= '9' {
        Some(c as int - 0x30)
    } else if 'a' <= c <= 'f' {
        Some(c as int - 0x57)
    } else {
        None
    }
}

/// The character whose escaped form stands at `pos`, with the length of that
/// form, if there is such a character.
spec fn unescape_at(text: Seq<char>, pos: int) -> Option<(char, int)> {
    if pos < 0 || pos >= text.len() {
        None
    } else if text[pos] == '\\' {
        if pos + 1 >= text.len() {
            None
        } else if text[pos + 1] == '"' {
            Some(('"', 2))
        } else if text[pos + 1] == '\\' {
            Some(('\\', 2))
        } else if text[pos + 1] == 'b' {
            Some(('\u{8}', 2))
        } else if text[pos + 1] == 't' {
            Some(('\t', 2))
        } else if text[pos + 1] == 'n' {
            Some(('\n', 2))
        } else if text[pos + 1] == 'f' {
            Some(('\u{c}', 2))
        } else if text[pos + 1] == 'r' {
            Some(('\r', 2))
        } else if text[pos + 1] == 'u' && pos + 5 < text.len() && text[pos + 2] == '0' && text[pos
            + 3] == '0' && (text[pos + 4] == '0' || text[pos + 4] == '1') && hex_value(
            text[pos + 5],
        ) is Some {
            let code = (text[pos + 4] as int - 0x30) * 16 + hex_value(text[pos + 5]).unwrap();
            if escaped(code as char).len() == 6 {
                Some((code as char, 6))
            } else {
                None
            }
        } else {
            None
        }
    } else if text[pos] == '"' || (text[pos] as u32) < 0x20 {
        None
    } else {
        Some((text[pos], 1))
    }
}

/// What `unescape_at` finds is a character whose escaped form stands there.
proof fn lemma_unescape_sound(text: Seq<char>, pos: int)
    requires
        unescape_at(text, pos) is Some,
    ensures
        stands_at(text, pos, escaped(unescape_at(text, pos).unwrap().0)),
        unescape_at(text, pos).unwrap().1 == escaped(unescape_at(text, pos).unwrap().0).len(),
        text[pos] != '"',
{
    let (c, n) = unescape_at(text, pos).unwrap();
    assert(text.subrange(pos, pos + n) =~= escaped(c));
}

/// Where the escaped form of a character stands, `unescape_at` finds that
/// character.
proof fn lemma_unescape_complete(text: Seq<char>, pos: int, c: char)
    requires
        stands_at(text, pos, escaped(c)),
    ensures
        unescape_at(text, pos) == Some((c, escaped(c).len() as int)),
        text[pos] != '"',
{
    let form = escaped(c);
    let part = text.subrange(pos, pos + form.len());
    assert(part == form);
    assert(text[pos] == part[0]);
    if form.len() >= 2 {
        assert(text[pos + 1] == part[1]);
    }
    if form.len() == 6 {
        assert(text[pos + 2] == part[2]);
        assert(text[pos + 3] == part[3]);
        assert(text[pos + 4] == part[4]);
        assert(text[pos + 5] == part[5]);
    }
}

/// The string whose escaped characters stand from `pos` up to a closing
/// quotation mark, with the position after that mark.
spec fn contents_at(text: Seq<char>, pos: int) -> Option<(Seq<char>, int)>
    decreases text.len() - pos,
{
    if pos < 0 || pos >= text.len() {
        None
    } else if text[pos] == '"' {
        Some((Seq::empty(), pos + 1))
    } else {
        match unescape_at(text, pos) {
            Some((c, n)) => if n >= 1 {
                match contents_at(text, pos + n) {
                    Some((rest, end)) => Some((seq![c] + rest, end)),
                    None => None,
                }
            } else {
                None
            },
            None => None,
        }
    }
}

/// The string whose literal stands at `start`, with the position after it.
spec fn literal_at(text: Seq<char>, start: int) -> Option<(Seq<char>, int)> {
    if 0 <= start < text.len() && text[start] == '"' {
        contents_at(text, start + 1)
    } else {
        None
    }
}

proof fn lemma_contents_sound(text: Seq<char>, pos: int)
    requires
        contents_at(text, pos) is Some,
    ensures
        stands_at(text, pos, escaped_text(contents_at(text, pos).unwrap().0) + seq!['"']),
        contents_at(text, pos).unwrap().1 == pos + escaped_text(
            contents_at(text, pos).unwrap().0,
        ).len() + 1,
    decreases text.len() - pos,
{
    let (s, end) = contents_at(text, pos).unwrap();
    if text[pos] == '"' {
        assert(escaped_text(s) + seq!['"'] =~= seq!['"']);
        assert(text.subrange(pos, pos + 1) =~= seq!['"']);
    } else {
        let (c, n) = unescape_at(text, pos).unwrap();
        let (rest, rest_end) = contents_at(text, pos + n).unwrap();
        lemma_unescape_sound(text, pos);
        lemma_contents_sound(text, pos + n);
        assert(s.drop_first() =~= rest);
        assert(escaped_text(s) + seq!['"'] =~= escaped(c) + (escaped_text(rest) + seq!['"']));
        lemma_stands_at_concat(text, pos, escaped(c), escaped_text(rest) + seq!['"']);
    }
}

proof fn lemma_contents_complete(text: Seq<char>, pos: int, s: Seq<char>)
    requires
        stands_at(text, pos, escaped_text(s) + seq!['"']),
    ensures
        contents_at(text, pos) == Some((s, pos + escaped_text(s).len() + 1)),
    decreases s.len(),
{
    if s.len() == 0 {
        assert(escaped_text(s) + seq!['"'] =~= seq!['"']);
        assert(text.subrange(pos, pos + 1)[0] == '"');
    } else {
        let c = s[0];
        let rest = s.drop_first();
        assert(escaped_text(s) + seq!['"'] =~= escaped(c) + (escaped_text(rest) + seq!['"']));
        lemma_stands_at_concat(text, pos, escaped(c), escaped_text(rest) + seq!['"']);
        lemma_unescape_complete(text, pos, c);
        lemma_contents_complete(text, pos + escaped(c).len(), rest);
        assert(seq![c] + rest =~= s);
    }
}

/// Where `literal_at` finds a string, the literal of that string stands.
proof fn lemma_literal_sound(text: Seq<char>, start: int)
    requires
        literal_at(text, start) is Some,
    ensures
        stands_at(text, start, string_literal(literal_at(text, start).unwrap().0)),
        literal_at(text, start).unwrap().1 == start + string_literal(
            literal_at(text, start).unwrap().0,
        ).len(),
{
    let s = literal_at(text, start).unwrap().0;
    lemma_contents_sound(text, start + 1);
    assert(string_literal(s) =~= seq!['"'] + (escaped_text(s) + seq!['"']));
    assert(text.subrange(start, start + 1) =~= seq!['"']);
    lemma_stands_at_concat(text, start, seq!['"'], escaped_text(s) + seq!['"']);
}

/// Where the literal of a string stands, `literal_at` finds that string.
proof fn lemma_literal_complete(text: Seq<char>, start: int, s: Seq<char>)
    requires
        stands_at(text, start, string_literal(s)),
    ensures
        literal_at(text, start) == Some((s, start + string_literal(s).len())),
{
    assert(string_literal(s) =~= seq!['"'] + (escaped_text(s) + seq!['"']));
    lemma_stands_at_concat(text, start, seq!['"'], escaped_text(s) + seq!['"']);
    assert(text.subrange(start, start + 1)[0] == '"');
    lemma_contents_complete(text, start + 1, s);
}

/// At one place in a text at most one string has its literal standing: no
/// string literal is the beginning of another.
pub proof fn lemma_string_literal_unique(text: Seq<char>, start: int, a: Seq<char>, b: Seq<char>)
    requires
        stands_at(text, start, string_literal(a)),
        stands_at(text, start, string_literal(b)),
    ensures
        a == b,
{
    lemma_literal_complete(text, start, a);
    lemma_literal_complete(text, start, b);
}

/// Finds the character whose escaped form stands at `pos`.
fn unescape(text: &Vec<char>, pos: usize) -> (found: Option<(char, usize)>)
    requires
        pos < text.len(),
    ensures
        match unescape_at(text@, pos as int) {
            Some((c, n)) => found == Some((c, n as usize)),
            None => found is None,
        },
{
    let len = text.len();
    let c = text[pos];
    if c == '\\' {
        if len - pos < 2 {
            return None;
        }
        let e = text[pos + 1];
        if e == '"' {
            Some(('"', 2))
        } else if e == '\\' {
            Some(('\\', 2))
        } else if e == 'b' {
            Some(('\u{8}', 2))
        } else if e == 't' {
            Some(('\t', 2))
        } else if e == 'n' {
            Some(('\n', 2))
        } else if e == 'f' {
            Some(('\u{c}', 2))
        } else if e == 'r' {
            Some(('\r', 2))
        } else if e == 'u' {
            if len - pos < 6 {
                return None;
            }
            let high = text[pos + 4];
            let low = text[pos + 5];
            if text[pos + 2] != '0' || text[pos + 3] != '0' || (high != '0' && high != '1') {
                return None;
            }
            let low_value: u8 = if '0' <= low && low <= '9' {
                (low as u32 - 0x30) as u8
            } else if 'a' <= low && low <= 'f' {
                (low as u32 - 0x57) as u8
            } else {
                return None;
            };
            let high_value: u8 = if high == '1' {
                16
            } else {
                0
            };
            let code: u8 = high_value + low_value;
            if code == 8 || code == 9 || code == 10 || code == 12 || code == 13 {
                None
            } else {
                Some((code as char, 6))
            }
        } else {
            None
        }
    } else if c == '"' || (c as u32) < 0x20 {
        None
    } else {
        Some((c, 1))
    }
}

/// Where `literal_at` finds no string, the literal of no string stands.
proof fn lemma_literal_absent(text: Seq<char>, start: int)
    requires
        literal_at(text, start) is None,
    ensures
        forall|value: Seq<char>| !stands_at(text, start, #[trigger] string_literal(value)),
{
    assert forall|value: Seq<char>| !stands_at(text, start, #[trigger] string_literal(value)) by {
        if stands_at(text, start, string_literal(value)) {
            lemma_literal_complete(text, start, value);
        }
    }
}

/// What was read so far, followed by what is still to be read.
spec fn continued(read: Seq<char>, rest: Option<(Seq<char>, int)>) -> Option<(Seq<char>, int)> {
    match rest {
        Some((tail, end)) => Some((read + tail, end)),
        None => None,
    }
}

/// Reads the string literal that stands in `text` at `start`.
///
/// Where the literal of some string stands there, the outcome is that string
/// and the position after its literal. Where none does, there is no outcome.
/// No two strings have their literals standing at one place
/// (`lemma_string_literal_unique`), so the string is the only one.
pub fn read_string_literal(text: &Vec<char>, start: usize) -> (found: Option<(String, usize)>)
    ensures
        match found {
            Some((value, end)) => stands_at(text@, start as int, string_literal(value@)) && end
                == start + string_literal(value@).len(),
            None => forall|value: Seq<char>|
                !stands_at(text@, start as int, #[trigger] string_literal(value)),
        },
{
    let len = text.len();
    if start >= len || text[start] != '"' {
        proof {
            lemma_literal_absent(text@, start as int);
        }
        return None;
    }
    let mut value = String::new();
    let mut i: usize = start + 1;
    proof {
        let rest = contents_at(text@, i as int);
        assert(rest is Some ==> Seq::<char>::empty() + rest.unwrap().0 =~= rest.unwrap().0);
    }
    while i < len
        invariant
            len == text.len(),
            start < i <= len,
            literal_at(text@, start as int) == continued(value@, contents_at(text@, i as int)),
        decreases len - i,
    {
        if text[i] == '"' {
            proof {
                assert(value@ + Seq::<char>::empty() =~= value@);
                lemma_literal_sound(text@, start as int);
            }
            return Some((value, i + 1));
        }
        match unescape(text, i) {
            Some((c, n)) => {
                proof {
                    lemma_unescape_sound(text@, i as int);
                    let rest = contents_at(text@, i + n);
                    assert(rest is Some ==> value@.push(c) + rest.unwrap().0 =~= value@ + (seq![c]
                        + rest.unwrap().0));
                }
                value.push(c);
                i = i + n;
            },
            None => {
                proof {
                    lemma_literal_absent(text@, start as int);
                }
                return None;
            },
        }
    }
    proof {
        lemma_literal_absent(text@, start as int);
    }
    None
}

/// Whether `c` is a decimal digit.
pub open spec fn is_digit(c: char) -> bool {
    '0' <= c <= '9'
}

/// Whether a number that stops before `end` stops for good: the text is over
/// there, or what follows is no digit.
pub open spec fn number_ends(text: Seq<char>, end: int) -> bool {
    end >= text.len() || !is_digit(text[end])
}

spec fn all_digits(s: Seq<char>) -> bool {
    forall|i: int| 0 <= i < s.len() ==> is_digit(#[trigger] s[i])
}

/// The number that a sequence of decimal digits denotes.
spec fn digits_value(s: Seq<char>) -> nat
    decreases s.len(),
{
    if s.len() == 0 {
        0
    } else {
        digits_value(s.drop_last()) * 10 + (s.last() as int - 0x30) as nat
    }
}

proof fn lemma_decimal_digits(n: nat)
    ensures
        decimal_digits(n).len() >= 1,
        all_digits(decimal_digits(n)),
        decimal_digits(n)[0] == '0' <==> n == 0,
        n == 0 ==> decimal_digits(n).len() == 1,
        digits_value(decimal_digits(n)) == n,
    decreases n,
{
    if n < 10 {
        let s = decimal_digits(n);
        assert(s.drop_last() =~= Seq::<char>::empty());
        assert(digits_value(s.drop_last()) == 0);
    } else {
        lemma_decimal_digits(n / 10);
        let s = decimal_digits(n);
        let head = decimal_digits(n / 10);
        assert(s.drop_last() =~= head);
        assert(s[0] == head[0]);
    }
}

/// Digits without a leading zero are the decimal digits of their value.
proof fn lemma_canonical_digits(s: Seq<char>)
    requires
        s.len() >= 1,
        all_digits(s),
        s[0] != '0' || s.len() == 1,
    ensures
        decimal_digits(digits_value(s)) == s,
        s[0] != '0' ==> digits_value(s) >= 1,
    decreases s.len(),
{
    let head = s.drop_last();
    let last = (s.last() as int - 0x30) as nat;
    assert(is_digit(s[s.len() - 1]));
    if s.len() == 1 {
        assert(digits_value(head) == 0);
        assert(decimal_digits(last) =~= s);
    } else {
        assert(all_digits(head)) by {
            assert forall|i: int| 0 <= i < head.len() implies is_digit(#[trigger] head[i]) by {
                assert(head[i] == s[i]);
            }
        }
        lemma_canonical_digits(head);
        assert(digits_value(s) == digits_value(head) * 10 + last);
        assert(decimal_digits(digits_value(s)) =~= head.push(s.last()));
    }
}

/// The end of the digits that begin at `pos`.
spec fn run_end(text: Seq<char>, pos: int) -> int
    decreases text.len() - pos,
{
    if pos < 0 || pos >= text.len() || !is_digit(text[pos]) {
        pos
    } else {
        run_end(text, pos + 1)
    }
}

proof fn lemma_run_end(text: Seq<char>, pos: int)
    requires
        0 <= pos <= text.len(),
    ensures
        pos <= run_end(text, pos) <= text.len(),
        all_digits(text.subrange(pos, run_end(text, pos))),
        number_ends(text, run_end(text, pos)),
        forall|end: int|
            pos <= end <= text.len() && all_digits(#[trigger] text.subrange(pos, end))
                && number_ends(text, end) ==> end == run_end(text, pos),
    decreases text.len() - pos,
{
    let stop = run_end(text, pos);
    if pos < text.len() && is_digit(text[pos]) {
        lemma_run_end(text, pos + 1);
        assert forall|i: int| 0 <= i < stop - pos implies is_digit(
            #[trigger] text.subrange(pos, stop)[i],
        ) by {
            if i > 0 {
                assert(text.subrange(pos, stop)[i] == text.subrange(pos + 1, stop)[i - 1]);
            }
        }
        assert forall|end: int|
            pos <= end <= text.len() && all_digits(#[trigger] text.subrange(pos, end))
                && number_ends(text, end) implies end == stop by {
            assert(end > pos);
            assert forall|i: int| 0 <= i < end - (pos + 1) implies is_digit(
                #[trigger] text.subrange(pos + 1, end)[i],
            ) by {
                assert(text.subrange(pos + 1, end)[i] == text.subrange(pos, end)[i + 1]);
            }
            assert(all_digits(text.subrange(pos + 1, end)));
        }
    } else {
        assert forall|end: int|
            pos <= end <= text.len() && all_digits(#[trigger] text.subrange(pos, end))
                && number_ends(text, end) implies end == stop by {
            if end > pos {
                assert(is_digit(text.subrange(pos, end)[0]));
            }
        }
    }
}

/// The integer whose literal stands at `start` and stops for good, with the
/// position after it.
spec fn integer_at(text: Seq<char>, start: int) -> Option<(int, int)> {
    if start < 0 || start >= text.len() {
        None
    } else {
        let negative = text[start] == '-';
        let first = if negative {
            start + 1
        } else {
            start
        };
        let end = run_end(text, first);
        let digits = text.subrange(first, end);
        let magnitude = digits_value(digits);
        if end == first {
            None
        } else if digits[0] == '0' && end - first > 1 {
            None
        } else if negative {
            if magnitude == 0 || magnitude > 0x8000_0000 {
                None
            } else {
                Some((-magnitude, end))
            }
        } else if magnitude > 0x7fff_ffff {
            None
        } else {
            Some((magnitude as int, end))
        }
    }
}

proof fn lemma_integer_sound(text: Seq<char>, start: int)
    requires
        integer_at(text, start) is Some,
    ensures
        -0x8000_0000 <= integer_at(text, start).unwrap().0 <= 0x7fff_ffff,
        stands_at(text, start, integer_literal(integer_at(text, start).unwrap().0)),
        integer_at(text, start).unwrap().1 == start + integer_literal(
            integer_at(text, start).unwrap().0,
        ).len(),
        number_ends(text, integer_at(text, start).unwrap().1),
{
    let (value, end) = integer_at(text, start).unwrap();
    let negative = text[start] == '-';
    let first = if negative {
        start + 1
    } else {
        start
    };
    lemma_run_end(text, first);
    let digits = text.subrange(first, end);
    lemma_canonical_digits(digits);
    if negative {
        assert(text.subrange(start, end) =~= seq!['-'] + digits);
    }
}

proof fn lemma_integer_complete(text: Seq<char>, start: int, value: int)
    requires
        -0x8000_0000 <= value <= 0x7fff_ffff,
        stands_at(text, start, integer_literal(value)),
        number_ends(text, start + integer_literal(value).len()),
    ensures
        integer_at(text, start) == Some((value, start + integer_literal(value).len())),
{
    let literal = integer_literal(value);
    let magnitude: nat = if value < 0 {
        (-value) as nat
    } else {
        value as nat
    };
    let digits = decimal_digits(magnitude);
    lemma_decimal_digits(magnitude);
    let first = if value < 0 {
        start + 1
    } else {
        start
    };
    let end = start + literal.len();
    assert(text.subrange(start, end)[0] == literal[0]);
    assert(is_digit(digits[0]));
    assert(text.subrange(first, end) =~= digits) by {
        if value < 0 {
            assert(text.subrange(first, end) =~= text.subrange(start, end).subrange(
                1,
                literal.len() as int,
            ));
        }
    }
    lemma_run_end(text, first);
}

/// At one place in a text at most one integer literal stands and stops for
/// good.
pub proof fn lemma_integer_literal_unique(text: Seq<char>, start: int, a: i32, b: i32)
    requires
        stands_at(text, start, integer_literal(a as int)),
        number_ends(text, start + integer_literal(a as int).len()),
        stands_at(text, start, integer_literal(b as int)),
        number_ends(text, start + integer_literal(b as int).len()),
    ensures
        a == b,
{
    lemma_integer_complete(text, start, a as int);
    lemma_integer_complete(text, start, b as int);
}

/// Reads the integer literal that stands in `text` at `start` and stops for
/// good.
///
/// Where the literal of some `i32` stands there, with no digit after it, the
/// outcome is that integer and the position after its literal; no other
/// integer has such a literal there. Where none does, there is no outcome.
pub fn read_integer_literal(text: &Vec<char>, start: usize) -> (found: Option<(i32, usize)>)
    ensures
        match found {
            Some((value, end)) => stands_at(text@, start as int, integer_literal(value as int))
                && end == start + integer_literal(value as int).len() && number_ends(
                text@,
                end as int,
            ),
            None => forall|value: i32|
                !(stands_at(text@, start as int, #[trigger] integer_literal(value as int))
                    && number_ends(text@, start + integer_literal(value as int).len())),
        },
{
    let len = text.len();
    let mut found: Option<(i32, usize)> = None;
    if start < len {
        let negative = text[start] == '-';
        let first = if negative {
            start + 1
        } else {
            start
        };
        let mut i = first;
        let mut magnitude: u64 = 0;
        let mut too_big = false;
        assert(text@.subrange(first as int, i as int) =~= Seq::<char>::empty());
        while i < len && '0' <= text[i] && text[i] <= '9'
            invariant
                len == text.len(),
                first <= i <= len,
                run_end(text@, first as int) == run_end(text@, i as int),
                !too_big ==> magnitude == digits_value(text@.subrange(first as int, i as int))
                    && magnitude <= 0x8000_0000,
                too_big ==> digits_value(text@.subrange(first as int, i as int)) > 0x8000_0000,
            decreases len - i,
        {
            let digit = (text[i] as u32 - 0x30) as u64;
            proof {
                let longer = text@.subrange(first as int, i + 1);
                assert(longer.drop_last() =~= text@.subrange(first as int, i as int));
                assert(longer.last() == text@[i as int]);
            }
            if !too_big {
                magnitude = magnitude * 10 + digit;
                if magnitude > 0x8000_0000 {
                    too_big = true;
                }
            }
            i = i + 1;
        }
        if i == first {
        } else if text[first] == '0' && i - first > 1 {
        } else if too_big {
        } else if negative {
            if magnitude != 0 {
                found = Some(((0 - magnitude as i64) as i32, i));
            }
        } else if magnitude <= 0x7fff_ffff {
            found = Some((magnitude as i32, i));
        }
        assert(i > first ==> text@.subrange(first as int, i as int)[0] == text@[first as int]);
    }
    proof {
        assert(match integer_at(text@, start as int) {
            Some((value, end)) => found == Some((value as i32, end as usize)),
            None => found is None,
        });
        if found is Some {
            lemma_integer_sound(text@, start as int);
        } else {
            assert forall|value: i32|
                !(stands_at(text@, start as int, #[trigger] integer_literal(value as int))
                    && number_ends(text@, start + integer_literal(value as int).len())) by {
                if stands_at(text@, start as int, integer_literal(value as int)) && number_ends(
                    text@,
                    start + integer_literal(value as int).len(),
                ) {
                    lemma_integer_complete(text@, start as int, value as int);
                }
            }
        }
    }
    found
}

} // verus!
