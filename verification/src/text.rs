//! Characters in sequence: taking a string apart into its characters, and
//! telling where one sequence of characters stands in another.

use vstd::prelude::*;

verus! {

/// `String::push` appends one character to the end of the string.
pub assume_specification[ String::push ](text: &mut String, c: char)
    ensures
        final(text)@ == old(text)@.push(c),
;

/// Whether `pattern` stands in `text` from position `start` on.
pub open spec fn stands_at(text: Seq<char>, start: int, pattern: Seq<char>) -> bool {
    &&& 0 <= start
    &&& start + pattern.len() <= text.len()
    &&& text.subrange(start, start + pattern.len()) == pattern
}

/// Two patterns stand one after the other exactly where their concatenation
/// stands.
pub proof fn lemma_stands_at_concat(text: Seq<char>, start: int, a: Seq<char>, b: Seq<char>)
    ensures
        stands_at(text, start, a + b) <==> stands_at(text, start, a) && stands_at(
            text,
            start + a.len(),
            b,
        ),
{
    if stands_at(text, start, a + b) {
        let whole = text.subrange(start, start + (a + b).len());
        assert(text.subrange(start, start + a.len()) =~= whole.subrange(0, a.len() as int));
        assert(whole.subrange(0, a.len() as int) =~= a);
        assert(text.subrange(start + a.len(), start + a.len() + b.len()) =~= whole.subrange(
            a.len() as int,
            (a + b).len() as int,
        ));
        assert(whole.subrange(a.len() as int, (a + b).len() as int) =~= b);
    }
    if stands_at(text, start, a) && stands_at(text, start + a.len(), b) {
        assert(text.subrange(start, start + (a + b).len()) =~= text.subrange(
            start,
            start + a.len(),
        ) + text.subrange(start + a.len(), start + a.len() + b.len()));
    }
}

/// The characters of `text`, one by one.
pub fn chars_of(text: &str) -> (chars: Vec<char>)
    ensures
        chars@ == text@,
{
    let mut chars: Vec<char> = Vec::new();
    for c in it: text.chars()
        invariant
            chars@ == it.seq().take(it.index()),
    {
        chars.push(c);
    }
    chars
}

/// Tells whether `pattern` stands in `text` at `start`.
pub fn has_at(text: &Vec<char>, start: usize, pattern: &Vec<char>) -> (found: bool)
    ensures
        found == stands_at(text@, start as int, pattern@),
{
    let wanted = pattern.len();
    if start > text.len() || text.len() - start < wanted {
        return false;
    }
    let mut j: usize = 0;
    while j < wanted
        invariant
            wanted == pattern.len(),
            j <= wanted,
            start + wanted <= text.len(),
            forall|k: int| 0 <= k < j ==> text@[start + k] == pattern@[k],
        decreases wanted - j,
    {
        if text[start + j] != pattern[j] {
            assert(text@.subrange(start as int, start + wanted)[j as int] != pattern@[j as int]);
            return false;
        }
        j = j + 1;
    }
    assert(text@.subrange(start as int, start + wanted) =~= pattern@);
    true
}

} // verus!
