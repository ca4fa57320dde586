//! Work on the characters of a text.

use vstd::prelude::*;
use vstd::string::*;

verus! {

/// How often `c` stands in `text`.
pub open spec fn occurrences(text: Seq<char>, c: char) -> nat
    decreases text.len(),
{
    if text.len() == 0 {
        0
    } else {
        occurrences(text.drop_last(), c) + if text.last() == c {
            1nat
        } else {
            0nat
        }
    }
}

/// How often `c` stands in `text`, as far as an `i64` counts.
pub open spec fn counted(text: Seq<char>, c: char) -> int {
    if occurrences(text, c) <= i64::MAX {
        occurrences(text, c) as int
    } else {
        i64::MAX as int
    }
}

/// `String::push`: the text with `c` added at its end.
#[verifier::external_body]
pub(crate) fn push_char(text: &mut String, c: char)
    ensures
        final(text)@ == old(text)@.push(c),
{
    text.push(c);
}

/// The characters of `text`, in order.
pub fn chars_of(text: &str) -> (r: Vec<char>)
    ensures
        r@ == text@,
{
    let mut out: Vec<char> = Vec::new();
    for c in it: text.chars()
        invariant
            out@ == it.seq().take(it.index()),
            it.seq() == text@,
    {
        out.push(c);
    }
    out
}

/// Whether the two texts hold the same characters.
pub fn text_is(text: &str, word: &str) -> (r: bool)
    ensures
        r == (text@ == word@),
{
    let a = String::from_str(text);
    let b = String::from_str(word);
    a == b
}

/// How often `c` stands in `s`, and `i64::MAX` where that is more than an
/// `i64` holds.
pub fn count_chars(s: &String, c: char) -> (acc: i64)
    ensures
        acc == counted(s@, c),
{
    let chars = chars_of(s.as_str());
    let mut acc: i64 = 0;
    let mut i: usize = 0;
    while i < chars.len()
        invariant
            i <= chars.len(),
            chars@ == s@,
            acc == counted(chars@.take(i as int), c),
        decreases chars.len() - i,
    {
        assert(chars@.take(i + 1).drop_last() == chars@.take(i as int));
        if chars[i] == c && acc < i64::MAX {
            acc += 1;
        }
        i += 1;
    }
    assert(chars@.take(i as int) == chars@);
    acc
}

} // verus!
