//! Title case: the first character in upper case, the others in lower case.

use vstd::prelude::*;

verus! {

/// The upper-case mapping of a character, as `char::to_uppercase` yields it.
pub uninterp spec fn uppercase_of(c: char) -> Seq<char>;

/// The lower-case mapping of a character, as `char::to_lowercase` yields it.
pub uninterp spec fn lowercase_of(c: char) -> Seq<char>;

/// `char::to_uppercase`, its characters gathered in a vector. The mapping of
/// a character is one character or more.
#[verifier::external_body]
fn uppercase(c: char) -> (out: Vec<char>)
    ensures
        out@ == uppercase_of(c),
        out@.len() >= 1,
{
    c.to_uppercase().collect()
}

/// `char::to_lowercase`, its characters gathered in a vector. The mapping of
/// a character is one character or more.
#[verifier::external_body]
fn lowercase(c: char) -> (out: Vec<char>)
    ensures
        out@ == lowercase_of(c),
        out@.len() >= 1,
{
    c.to_lowercase().collect()
}

/// `String::push`: the character is added at the end.
pub assume_specification[ String::push ](s: &mut String, ch: char)
    ensures
        final(s)@ == old(s)@.push(ch),
;

/// The character that title case puts at place `i`: the first character of
/// the upper-case mapping at the start of the text, of the lower-case
/// mapping everywhere else.
pub open spec fn title_char(i: int, c: char) -> char {
    if i == 0 {
        uppercase_of(c)[0]
    } else {
        lowercase_of(c)[0]
    }
}

/// A text in title case, character by character.
pub open spec fn title_case(chars: Seq<char>) -> Seq<char> {
    Seq::new(chars.len(), |i: int| title_char(i, chars[i]))
}

/// The text in title case: as many characters as `s` has, the first in upper
/// case and the others in lower case. Of a mapping of several characters the
/// first one is taken.
pub fn to_title_case(s: &str) -> (out: String)
    ensures
        out@ == title_case(s@),
{
    let mut out = String::new();
    let mut first = true;
    for c in it: s.chars()
        invariant
            it.seq() == s@,
            first == (it.index() == 0),
            out@ == title_case(s@.take(it.index() as int)),
    {
        let mapped = if first {
            uppercase(c)
        } else {
            lowercase(c)
        };
        out.push(mapped[0]);
        first = false;
    }
    out
}

} // verus!
