//! Small operations on text that the readers share.

use vstd::prelude::*;
use vstd::utf8::{encode_utf8, encode_utf8_decode_utf8};

verus! {

/// `String::push` puts one character at the end of the string and leaves
/// the characters before it as they were.
pub assume_specification[ String::push ](text: &mut String, letter: char)
    ensures
        final(text)@ == old(text)@.push(letter),
;

/// What `str::to_lowercase` returns for a text: its lowercase form by the
/// Unicode tables of the standard library.
pub uninterp spec fn lowercase_of(text: Seq<char>) -> Seq<char>;

/// Calls `str::to_lowercase`. The result is known only by its name,
/// `lowercase_of`; nothing is claimed about single characters.
#[verifier::external_body]
pub(crate) fn lowercase(text: &str) -> (lowered: String)
    ensures
        lowered@ == lowercase_of(text@),
{
    text.to_lowercase()
}

/// The characters of a text, in order, as a vector that can be indexed.
pub fn chars_of(text: &str) -> (letters: Vec<char>)
    ensures
        letters@ == text@,
{
    let mut letters: Vec<char> = Vec::new();
    for letter in it: text.chars()
        invariant
            it.seq() == text@,
            letters@ == it.seq().take(it.index() as int),
    {
        letters.push(letter);
    }
    letters
}

/// Whether two texts hold the same characters. The texts are compared byte
/// by byte: two texts have the same bytes exactly when they have the same
/// characters.
pub fn same_text(left: &str, right: &str) -> (same: bool)
    ensures
        same == (left@ == right@),
{
    let ours = left.as_bytes();
    let theirs = right.as_bytes();
    proof {
        encode_utf8_decode_utf8(left@);
        encode_utf8_decode_utf8(right@);
    }
    if ours.len() != theirs.len() {
        return false;
    }
    let mut at: usize = 0;
    while at < ours.len()
        invariant
            at <= ours.len(),
            ours.len() == theirs.len(),
            ours@ == encode_utf8(left@),
            theirs@ == encode_utf8(right@),
            forall|k: int| 0 <= k < at ==> ours@[k] == theirs@[k],
        decreases ours.len() - at,
    {
        if ours[at] != theirs[at] {
            return false;
        }
        at = at + 1;
    }
    assert(ours@ =~= theirs@);
    true
}

/// The text made of `letters[from..to]`.
pub fn text_between(letters: &Vec<char>, from: usize, to: usize) -> (text: String)
    requires
        from <= to <= letters.len(),
    ensures
        text@ == letters@.subrange(from as int, to as int),
{
    let mut text = String::new();
    let mut at: usize = from;
    while at < to
        invariant
            from <= at <= to <= letters.len(),
            text@ == letters@.subrange(from as int, at as int),
        decreases to - at,
    {
        text.push(letters[at]);
        assert(letters@.subrange(from as int, at as int).push(letters@[at as int])
            =~= letters@.subrange(from as int, at + 1));
        at = at + 1;
    }
    text
}

} // verus!
