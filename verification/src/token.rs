//! Tokens, and the cutting of text into them.

use vstd::prelude::*;
use crate::error::ParseError;
use crate::text::{chars_of, text_between};

verus! {

/// A token as the contracts see it: a marker, or a word with its characters.
pub enum Atom {
    Open,
    Close,
    Word(Seq<char>),
}

/// One lexical unit of a library text.
#[derive(Debug)]
pub enum Token {
    OpenParen,
    CloseParen,
    Word(String),
}

/// A run of tokens that is meant to hold one parenthesised form.
pub type Expression = Vec<Token>;

impl DeepView for Token {
    type V = Atom;

    open spec fn deep_view(&self) -> Atom {
        match self {
            Token::OpenParen => Atom::Open,
            Token::CloseParen => Atom::Close,
            Token::Word(text) => Atom::Word(text@),
        }
    }
}

impl Clone for Token {
    fn clone(&self) -> (copy: Token)
        ensures
            copy == *self,
    {
        match self {
            Token::OpenParen => Token::OpenParen,
            Token::CloseParen => Token::CloseParen,
            Token::Word(text) => Token::Word(text.clone()),
        }
    }
}

impl PartialEq for Token {
    fn eq(&self, other: &Token) -> (same: bool) {
        match self {
            Token::OpenParen => match other {
                Token::OpenParen => true,
                _ => false,
            },
            Token::CloseParen => match other {
                Token::CloseParen => true,
                _ => false,
            },
            Token::Word(mine) => match other {
                Token::Word(theirs) => *mine == *theirs,
                _ => false,
            },
        }
    }
}

impl vstd::std_specs::cmp::PartialEqSpecImpl for Token {
    open spec fn obeys_eq_spec() -> bool {
        true
    }

    open spec fn eq_spec(&self, other: &Token) -> bool {
        self.deep_view() == other.deep_view()
    }
}

/// Space, tab, line feed and carriage return separate tokens and are dropped.
pub open spec fn is_blank(letter: char) -> bool {
    letter == ' ' || letter == '\t' || letter == '\n' || letter == '\r'
}

/// A bare word runs up to the next blank or marker.
pub open spec fn ends_bare_word(letter: char) -> bool {
    is_blank(letter) || letter == '(' || letter == ')'
}

/// The first position at or after `from` that holds a double quote, or the
/// length of the text where none follows.
pub open spec fn quote_end(text: Seq<char>, from: int) -> int
    decreases text.len() - from,
{
    if from < 0 || from >= text.len() {
        text.len() as int
    } else if text[from] == '"' {
        from
    } else {
        quote_end(text, from + 1)
    }
}

/// The first position at or after `from` that ends a bare word, or the
/// length of the text where none follows.
pub open spec fn bare_end(text: Seq<char>, from: int) -> int
    decreases text.len() - from,
{
    if from < 0 || from >= text.len() {
        text.len() as int
    } else if ends_bare_word(text[from]) {
        from
    } else {
        bare_end(text, from + 1)
    }
}

/// Where a quoted word ends: not before it starts, not behind the text, at
/// a double quote unless the text runs out, and behind no double quote.
proof fn lemma_quote_end_bounds(text: Seq<char>, from: int)
    requires
        0 <= from <= text.len(),
    ensures
        from <= quote_end(text, from) <= text.len(),
        quote_end(text, from) < text.len() ==> text[quote_end(text, from)] == '"',
        forall|k: int| from <= k < quote_end(text, from) ==> text[k] != '"',
    decreases text.len() - from,
{
    if from < text.len() && text[from] != '"' {
        lemma_quote_end_bounds(text, from + 1);
    }
}

/// Where a bare word ends: not before it starts, not behind the text, at a
/// blank or marker unless the text runs out, and behind none.
proof fn lemma_bare_end_bounds(text: Seq<char>, from: int)
    requires
        0 <= from <= text.len(),
    ensures
        from <= bare_end(text, from) <= text.len(),
        bare_end(text, from) < text.len() ==> ends_bare_word(text[bare_end(text, from)]),
        forall|k: int| from <= k < bare_end(text, from) ==> !ends_bare_word(text[k]),
    decreases text.len() - from,
{
    if from < text.len() && !ends_bare_word(text[from]) {
        lemma_bare_end_bounds(text, from + 1);
    }
}

/// The tokens of `text[from..]`.
///
/// A marker is one token. Blanks are dropped. A double quote opens a word
/// that holds every character up to the next double quote, or up to the end
/// of the text where the quote is never closed; the quotes are not part of
/// the word and nothing inside is an escape. Any other character opens a
/// bare word that runs up to the next blank or marker.
pub open spec fn atoms_from(text: Seq<char>, from: int) -> Seq<Atom>
    decreases text.len() + 1 - from,
    via atoms_from_decreases
{
    if from < 0 || from >= text.len() {
        Seq::empty()
    } else if text[from] == '(' {
        seq![Atom::Open] + atoms_from(text, from + 1)
    } else if text[from] == ')' {
        seq![Atom::Close] + atoms_from(text, from + 1)
    } else if is_blank(text[from]) {
        atoms_from(text, from + 1)
    } else if text[from] == '"' {
        let end = quote_end(text, from + 1);
        seq![Atom::Word(text.subrange(from + 1, end))] + atoms_from(text, end + 1)
    } else {
        let end = bare_end(text, from + 1);
        seq![Atom::Word(text.subrange(from, end))] + atoms_from(text, end)
    }
}

#[via_fn]
proof fn atoms_from_decreases(text: Seq<char>, from: int) {
    if 0 <= from < text.len() {
        lemma_quote_end_bounds(text, from + 1);
        lemma_bare_end_bounds(text, from + 1);
    }
}

/// The tokens of a whole text.
pub open spec fn atoms_of(text: Seq<char>) -> Seq<Atom> {
    atoms_from(text, 0)
}

/// A word as bare text gives it: not empty, and without blank or marker.
pub open spec fn is_bare_word(word: Seq<char>) -> bool {
    &&& word.len() > 0
    &&& forall|k: int| 0 <= k < word.len() ==> !ends_bare_word(#[trigger] word[k])
}

/// A word as quoted text gives it: without a double quote.
pub open spec fn is_quoted_word(word: Seq<char>) -> bool {
    forall|k: int| 0 <= k < word.len() ==> #[trigger] word[k] != '"'
}

/// Every atom is a marker or a word of one of the two kinds.
pub open spec fn is_lexical(atom: Atom) -> bool {
    match atom {
        Atom::Word(word) => is_bare_word(word) || is_quoted_word(word),
        _ => true,
    }
}

/// Every atom is a marker or a bare word.
pub open spec fn is_plain(atom: Atom) -> bool {
    match atom {
        Atom::Word(word) => is_bare_word(word),
        _ => true,
    }
}

proof fn lemma_words_from(text: Seq<char>, from: int)
    requires
        0 <= from,
    ensures
        forall|i: int|
            0 <= i < atoms_from(text, from).len() ==> is_lexical(
                #[trigger] atoms_from(text, from)[i],
            ),
        (forall|k: int| from <= k < text.len() ==> text[k] != '"') ==> forall|i: int|
            0 <= i < atoms_from(text, from).len() ==> is_plain(
                #[trigger] atoms_from(text, from)[i],
            ),
    decreases text.len() + 1 - from,
{
    if from < text.len() {
        let atoms = atoms_from(text, from);
        let letter = text[from];
        lemma_quote_end_bounds(text, from + 1);
        lemma_bare_end_bounds(text, from + 1);
        if is_blank(letter) {
            lemma_words_from(text, from + 1);
            assert(atoms == atoms_from(text, from + 1));
        } else {
            let next = if letter == '(' || letter == ')' {
                from + 1
            } else if letter == '"' {
                quote_end(text, from + 1) + 1
            } else {
                bare_end(text, from + 1)
            };
            let rest = atoms_from(text, next);
            lemma_words_from(text, next);
            assert(atoms == seq![atoms[0]] + rest);
            assert(is_lexical(atoms[0]));
            assert forall|i: int| 0 <= i < atoms.len() implies is_lexical(#[trigger] atoms[i]) by {
                if i > 0 {
                    assert(atoms[i] == rest[i - 1]);
                }
            }
            if forall|k: int| from <= k < text.len() ==> text[k] != '"' {
                assert(is_plain(atoms[0]));
                assert forall|i: int| 0 <= i < atoms.len() implies is_plain(#[trigger] atoms[i]) by {
                    if i > 0 {
                        assert(atoms[i] == rest[i - 1]);
                    }
                }
            }
        }
    }
}

/// What the words of a text are like. A word is either bare, and then it is
/// not empty and holds no blank and no marker, or quoted, and then it holds
/// no double quote. In a text without double quotes every word is bare.
pub proof fn lemma_words_are_bare_or_quoted(text: Seq<char>)
    ensures
        forall|i: int| 0 <= i < atoms_of(text).len() ==> is_lexical(#[trigger] atoms_of(text)[i]),
        (forall|k: int| 0 <= k < text.len() ==> text[k] != '"') ==> forall|i: int|
            0 <= i < atoms_of(text).len() ==> is_plain(#[trigger] atoms_of(text)[i]),
{
    lemma_words_from(text, 0);
}

/// Cuts a text into its tokens. Every text has tokens: an unclosed quote
/// takes the rest of the text as its word, so no input is refused.
pub fn tokenise(input: &str) -> (outcome: Result<Vec<Token>, ParseError>)
    ensures
        outcome is Ok,
        outcome->Ok_0.deep_view() == atoms_of(input@),
{
    let letters = chars_of(input);
    let mut tokens: Vec<Token> = Vec::new();
    let mut at: usize = 0;
    while at < letters.len()
        invariant
            at <= letters.len(),
            letters@ == input@,
            tokens.deep_view() + atoms_from(letters@, at as int) == atoms_of(letters@),
        decreases letters.len() - at,
    {
        let ghost before = tokens.deep_view();
        let ghost tail = atoms_from(letters@, at as int);
        let letter = letters[at];
        if letter == ' ' || letter == '\t' || letter == '\n' || letter == '\r' {
            at = at + 1;
        } else {
            let token: Token;
            if letter == '(' {
                token = Token::OpenParen;
                at = at + 1;
            } else if letter == ')' {
                token = Token::CloseParen;
                at = at + 1;
            } else if letter == '"' {
                let start = at + 1;
                let mut end = start;
                while end < letters.len() && letters[end] != '"'
                    invariant
                        start <= end <= letters.len(),
                        quote_end(letters@, start as int) == quote_end(letters@, end as int),
                    decreases letters.len() - end,
                {
                    end = end + 1;
                }
                token = Token::Word(text_between(&letters, start, end));
                at = if end < letters.len() {
                    end + 1
                } else {
                    end
                };
                assert(atoms_from(letters@, end + 1) == atoms_from(letters@, at as int));
            } else {
                let start = at;
                let mut end = at + 1;
                while end < letters.len() && !(letters[end] == ' ' || letters[end] == '\t'
                    || letters[end] == '\n' || letters[end] == '\r' || letters[end] == '('
                    || letters[end] == ')')
                    invariant
                        start < end <= letters.len(),
                        bare_end(letters@, start + 1) == bare_end(letters@, end as int),
                    decreases letters.len() - end,
                {
                    end = end + 1;
                }
                token = Token::Word(text_between(&letters, start, end));
                at = end;
            }
            let ghost atom = token.deep_view();
            assert(tail == seq![atom] + atoms_from(letters@, at as int));
            tokens.push(token);
            proof {
                assert(tokens.deep_view() =~= before.push(atom));
                assert(before.push(atom) + atoms_from(letters@, at as int) =~= before + tail);
            }
        }
    }
    assert(tokens.deep_view() + Seq::<Atom>::empty() =~= tokens.deep_view());
    Ok(tokens)
}

} // verus!
