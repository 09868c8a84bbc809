//! Words that stand for numbers.
//!
//! Whole numbers are read into machine integers. Real numbers are kept as
//! the text that was written, once the text is known to follow the grammar
//! of a decimal literal, so that a caller can convert it without failure.

use vstd::prelude::*;
use crate::text::chars_of;

verus! {

pub open spec fn is_digit(letter: char) -> bool {
    '0' <= letter && letter <= '9'
}

pub open spec fn is_sign(letter: char) -> bool {
    letter == '+' || letter == '-'
}

pub open spec fn all_digits(text: Seq<char>) -> bool {
    forall|k: int| 0 <= k < text.len() ==> is_digit(#[trigger] text[k])
}

/// The number that a digit stands for.
pub open spec fn digit_value(letter: char) -> nat {
    (letter as u32 - '0' as u32) as nat
}

/// The number that a run of digits stands for in base ten.
pub open spec fn decimal_value(digits: Seq<char>) -> nat
    decreases digits.len(),
{
    if digits.len() == 0 {
        0
    } else {
        10 * decimal_value(digits.drop_last()) + digit_value(digits.last())
    }
}

/// The whole number that a word stands for, where it stands for one that
/// does not exceed `limit`: one or more digits, with at most a `+` in front.
pub open spec fn unsigned_of(word: Seq<char>, limit: nat) -> Option<nat> {
    let digits = if word.len() > 0 && word[0] == '+' {
        word.skip(1)
    } else {
        word
    };
    if digits.len() > 0 && all_digits(digits) && decimal_value(digits) <= limit {
        Some(decimal_value(digits))
    } else {
        None
    }
}

/// A longer run of digits never stands for a smaller number than its start.
pub proof fn lemma_decimal_value_grows(digits: Seq<char>, count: int)
    requires
        0 <= count <= digits.len(),
    ensures
        decimal_value(digits.take(count)) <= decimal_value(digits),
    decreases digits.len(),
{
    if count == digits.len() {
        assert(digits.take(count) =~= digits);
    } else {
        assert(digits.drop_last().take(count) =~= digits.take(count));
        lemma_decimal_value_grows(digits.drop_last(), count);
    }
}

/// Reads a whole number of at most `limit` from the characters of a word.
pub fn read_unsigned(letters: &Vec<char>, limit: u64) -> (value: Option<u64>)
    ensures
        value is Some == unsigned_of(letters@, limit as nat) is Some,
        value is Some ==> value->0 == unsigned_of(letters@, limit as nat)->0,
{
    let start: usize = if letters.len() > 0 && letters[0] == '+' {
        1
    } else {
        0
    };
    if start == letters.len() {
        return None;
    }
    let ghost digits = letters@.skip(start as int);
    let mut total: u64 = 0;
    let mut at: usize = start;
    assert(digits.take(0) =~= Seq::<char>::empty());
    while at < letters.len()
        invariant
            start <= at <= letters.len(),
            start < letters.len(),
            start == 1 <==> letters.len() > 0 && letters@[0] == '+',
            start == 0 || start == 1,
            digits =~= letters@.skip(start as int),
            start == 0 ==> digits =~= letters@,
            all_digits(digits.take(at - start)),
            total == decimal_value(digits.take(at - start)),
            total <= limit,
        decreases letters.len() - at,
    {
        let letter = letters[at];
        let ghost seen = digits.take(at - start);
        let ghost more = digits.take(at + 1 - start);
        proof {
            assert(more.drop_last() =~= seen);
            assert(more.last() == letter);
            assert(digits[at - start] == letter);
        }
        if !(letter >= '0' && letter <= '9') {
            return None;
        }
        let digit: u64 = (letter as u32 - '0' as u32) as u64;
        if digit > limit || total > (limit - digit) / 10 {
            proof {
                lemma_decimal_value_grows(digits, at + 1 - start);
            }
            return None;
        }
        total = total * 10 + digit;
        at = at + 1;
    }
    assert(digits.take(at - start) =~= digits);
    Some(total)
}

/// The end of the run of digits that starts at `from`.
pub open spec fn digits_end(text: Seq<char>, from: int) -> int
    decreases text.len() - from,
{
    if 0 <= from < text.len() && is_digit(text[from]) {
        digits_end(text, from + 1)
    } else {
        from
    }
}

/// `text[from..]` is an exponent: `e` or `E`, at most one sign, one or more digits.
pub open spec fn is_exponent(text: Seq<char>, from: int) -> bool {
    let digits = if from + 1 < text.len() && is_sign(text[from + 1]) {
        from + 2
    } else {
        from + 1
    };
    &&& 0 <= from < text.len()
    &&& (text[from] == 'e' || text[from] == 'E')
    &&& digits < text.len()
    &&& digits_end(text, digits) == text.len()
}

/// `text[from..]` is a decimal literal: digits with at most one point among
/// them, at least one digit before or after the point, and at most one
/// exponent behind.
pub open spec fn is_decimal(text: Seq<char>, from: int) -> bool {
    let whole_end = digits_end(text, from);
    let fraction = if whole_end < text.len() && text[whole_end] == '.' {
        whole_end + 1
    } else {
        whole_end
    };
    let fraction_end = digits_end(text, fraction);
    &&& (whole_end - from) + (fraction_end - fraction) > 0
    &&& (fraction_end == text.len() || is_exponent(text, fraction_end))
}

/// An upper-case letter of the Latin alphabet as its lower-case letter;
/// every other character as itself.
pub open spec fn small(letter: char) -> char {
    if 'A' <= letter && letter <= 'Z' {
        ((letter as u8 + 32) as u8) as char
    } else {
        letter
    }
}

/// `text[from..]` is `name`, whatever the case of its Latin letters.
pub open spec fn spells(text: Seq<char>, from: int, name: Seq<char>) -> bool {
    &&& text.len() - from == name.len()
    &&& forall|k: int| 0 <= k < name.len() ==> small(#[trigger] text[from + k]) == name[k]
}

/// `text[from..]` names an infinity or a value that is no number.
pub open spec fn is_special(text: Seq<char>, from: int) -> bool {
    ||| spells(text, from, seq!['i', 'n', 'f'])
    ||| spells(text, from, seq!['n', 'a', 'n'])
    ||| spells(text, from, seq!['i', 'n', 'f', 'i', 'n', 'i', 't', 'y'])
}

/// The word is a real number as written in a library: at most one sign, then
/// a decimal literal or one of the names `inf`, `infinity`, `nan`.
pub open spec fn is_number(word: Seq<char>) -> bool {
    let from: int = if word.len() > 0 && is_sign(word[0]) {
        1
    } else {
        0
    };
    is_decimal(word, from) || is_special(word, from)
}

/// Walks over the digits that start at `from`.
fn skip_digits(letters: &Vec<char>, from: usize) -> (end: usize)
    requires
        from <= letters.len(),
    ensures
        from <= end <= letters.len(),
        end == digits_end(letters@, from as int),
{
    let mut end: usize = from;
    while end < letters.len() && letters[end] >= '0' && letters[end] <= '9'
        invariant
            from <= end <= letters.len(),
            digits_end(letters@, from as int) == digits_end(letters@, end as int),
        decreases letters.len() - end,
    {
        end = end + 1;
    }
    end
}

fn small_letter(letter: char) -> (lowered: char)
    ensures
        lowered == small(letter),
{
    if letter >= 'A' && letter <= 'Z' {
        ((letter as u8 + 32) as u8) as char
    } else {
        letter
    }
}

fn has_name(letters: &Vec<char>, from: usize, name: &Vec<char>) -> (found: bool)
    requires
        from <= letters.len(),
    ensures
        found == spells(letters@, from as int, name@),
{
    if letters.len() - from != name.len() {
        return false;
    }
    let mut at: usize = 0;
    while at < name.len()
        invariant
            at <= name.len(),
            from <= letters.len(),
            letters.len() - from == name.len(),
            forall|k: int| 0 <= k < at ==> small(#[trigger] letters@[from + k]) == name@[k],
        decreases name.len() - at,
    {
        if small_letter(letters[from + at]) != name[at] {
            return false;
        }
        at = at + 1;
    }
    true
}

/// Decides whether the characters of a word form a real number.
pub fn reads_as_number(letters: &Vec<char>) -> (accepted: bool)
    ensures
        accepted == is_number(letters@),
{
    let from: usize = if letters.len() > 0 && (letters[0] == '+' || letters[0] == '-') {
        1
    } else {
        0
    };
    if has_name(letters, from, &vec!['i', 'n', 'f']) {
        return true;
    }
    if has_name(letters, from, &vec!['n', 'a', 'n']) {
        return true;
    }
    if has_name(letters, from, &vec!['i', 'n', 'f', 'i', 'n', 'i', 't', 'y']) {
        return true;
    }
    let whole_end = skip_digits(letters, from);
    let fraction: usize = if whole_end < letters.len() && letters[whole_end] == '.' {
        whole_end + 1
    } else {
        whole_end
    };
    let fraction_end = skip_digits(letters, fraction);
    if (whole_end - from) + (fraction_end - fraction) == 0 {
        return false;
    }
    if fraction_end == letters.len() {
        return true;
    }
    if !(letters[fraction_end] == 'e' || letters[fraction_end] == 'E') {
        return false;
    }
    let digits: usize = if fraction_end + 1 < letters.len() && (letters[fraction_end + 1] == '+'
        || letters[fraction_end + 1] == '-') {
        fraction_end + 2
    } else {
        fraction_end + 1
    };
    if digits >= letters.len() {
        return false;
    }
    skip_digits(letters, digits) == letters.len()
}

/// A real number, held as the text that was written for it.
#[derive(Debug)]
pub struct Number {
    text: String,
}

impl DeepView for Number {
    type V = Seq<char>;

    closed spec fn deep_view(&self) -> Seq<char> {
        self.text@
    }
}

impl Clone for Number {
    fn clone(&self) -> (copy: Number)
        ensures
            copy == *self,
    {
        proof {
            use_type_invariant(self);
        }
        Number { text: self.text.clone() }
    }
}

impl Number {
    #[verifier::type_invariant]
    spec fn well_formed(self) -> bool {
        is_number(self.text@)
    }

    /// The text of the number. It follows the grammar of `is_number`, which
    /// is the grammar that the standard library reads floating-point numbers by.
    pub fn as_str(&self) -> (text: &str)
        ensures
            text@ == self.deep_view(),
            is_number(text@),
    {
        proof {
            use_type_invariant(self);
        }
        self.text.as_str()
    }
}

/// A value that one word can stand for.
pub trait FromWord: Sized + DeepView {
    /// The value that the word stands for, if it stands for one.
    spec fn reading(word: Seq<char>) -> Option<Self::V>;

    fn from_word(word: &str) -> (value: Option<Self>)
        ensures
            value.deep_view() == Self::reading(word@),
    ;
}

impl FromWord for u64 {
    open spec fn reading(word: Seq<char>) -> Option<u64> {
        match unsigned_of(word, u64::MAX as nat) {
            Some(number) => Some(number as u64),
            None => None,
        }
    }

    fn from_word(word: &str) -> (value: Option<u64>) {
        read_unsigned(&chars_of(word), u64::MAX)
    }
}

impl FromWord for u32 {
    open spec fn reading(word: Seq<char>) -> Option<u32> {
        match unsigned_of(word, u32::MAX as nat) {
            Some(number) => Some(number as u32),
            None => None,
        }
    }

    fn from_word(word: &str) -> (value: Option<u32>) {
        match read_unsigned(&chars_of(word), 0xffff_ffff) {
            Some(number) => Some(number as u32),
            None => None,
        }
    }
}

impl FromWord for String {
    open spec fn reading(word: Seq<char>) -> Option<Seq<char>> {
        Some(word)
    }

    fn from_word(word: &str) -> (value: Option<String>) {
        Some(word.to_owned())
    }
}

impl FromWord for Number {
    open spec fn reading(word: Seq<char>) -> Option<Seq<char>> {
        if is_number(word) {
            Some(word)
        } else {
            None
        }
    }

    fn from_word(word: &str) -> (value: Option<Number>) {
        if reads_as_number(&chars_of(word)) {
            Some(Number { text: word.to_owned() })
        } else {
            None
        }
    }
}

} // verus!
