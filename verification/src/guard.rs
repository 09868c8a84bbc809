//! What every reader asks of an expression before it looks at its parts.

use vstd::prelude::*;
use crate::error::{outcome_view, Fault, ParseError};
use crate::number::FromWord;
use crate::segment::{forms_of, subdivide_expression};
use crate::token::{Atom, Expression, Token};

verus! {

/// The expression opens with a marker that the keyword follows directly.
pub open spec fn opens_with(expression: Seq<Atom>, keyword: Seq<char>) -> bool {
    &&& expression.len() >= 2
    &&& expression[0] is Open
    &&& expression[1] == Atom::Word(keyword)
}

/// The word at a position of the expression, where a word stands there.
pub open spec fn word_at(expression: Seq<Atom>, index: int) -> Option<Seq<char>> {
    if 0 <= index < expression.len() {
        match expression[index] {
            Atom::Word(text) => Some(text),
            _ => None,
        }
    } else {
        None
    }
}

/// The children of an expression whose own words end in front of `from`:
/// the top-level forms of everything from that position on.
pub open spec fn children_of(expression: Seq<Atom>, from: int) -> Seq<Seq<Atom>> {
    forms_of(expression.skip(from))
}

/// Accepts an expression that opens with a marker followed by the keyword
/// `property`, and refuses every other: one of fewer than two tokens, one
/// that does not start with an opening marker, one whose second token is
/// not a word equal to the keyword.
pub fn check_expression_validity(expression: &Expression, property: String) -> (verdict: Result<
    (),
    ParseError,
>)
    ensures
        verdict is Ok <==> opens_with(expression.deep_view(), property@),
        verdict is Err ==> verdict->Err_0.deep_view() == (Fault::Structure { form: property@ }),
{
    if expression.len() < 2 {
        return Err(ParseError::Structure { form: property });
    }
    let opened = match &expression[0] {
        Token::OpenParen => true,
        _ => false,
    };
    let named = match &expression[1] {
        Token::Word(keyword) => *keyword == property,
        _ => false,
    };
    if opened && named {
        Ok(())
    } else {
        Err(ParseError::Structure { form: property })
    }
}

/// The token behind the opening marker of an expression. An expression of
/// fewer than two tokens, or one that does not start with an opening marker,
/// is refused; no keyword is expected, so the error names none.
pub fn get_expression_first_value(expression: &Expression) -> (outcome: Result<Token, ParseError>)
    ensures
        outcome_view(outcome) == if expression.deep_view().len() >= 2 && expression.deep_view()[0]
            is Open {
            Ok::<Atom, Fault>(expression.deep_view()[1])
        } else {
            Err(Fault::Structure { form: Seq::empty() })
        },
{
    if expression.len() < 2 {
        return Err(ParseError::Structure { form: String::new() });
    }
    match &expression[0] {
        Token::OpenParen => Ok(expression[1].clone()),
        _ => Err(ParseError::Structure { form: String::new() }),
    }
}

/// The word at a position of the expression, where a word stands there.
pub fn word_of(expression: &Expression, index: usize) -> (word: Option<&String>)
    ensures
        word.deep_view() == word_at(expression.deep_view(), index as int),
{
    if index < expression.len() {
        match &expression[index] {
            Token::Word(text) => Some(text),
            _ => None,
        }
    } else {
        None
    }
}

/// The children of an expression whose own words end in front of `from`.
pub fn children_from(expression: Expression, from: usize) -> (children: Vec<Expression>)
    requires
        from <= expression.len(),
    ensures
        children.deep_view() == children_of(expression.deep_view(), from as int),
{
    let mut expression = expression;
    let ghost whole = expression.deep_view();
    let rest = expression.split_off(from);
    assert(rest.deep_view() =~= whole.skip(from as int));
    subdivide_expression(rest)
}

/// What a form of one value stands for: `(parameter value ...)` with at
/// least four tokens, whose value is a word that `T` can be read from.
pub open spec fn parameter_of<T: FromWord>(expression: Seq<Atom>, parameter: Seq<char>) -> Result<
    T::V,
    Fault,
> {
    if expression.len() < 4 || !opens_with(expression, parameter) {
        Err(Fault::Structure { form: parameter })
    } else {
        match word_at(expression, 2) {
            Some(word) => match T::reading(word) {
                Some(value) => Ok(value),
                None => Err(Fault::Value { field: parameter }),
            },
            None => Err(Fault::Value { field: parameter }),
        }
    }
}

/// Reads the one value of a form such as `(version 20211014)`. The form is
/// refused as malformed where it has fewer than four tokens or does not
/// open with the keyword `parameter`, and as a value error naming
/// `parameter` where its third token is no word or does not convert.
pub fn parse_parameter_from_expression<T: FromWord>(
    expression: &Expression,
    parameter: String,
) -> (outcome: Result<T, ParseError>)
    ensures
        outcome_view(outcome) == parameter_of::<T>(expression.deep_view(), parameter@),
{
    if expression.len() < 4 {
        return Err(ParseError::Structure { form: parameter });
    }
    match check_expression_validity(expression, parameter.clone()) {
        Err(error) => {
            return Err(error);
        },
        Ok(()) => {},
    }
    match word_of(expression, 2) {
        Some(word) => match T::from_word(word.as_str()) {
            Some(value) => Ok(value),
            None => Err(ParseError::Value { field: parameter }),
        },
        None => Err(ParseError::Value { field: parameter }),
    }
}

} // verus!
