//! A reader for KiCad symbol libraries.
//!
//! The text of a library is cut into tokens, the tokens into balanced
//! expressions, and each expression is read by the construct its keyword
//! names. Every reader states, over the token sequence it is given, which
//! value or which error it returns.

pub mod error;
pub mod guard;
pub mod number;
pub mod segment;
pub mod symbols;
pub mod text;
pub mod token;

pub use error::{outcome_view, Fault, ParseError};
pub use guard::{
    check_expression_validity, children_from, get_expression_first_value,
    parse_parameter_from_expression, word_of,
};
pub use number::{FromWord, Number};
pub use segment::{check_token_vec_healthy, markers_balance, subdivide_expression};
pub use symbols::{KicadSymbolLib, TryFromExpression};
pub use text::{chars_of, same_text, text_between};
pub use token::{tokenise, Atom, Expression, Token};
