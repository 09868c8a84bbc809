//! The ways in which reading a library fails.

use vstd::prelude::*;
use vstd::string::StringExecFns;

verus! {

/// A failure as the contracts see it.
pub enum Fault {
    Structure { form: Seq<char> },
    Schema { form: Seq<char>, keyword: Seq<char> },
    Value { field: Seq<char> },
}

impl Fault {
    /// The failure in words: what kind it is and which keywords it names.
    pub open spec fn wording(self) -> Seq<char> {
        match self {
            Fault::Structure { form } => "malformed expression where this form was expected: "@
                + form,
            Fault::Schema { form, keyword } => "unknown keyword "@ + keyword + " in the form "@
                + form,
            Fault::Value { field } => "missing or unreadable value in the form "@ + field,
        }
    }
}

/// Why an expression could not be read. Reading stops at the first failure.
#[derive(Debug)]
pub enum ParseError {
    /// The expression is too short, does not open with a marker followed by
    /// the keyword `form`, or lacks a part that the form must have. `form`
    /// is empty where any keyword would have done.
    Structure { form: String },
    /// A child's keyword is not one that its parent knows. `form` is the
    /// keyword of the parent; it is empty where the expression itself, read
    /// as a form of one value, carries the keyword that is not known.
    Schema { form: String, keyword: String },
    /// A word that had to be a number, a flag or a name of a fixed set is
    /// none, or is missing. `field` is the keyword of the form in which the
    /// word stands; it is empty where the reader is not told the form.
    Value { field: String },
}

impl DeepView for ParseError {
    type V = Fault;

    open spec fn deep_view(&self) -> Fault {
        match self {
            ParseError::Structure { form } => Fault::Structure { form: form@ },
            ParseError::Schema { form, keyword } => Fault::Schema {
                form: form@,
                keyword: keyword@,
            },
            ParseError::Value { field } => Fault::Value { field: field@ },
        }
    }
}

impl Clone for ParseError {
    fn clone(&self) -> (copy: ParseError)
        ensures
            copy == *self,
    {
        match self {
            ParseError::Structure { form } => ParseError::Structure { form: form.clone() },
            ParseError::Schema { form, keyword } => ParseError::Schema {
                form: form.clone(),
                keyword: keyword.clone(),
            },
            ParseError::Value { field } => ParseError::Value { field: field.clone() },
        }
    }
}

impl PartialEq for ParseError {
    fn eq(&self, other: &ParseError) -> (same: bool) {
        match self {
            ParseError::Structure { form } => match other {
                ParseError::Structure { form: theirs } => *form == *theirs,
                _ => false,
            },
            ParseError::Schema { form, keyword } => match other {
                ParseError::Schema { form: their_form, keyword: theirs } => *form == *their_form
                    && *keyword == *theirs,
                _ => false,
            },
            ParseError::Value { field } => match other {
                ParseError::Value { field: theirs } => *field == *theirs,
                _ => false,
            },
        }
    }
}

impl vstd::std_specs::cmp::PartialEqSpecImpl for ParseError {
    open spec fn obeys_eq_spec() -> bool {
        true
    }

    open spec fn eq_spec(&self, other: &ParseError) -> bool {
        self.deep_view() == other.deep_view()
    }
}

impl ParseError {
    /// The expression does not have the shape of the form named.
    pub fn structural(form: &str) -> (error: ParseError)
        ensures
            error.deep_view() == (Fault::Structure { form: form@ }),
    {
        ParseError::Structure { form: form.to_owned() }
    }

    /// The error in words, for a person to read.
    pub fn message(&self) -> (text: String)
        ensures
            text@ == self.deep_view().wording(),
    {
        match self {
            ParseError::Structure { form } => {
                let mut text = "malformed expression where this form was expected: ".to_owned();
                text.append(form.as_str());
                text
            },
            ParseError::Schema { form, keyword } => {
                let mut text = "unknown keyword ".to_owned();
                text.append(keyword.as_str());
                text.append(" in the form ");
                text.append(form.as_str());
                text
            },
            ParseError::Value { field } => {
                let mut text = "missing or unreadable value in the form ".to_owned();
                text.append(field.as_str());
                text
            },
        }
    }

    /// A word under the form named does not convert.
    pub fn value(field: &str) -> (error: ParseError)
        ensures
            error.deep_view() == (Fault::Value { field: field@ }),
    {
        ParseError::Value { field: field.to_owned() }
    }
}

/// The outcome of a reader as the contracts see it.
pub open spec fn outcome_view<T: DeepView>(outcome: Result<T, ParseError>) -> Result<T::V, Fault> {
    match outcome {
        Ok(value) => Ok(value.deep_view()),
        Err(error) => Err(error.deep_view()),
    }
}

} // verus!
