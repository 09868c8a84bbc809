//! The constructs of a symbol library and their readers.

use vstd::prelude::*;
use crate::error::{outcome_view, Fault, ParseError};
use crate::guard::{
    check_expression_validity, children_from, children_of, opens_with, parameter_of,
    parse_parameter_from_expression, word_at,
};
use crate::number::Number;
use crate::segment::{is_balanced, markers_balance};
use crate::symbols::pin::{label_of, pin_length_of, pin_of};
use crate::symbols::property::{offset_of, pin_names_of, property_id_of, property_of};
use crate::symbols::shape::{fill_of, points_of, polyline_of, stroke_of, text_of};
use crate::symbols::style::{effects_of, font_of, font_size_of, keyword_of, location_of};
use crate::symbols::symbol::{sub_symbol_of, symbol_of, KiCadSymbol, SymbolModel};
use crate::text::same_text;
use crate::token::{atoms_of, tokenise, Atom, Expression};

pub mod pin;
pub mod property;
pub mod shape;
pub mod style;
pub mod symbol;

verus! {

/// A construct that can be read from one expression.
pub trait TryFromExpression<T: DeepView> {
    /// What the expression stands for: the construct, or the first failure
    /// met on the way through it.
    spec fn meaning(expression: Seq<Atom>) -> Result<T::V, Fault>;

    /// Reads the construct from the tokens of its form, markers included.
    /// Reading stops at the first failure and then gives nothing but the error.
    fn try_from_expression(expression: Expression) -> (outcome: Result<T, ParseError>)
        ensures
            outcome_view(outcome) == Self::meaning(expression.deep_view()),
    ;
}

/// The expressions as the contracts see them.
pub open spec fn atoms_of_all(children: Seq<Expression>) -> Seq<Seq<Atom>> {
    Seq::new(children.len(), |k: int| children[k].deep_view())
}

/// A library as the contracts see it.
pub struct LibraryModel {
    pub version: Option<u64>,
    pub generator: Option<Seq<char>>,
    pub generator_version: Option<Seq<char>>,
    pub symbols: Seq<SymbolModel>,
}

/// A symbol library: what is said of the library itself, and its symbols in
/// the order in which they were written.
#[derive(Debug, Clone)]
pub struct KicadSymbolLib {
    pub version: Option<u64>,
    pub generator: Option<String>,
    pub generator_version: Option<Number>,
    pub symbols: Vec<KiCadSymbol>,
}

impl DeepView for KicadSymbolLib {
    type V = LibraryModel;

    open spec fn deep_view(&self) -> LibraryModel {
        LibraryModel {
            version: self.version,
            generator: self.generator.deep_view(),
            generator_version: self.generator_version.deep_view(),
            symbols: self.symbols.deep_view(),
        }
    }
}

/// The library after one more child. `version` carries a whole number,
/// `generator` a word and `generator_version` a real number; `symbol` is
/// put at the end of the symbols; a child without a keyword changes
/// nothing; any other keyword is refused.
pub open spec fn library_with(library: LibraryModel, child: Seq<Atom>) -> Result<
    LibraryModel,
    Fault,
> {
    match word_at(child, 1) {
        None => Ok(library),
        Some(keyword) => if keyword == "version"@ {
            match parameter_of::<u64>(child, "version"@) {
                Ok(version) => Ok(LibraryModel { version: Some(version), ..library }),
                Err(fault) => Err(fault),
            }
        } else if keyword == "generator"@ {
            match parameter_of::<String>(child, "generator"@) {
                Ok(generator) => Ok(LibraryModel { generator: Some(generator), ..library }),
                Err(fault) => Err(fault),
            }
        } else if keyword == "generator_version"@ {
            match parameter_of::<Number>(child, "generator_version"@) {
                Ok(number) => Ok(LibraryModel { generator_version: Some(number), ..library }),
                Err(fault) => Err(fault),
            }
        } else if keyword == "symbol"@ {
            match symbol_of(child) {
                Ok(symbol) => Ok(LibraryModel { symbols: library.symbols.push(symbol), ..library }),
                Err(fault) => Err(fault),
            }
        } else {
            Err(Fault::Schema { form: "kicad_symbol_lib"@, keyword })
        },
    }
}

/// The library after the children from `at` on, read in order up to the
/// first that fails.
pub open spec fn library_from(children: Seq<Seq<Atom>>, at: int, library: LibraryModel) -> Result<
    LibraryModel,
    Fault,
>
    decreases children.len() - at,
{
    if at < 0 || at >= children.len() {
        Ok(library)
    } else {
        match library_with(library, children[at]) {
            Ok(next) => library_from(children, at + 1, next),
            Err(fault) => Err(fault),
        }
    }
}

/// What `(kicad_symbol_lib child ...)` stands for. Tokens whose markers do
/// not balance are no library: a form that is never closed, or closed once
/// too often, is malformed as a whole and nothing of it is read.
pub open spec fn library_of(expression: Seq<Atom>) -> Result<LibraryModel, Fault> {
    if !is_balanced(expression) || !opens_with(expression, "kicad_symbol_lib"@) {
        Err(Fault::Structure { form: "kicad_symbol_lib"@ })
    } else {
        library_from(
            children_of(expression, 2),
            0,
            LibraryModel {
                version: None,
                generator: None,
                generator_version: None,
                symbols: Seq::empty(),
            },
        )
    }
}

/// What the text of a library stands for.
pub open spec fn library_of_text(content: Seq<char>) -> Result<LibraryModel, Fault> {
    library_of(atoms_of(content))
}

impl KicadSymbolLib {
    /// Reads a library from the tokens of its outer form. The markers are
    /// counted first: tokens that open more or less often than they close
    /// are refused as malformed under `kicad_symbol_lib`.
    #[verifier::loop_isolation(false)]
    pub fn from_expression(expression: Expression) -> (outcome: Result<KicadSymbolLib, ParseError>)
        ensures
            outcome_view(outcome) == library_of(expression.deep_view()),
    {
        if !markers_balance(&expression) {
            return Err(ParseError::structural("kicad_symbol_lib"));
        }
        check_expression_validity(&expression, "kicad_symbol_lib".to_owned())?;
        let children = children_from(expression, 2);
        let ghost forms = children.deep_view();
        assert(forms =~= atoms_of_all(children@));
        let mut library = KicadSymbolLib {
            version: None,
            generator: None,
            generator_version: None,
            symbols: Vec::new(),
        };
        let ghost first = library.deep_view();
        assert(first.symbols =~= Seq::empty());
        for child in it: children
            invariant
                forms == atoms_of_all(it.seq()),
                library_from(forms, it.index() as int, library.deep_view()) == library_from(
                    forms,
                    0,
                    first,
                ),
        {
            assert(forms[it.index() as int] == child.deep_view());
            let ghost before = library.deep_view();
            match keyword_of(&child) {
                None => {},
                Some(keyword) => {
                    if same_text(keyword.as_str(), "version") {
                        library.version = Some(
                            parse_parameter_from_expression::<u64>(&child, "version".to_owned())?,
                        );
                    } else if same_text(keyword.as_str(), "generator") {
                        library.generator = Some(
                            parse_parameter_from_expression::<String>(
                                &child,
                                "generator".to_owned(),
                            )?,
                        );
                    } else if same_text(keyword.as_str(), "generator_version") {
                        library.generator_version = Some(
                            parse_parameter_from_expression::<Number>(
                                &child,
                                "generator_version".to_owned(),
                            )?,
                        );
                    } else if same_text(keyword.as_str(), "symbol") {
                        let symbol = KiCadSymbol::try_from_expression(child)?;
                        library.symbols.push(symbol);
                        assert(library.deep_view().symbols =~= before.symbols.push(
                            symbol.deep_view(),
                        ));
                    } else {
                        return Err(ParseError::Schema { form: "kicad_symbol_lib".to_owned(), keyword });
                    }
                },
            }
        }
        Ok(library)
    }

    /// Reads a library from its text. An unclosed quote is read to the end
    /// of the text, as the tokens have it; unbalanced markers are refused.
    pub fn from_text(content: &str) -> (outcome: Result<KicadSymbolLib, ParseError>)
        ensures
            outcome_view(outcome) == library_of_text(content@),
    {
        let expression = tokenise(content)?;
        KicadSymbolLib::from_expression(expression)
    }
}

/// Reading is repeatable: two readings of one text fail alike or give
/// libraries that agree in every field.
pub proof fn lemma_reading_twice_agrees(
    content: Seq<char>,
    first: Result<KicadSymbolLib, ParseError>,
    second: Result<KicadSymbolLib, ParseError>,
)
    requires
        outcome_view(first) == library_of_text(content),
        outcome_view(second) == library_of_text(content),
    ensures
        first is Ok <==> second is Ok,
        first is Err ==> first->Err_0.deep_view() == second->Err_0.deep_view(),
        first is Ok ==> {
            let one = first->Ok_0;
            let other = second->Ok_0;
            &&& one.version == other.version
            &&& one.generator.deep_view() == other.generator.deep_view()
            &&& one.generator_version.deep_view() == other.generator_version.deep_view()
            &&& one.symbols.deep_view() == other.symbols.deep_view()
        },
{
}

/// Only balanced tokens are a library: tokens that open more or less often
/// than they close are refused as malformed, so whatever is read as a
/// library was balanced and opened with the keyword of a library.
pub proof fn lemma_unbalanced_is_no_library(expression: Seq<Atom>)
    ensures
        !is_balanced(expression) ==> library_of(expression) == Err::<LibraryModel, Fault>(
            Fault::Structure { form: "kicad_symbol_lib"@ },
        ),
        library_of(expression) is Ok ==> is_balanced(expression) && opens_with(
            expression,
            "kicad_symbol_lib"@,
        ),
{
}

/// The outcome is the refusal of an expression as malformed under the keyword.
pub open spec fn refused_under<T>(outcome: Result<T, Fault>, keyword: Seq<char>) -> bool {
    outcome == Err::<T, Fault>(Fault::Structure { form: keyword })
}

/// The keyword comes first: a reader that expects a keyword refuses every
/// expression that does not open with a marker and that keyword, as
/// malformed under the keyword, whatever else the expression holds.
pub proof fn lemma_readers_ask_for_their_keyword(expression: Seq<Atom>, keyword: Seq<char>)
    requires
        !opens_with(expression, keyword),
    ensures
        keyword == "at"@ ==> refused_under(location_of(expression), keyword),
        keyword == "size"@ ==> refused_under(font_size_of(expression), keyword),
        keyword == "font"@ ==> refused_under(font_of(expression), keyword),
        keyword == "effects"@ ==> refused_under(effects_of(expression), keyword),
        keyword == "stroke"@ ==> refused_under(stroke_of(expression), keyword),
        keyword == "fill"@ ==> refused_under(fill_of(expression), keyword),
        keyword == "pts"@ ==> refused_under(points_of(expression), keyword),
        keyword == "polyline"@ ==> refused_under(polyline_of(expression), keyword),
        keyword == "text"@ ==> refused_under(text_of(expression), keyword),
        keyword == "id"@ ==> refused_under(property_id_of(expression), keyword),
        keyword == "property"@ ==> refused_under(property_of(expression), keyword),
        keyword == "offset"@ ==> refused_under(offset_of(expression), keyword),
        keyword == "pin_names"@ ==> refused_under(pin_names_of(expression), keyword),
        keyword == "length"@ ==> refused_under(pin_length_of(expression), keyword),
        keyword == "pin"@ ==> refused_under(pin_of(expression), keyword),
        keyword == "symbol"@ ==> refused_under(symbol_of(expression), keyword),
        keyword == "symbol"@ ==> refused_under(sub_symbol_of(expression), keyword),
        keyword == "kicad_symbol_lib"@ ==> refused_under(library_of(expression), keyword),
        refused_under(label_of(expression, keyword), keyword),
        refused_under(parameter_of::<u64>(expression, keyword), keyword),
        refused_under(parameter_of::<String>(expression, keyword), keyword),
        refused_under(parameter_of::<Number>(expression, keyword), keyword),
{
}

} // verus!
