//! Placement, and how text is drawn: font size, font and effects.

use vstd::prelude::*;
use crate::error::{Fault, ParseError};
use crate::guard::{check_expression_validity, children_from, children_of, opens_with, word_at, word_of};
use crate::number::{is_number, FromWord, Number};
use crate::symbols::{atoms_of_all, TryFromExpression};
use crate::text::same_text;
use crate::token::{Atom, Expression};

verus! {

/// The number at a position of the expression, where a word stands there
/// that is a number.
pub open spec fn number_at(expression: Seq<Atom>, index: int) -> Option<Seq<char>> {
    match word_at(expression, index) {
        Some(word) => if is_number(word) {
            Some(word)
        } else {
            None
        },
        None => None,
    }
}

/// The number at a position of the expression.
pub fn number_of(expression: &Expression, index: usize) -> (number: Option<Number>)
    ensures
        number.deep_view() == number_at(expression.deep_view(), index as int),
{
    match word_of(expression, index) {
        Some(word) => Number::from_word(word.as_str()),
        None => None,
    }
}

/// The keyword of a child: its second token, where that is a word.
pub fn keyword_of(child: &Expression) -> (keyword: Option<String>)
    ensures
        keyword.deep_view() == word_at(child.deep_view(), 1),
{
    match word_of(child, 1) {
        Some(word) => Some(word.clone()),
        None => None,
    }
}

/// Where something is placed: x, y and rotation.
#[derive(Debug, Clone)]
pub struct KiCadLocation(pub Number, pub Number, pub Number);

impl DeepView for KiCadLocation {
    type V = (Seq<char>, Seq<char>, Seq<char>);

    open spec fn deep_view(&self) -> (Seq<char>, Seq<char>, Seq<char>) {
        (self.0.deep_view(), self.1.deep_view(), self.2.deep_view())
    }
}

/// What `(at x y rotation)` stands for. Fewer than five tokens, or a
/// component that is no number, is a value error.
pub open spec fn location_of(expression: Seq<Atom>) -> Result<
    (Seq<char>, Seq<char>, Seq<char>),
    Fault,
> {
    if !opens_with(expression, "at"@) {
        Err(Fault::Structure { form: "at"@ })
    } else if expression.len() < 5 {
        Err(Fault::Value { field: "at"@ })
    } else {
        match (number_at(expression, 2), number_at(expression, 3), number_at(expression, 4)) {
            (Some(x), Some(y), Some(rotation)) => Ok((x, y, rotation)),
            _ => Err(Fault::Value { field: "at"@ }),
        }
    }
}

impl TryFromExpression<KiCadLocation> for KiCadLocation {
    open spec fn meaning(expression: Seq<Atom>) -> Result<(Seq<char>, Seq<char>, Seq<char>), Fault> {
        location_of(expression)
    }

    fn try_from_expression(expression: Expression) -> (outcome: Result<KiCadLocation, ParseError>) {
        match check_expression_validity(&expression, "at".to_owned()) {
            Err(error) => {
                return Err(error);
            },
            Ok(()) => {},
        }
        if expression.len() < 5 {
            return Err(ParseError::value("at"));
        }
        let x = number_of(&expression, 2);
        let y = number_of(&expression, 3);
        let rotation = number_of(&expression, 4);
        match (x, y, rotation) {
            (Some(x), Some(y), Some(rotation)) => Ok(KiCadLocation(x, y, rotation)),
            _ => Err(ParseError::value("at")),
        }
    }
}

/// A font size as the contracts see it.
pub struct FontSizeModel {
    pub width: Seq<char>,
    pub height: Seq<char>,
}

/// The size of a font.
#[derive(Debug, Clone)]
pub struct KiCadFontSize {
    pub width: Number,
    pub height: Number,
}

impl DeepView for KiCadFontSize {
    type V = FontSizeModel;

    open spec fn deep_view(&self) -> FontSizeModel {
        FontSizeModel { width: self.width.deep_view(), height: self.height.deep_view() }
    }
}

/// What `(size width height)` stands for. The form has exactly five tokens.
pub open spec fn font_size_of(expression: Seq<Atom>) -> Result<FontSizeModel, Fault> {
    if !opens_with(expression, "size"@) {
        Err(Fault::Structure { form: "size"@ })
    } else if expression.len() != 5 {
        Err(Fault::Value { field: "size"@ })
    } else {
        match (number_at(expression, 2), number_at(expression, 3)) {
            (Some(width), Some(height)) => Ok(FontSizeModel { width, height }),
            _ => Err(Fault::Value { field: "size"@ }),
        }
    }
}

impl TryFromExpression<KiCadFontSize> for KiCadFontSize {
    open spec fn meaning(expression: Seq<Atom>) -> Result<FontSizeModel, Fault> {
        font_size_of(expression)
    }

    fn try_from_expression(expression: Expression) -> (outcome: Result<KiCadFontSize, ParseError>) {
        match check_expression_validity(&expression, "size".to_owned()) {
            Err(error) => {
                return Err(error);
            },
            Ok(()) => {},
        }
        if expression.len() != 5 {
            return Err(ParseError::value("size"));
        }
        let width = number_of(&expression, 2);
        let height = number_of(&expression, 3);
        match (width, height) {
            (Some(width), Some(height)) => Ok(KiCadFontSize { width, height }),
            _ => Err(ParseError::value("size")),
        }
    }
}

/// A font as the contracts see it.
pub struct FontModel {
    pub font_size: Option<FontSizeModel>,
    pub bold: bool,
    pub italic: bool,
    pub subscript: bool,
    pub superscript: bool,
    pub overbar: bool,
    pub underline: bool,
}

/// A font: its size, where one is given, and six switches.
#[derive(Debug, Clone)]
pub struct KiCadFont {
    pub font_size: Option<KiCadFontSize>,
    pub bold: bool,
    pub italic: bool,
    pub subscript: bool,
    pub superscript: bool,
    pub overbar: bool,
    pub underline: bool,
}

impl DeepView for KiCadFont {
    type V = FontModel;

    open spec fn deep_view(&self) -> FontModel {
        FontModel {
            font_size: self.font_size.deep_view(),
            bold: self.bold,
            italic: self.italic,
            subscript: self.subscript,
            superscript: self.superscript,
            overbar: self.overbar,
            underline: self.underline,
        }
    }
}

/// A font without a size and with every switch off.
pub open spec fn plain_font() -> FontModel {
    FontModel {
        font_size: None,
        bold: false,
        italic: false,
        subscript: false,
        superscript: false,
        overbar: false,
        underline: false,
    }
}

/// The font after one more child. A child named `size` sets the size; a
/// child named after a switch turns it on by being there; a child without a
/// keyword changes nothing; any other keyword is refused.
pub open spec fn font_with(font: FontModel, child: Seq<Atom>) -> Result<FontModel, Fault> {
    match word_at(child, 1) {
        None => Ok(font),
        Some(keyword) => if keyword == "size"@ {
            match font_size_of(child) {
                Ok(size) => Ok(FontModel { font_size: Some(size), ..font }),
                Err(fault) => Err(fault),
            }
        } else if keyword == "bold"@ {
            Ok(FontModel { bold: true, ..font })
        } else if keyword == "italic"@ {
            Ok(FontModel { italic: true, ..font })
        } else if keyword == "subscript"@ {
            Ok(FontModel { subscript: true, ..font })
        } else if keyword == "superscript"@ {
            Ok(FontModel { superscript: true, ..font })
        } else if keyword == "overbar"@ {
            Ok(FontModel { overbar: true, ..font })
        } else if keyword == "underline"@ {
            Ok(FontModel { underline: true, ..font })
        } else {
            Err(Fault::Schema { form: "font"@, keyword })
        },
    }
}

/// The font after the children from `at` on, read in order up to the first
/// that fails.
pub open spec fn font_from(children: Seq<Seq<Atom>>, at: int, font: FontModel) -> Result<
    FontModel,
    Fault,
>
    decreases children.len() - at,
{
    if at < 0 || at >= children.len() {
        Ok(font)
    } else {
        match font_with(font, children[at]) {
            Ok(next) => font_from(children, at + 1, next),
            Err(fault) => Err(fault),
        }
    }
}

/// What `(font child ...)` stands for.
pub open spec fn font_of(expression: Seq<Atom>) -> Result<FontModel, Fault> {
    if !opens_with(expression, "font"@) {
        Err(Fault::Structure { form: "font"@ })
    } else {
        font_from(children_of(expression, 2), 0, plain_font())
    }
}

impl TryFromExpression<KiCadFont> for KiCadFont {
    open spec fn meaning(expression: Seq<Atom>) -> Result<FontModel, Fault> {
        font_of(expression)
    }

    fn try_from_expression(expression: Expression) -> (outcome: Result<KiCadFont, ParseError>) {
        let ghost atoms = expression.deep_view();
        match check_expression_validity(&expression, "font".to_owned()) {
            Err(error) => {
                return Err(error);
            },
            Ok(()) => {},
        }
        let children = children_from(expression, 2);
        let ghost forms = children.deep_view();
        assert(forms =~= atoms_of_all(children@));
        let mut font = KiCadFont {
            font_size: None,
            bold: false,
            italic: false,
            subscript: false,
            superscript: false,
            overbar: false,
            underline: false,
        };
        for child in it: children
            invariant
                atoms == expression.deep_view(),
                forms == atoms_of_all(it.seq()),
                font_from(forms, it.index() as int, font.deep_view()) == font_of(atoms),
        {
            assert(forms[it.index() as int] == child.deep_view());
            match keyword_of(&child) {
                None => {},
                Some(keyword) => {
                    if same_text(keyword.as_str(), "size") {
                        match KiCadFontSize::try_from_expression(child) {
                            Ok(size) => {
                                font.font_size = Some(size);
                            },
                            Err(error) => {
                                return Err(error);
                            },
                        }
                    } else if same_text(keyword.as_str(), "bold") {
                        font.bold = true;
                    } else if same_text(keyword.as_str(), "italic") {
                        font.italic = true;
                    } else if same_text(keyword.as_str(), "subscript") {
                        font.subscript = true;
                    } else if same_text(keyword.as_str(), "superscript") {
                        font.superscript = true;
                    } else if same_text(keyword.as_str(), "overbar") {
                        font.overbar = true;
                    } else if same_text(keyword.as_str(), "underline") {
                        font.underline = true;
                    } else {
                        return Err(ParseError::Schema { form: "font".to_owned(), keyword });
                    }
                },
            }
        }
        Ok(font)
    }
}

/// A side to which text is pushed.
#[derive(Debug, Clone, Copy, PartialEq, Eq, Structural)]
pub enum KiCadEffectsJustify {
    Bottom,
    Top,
    Left,
    Right,
}

impl DeepView for KiCadEffectsJustify {
    type V = KiCadEffectsJustify;

    open spec fn deep_view(&self) -> KiCadEffectsJustify {
        *self
    }
}

impl KiCadEffectsJustify {
    /// The side that a word names. The names are in lower case.
    pub open spec fn named(word: Seq<char>) -> Option<KiCadEffectsJustify> {
        if word == "bottom"@ {
            Some(KiCadEffectsJustify::Bottom)
        } else if word == "top"@ {
            Some(KiCadEffectsJustify::Top)
        } else if word == "left"@ {
            Some(KiCadEffectsJustify::Left)
        } else if word == "right"@ {
            Some(KiCadEffectsJustify::Right)
        } else {
            None
        }
    }

    /// The side that a word names.
    pub fn from_word(word: &str) -> (side: Option<KiCadEffectsJustify>)
        ensures
            side == Self::named(word@),
    {
        if same_text(word, "bottom") {
            Some(KiCadEffectsJustify::Bottom)
        } else if same_text(word, "top") {
            Some(KiCadEffectsJustify::Top)
        } else if same_text(word, "left") {
            Some(KiCadEffectsJustify::Left)
        } else if same_text(word, "right") {
            Some(KiCadEffectsJustify::Right)
        } else {
            None
        }
    }
}

/// Effects as the contracts see them.
pub struct EffectsModel {
    pub font: Option<FontModel>,
    pub hide: bool,
    pub justify: Seq<KiCadEffectsJustify>,
}

/// How a text is drawn: its font, whether it is hidden, and the sides it is
/// pushed to, in the order in which they were written.
#[derive(Debug, Clone)]
pub struct KiCadEffects {
    pub font: Option<KiCadFont>,
    pub hide: bool,
    pub justify: Vec<KiCadEffectsJustify>,
}

impl DeepView for KiCadEffects {
    type V = EffectsModel;

    open spec fn deep_view(&self) -> EffectsModel {
        EffectsModel { font: self.font.deep_view(), hide: self.hide, justify: self.justify@ }
    }
}

/// The sides gathered so far with those that the words of a `justify` child
/// name from position `at` up to its last token, which is left out.
pub open spec fn justify_from(child: Seq<Atom>, at: int, sides: Seq<KiCadEffectsJustify>) -> Result<
    Seq<KiCadEffectsJustify>,
    Fault,
>
    decreases child.len() - at,
{
    if at < 2 || at >= child.len() - 1 {
        Ok(sides)
    } else {
        match word_at(child, at) {
            Some(word) => match KiCadEffectsJustify::named(word) {
                Some(side) => justify_from(child, at + 1, sides.push(side)),
                None => Err(Fault::Value { field: "justify"@ }),
            },
            None => Err(Fault::Value { field: "justify"@ }),
        }
    }
}

/// The effects after one more child. `font` sets the font, `hide` hides the
/// text, `justify` adds the sides it names; a child without a keyword
/// changes nothing; any other keyword is refused.
pub open spec fn effects_with(effects: EffectsModel, child: Seq<Atom>) -> Result<
    EffectsModel,
    Fault,
> {
    match word_at(child, 1) {
        None => Ok(effects),
        Some(keyword) => if keyword == "font"@ {
            match font_of(child) {
                Ok(font) => Ok(EffectsModel { font: Some(font), ..effects }),
                Err(fault) => Err(fault),
            }
        } else if keyword == "justify"@ {
            if child.len() < 3 {
                Err(Fault::Value { field: "justify"@ })
            } else {
                match justify_from(child, 2, effects.justify) {
                    Ok(sides) => Ok(EffectsModel { justify: sides, ..effects }),
                    Err(fault) => Err(fault),
                }
            }
        } else if keyword == "hide"@ {
            Ok(EffectsModel { hide: true, ..effects })
        } else {
            Err(Fault::Schema { form: "effects"@, keyword })
        },
    }
}

/// The effects after the children from `at` on, read in order up to the
/// first that fails.
pub open spec fn effects_from(children: Seq<Seq<Atom>>, at: int, effects: EffectsModel) -> Result<
    EffectsModel,
    Fault,
>
    decreases children.len() - at,
{
    if at < 0 || at >= children.len() {
        Ok(effects)
    } else {
        match effects_with(effects, children[at]) {
            Ok(next) => effects_from(children, at + 1, next),
            Err(fault) => Err(fault),
        }
    }
}

/// What `(effects child ...)` stands for.
pub open spec fn effects_of(expression: Seq<Atom>) -> Result<EffectsModel, Fault> {
    if !opens_with(expression, "effects"@) {
        Err(Fault::Structure { form: "effects"@ })
    } else {
        effects_from(
            children_of(expression, 2),
            0,
            EffectsModel { font: None, hide: false, justify: Seq::empty() },
        )
    }
}

impl TryFromExpression<KiCadEffects> for KiCadEffects {
    open spec fn meaning(expression: Seq<Atom>) -> Result<EffectsModel, Fault> {
        effects_of(expression)
    }

    #[verifier::loop_isolation(false)]
    fn try_from_expression(expression: Expression) -> (outcome: Result<KiCadEffects, ParseError>) {
        let ghost atoms = expression.deep_view();
        check_expression_validity(&expression, "effects".to_owned())?;
        let children = children_from(expression, 2);
        let ghost forms = children.deep_view();
        assert(forms =~= atoms_of_all(children@));
        let mut effects = KiCadEffects { font: None, hide: false, justify: Vec::new() };
        for child in it: children
            invariant
                atoms == expression.deep_view(),
                forms == atoms_of_all(it.seq()),
                effects_from(forms, it.index() as int, effects.deep_view()) == effects_of(atoms),
        {
            assert(forms[it.index() as int] == child.deep_view());
            let ghost before = effects.deep_view();
            match keyword_of(&child) {
                None => {},
                Some(keyword) => {
                    if same_text(keyword.as_str(), "font") {
                        effects.font = Some(KiCadFont::try_from_expression(child)?);
                    } else if same_text(keyword.as_str(), "justify") {
                        if child.len() < 3 {
                            return Err(ParseError::value("justify"));
                        }
                        let mut at: usize = 2;
                        while at < child.len() - 1
                            invariant
                                2 <= at,
                                child.len() >= 3,
                                effects.deep_view().font == before.font,
                                effects.hide == before.hide,
                                justify_from(child.deep_view(), at as int, effects.justify@)
                                    == justify_from(child.deep_view(), 2, before.justify),
                            decreases child.len() - at,
                        {
                            let side = match word_of(&child, at) {
                                Some(word) => KiCadEffectsJustify::from_word(word.as_str()),
                                None => None,
                            };
                            match side {
                                Some(side) => {
                                    effects.justify.push(side);
                                },
                                None => {
                                    return Err(ParseError::value("justify"));
                                },
                            }
                            at = at + 1;
                        }
                    } else if same_text(keyword.as_str(), "hide") {
                        effects.hide = true;
                    } else {
                        return Err(ParseError::Schema { form: "effects".to_owned(), keyword });
                    }
                },
            }
        }
        Ok(effects)
    }
}

} // verus!
