//! Pins: the points at which a symbol is connected.

use vstd::prelude::*;
use crate::error::{outcome_view, Fault, ParseError};
use crate::guard::{check_expression_validity, children_from, children_of, opens_with, word_at, word_of};
use crate::number::Number;
use crate::symbols::style::{
    effects_of, keyword_of, location_of, number_at, number_of, EffectsModel, KiCadEffects,
    KiCadLocation,
};
use crate::symbols::{atoms_of_all, TryFromExpression};
use crate::text::same_text;
use crate::token::{Atom, Expression};

verus! {

/// A word with the effects it is drawn with: the shape of a pin's name and
/// of its number.
pub struct LabelModel {
    pub text: Seq<char>,
    pub effects: Option<EffectsModel>,
}

/// The effects after one more child of a label. `effects` sets them; a
/// child without a keyword changes nothing; any other keyword is refused.
pub open spec fn label_with(
    effects: Option<EffectsModel>,
    child: Seq<Atom>,
    form: Seq<char>,
) -> Result<Option<EffectsModel>, Fault> {
    match word_at(child, 1) {
        None => Ok(effects),
        Some(keyword) => if keyword == "effects"@ {
            match effects_of(child) {
                Ok(found) => Ok(Some(found)),
                Err(fault) => Err(fault),
            }
        } else {
            Err(Fault::Schema { form, keyword })
        },
    }
}

/// The effects after the children from `at` on, read in order up to the
/// first that fails.
pub open spec fn label_from(
    children: Seq<Seq<Atom>>,
    at: int,
    effects: Option<EffectsModel>,
    form: Seq<char>,
) -> Result<Option<EffectsModel>, Fault>
    decreases children.len() - at,
{
    if at < 0 || at >= children.len() {
        Ok(effects)
    } else {
        match label_with(effects, children[at], form) {
            Ok(next) => label_from(children, at + 1, next, form),
            Err(fault) => Err(fault),
        }
    }
}

/// What `(keyword "text" child ...)` stands for. The text is the third
/// token and has to be a word.
pub open spec fn label_of(expression: Seq<Atom>, keyword: Seq<char>) -> Result<LabelModel, Fault> {
    if !opens_with(expression, keyword) {
        Err(Fault::Structure { form: keyword })
    } else {
        match word_at(expression, 2) {
            None => Err(Fault::Value { field: keyword }),
            Some(text) => match label_from(children_of(expression, 3), 0, None, keyword) {
                Ok(effects) => Ok(LabelModel { text, effects }),
                Err(fault) => Err(fault),
            },
        }
    }
}

/// Reads a label under the keyword given.
#[verifier::loop_isolation(false)]
fn read_label(expression: Expression, keyword: &str) -> (outcome: Result<
    (String, Option<KiCadEffects>),
    ParseError,
>)
    ensures
        match outcome {
            Ok(label) => label_of(expression.deep_view(), keyword@) == Ok::<LabelModel, Fault>(
                LabelModel { text: label.0@, effects: label.1.deep_view() },
            ),
            Err(error) => label_of(expression.deep_view(), keyword@) == Err::<LabelModel, Fault>(
                error.deep_view(),
            ),
        },
{
    check_expression_validity(&expression, keyword.to_owned())?;
    let text = match word_of(&expression, 2) {
        Some(word) => word.clone(),
        None => {
            return Err(ParseError::value(keyword));
        },
    };
    let children = children_from(expression, 3);
    let ghost forms = children.deep_view();
    assert(forms =~= atoms_of_all(children@));
    let mut effects: Option<KiCadEffects> = None;
    for child in it: children
        invariant
            forms == atoms_of_all(it.seq()),
            label_from(forms, it.index() as int, effects.deep_view(), keyword@) == label_from(
                forms,
                0,
                None,
                keyword@,
            ),
    {
        assert(forms[it.index() as int] == child.deep_view());
        match keyword_of(&child) {
            None => {},
            Some(child_keyword) => {
                if same_text(child_keyword.as_str(), "effects") {
                    effects = Some(KiCadEffects::try_from_expression(child)?);
                } else {
                    return Err(ParseError::Schema { form: keyword.to_owned(), keyword: child_keyword });
                }
            },
        }
    }
    Ok((text, effects))
}

/// The name of a pin.
#[derive(Debug, Clone)]
pub struct KiCadPinName {
    pub name: String,
    pub effects: Option<KiCadEffects>,
}

impl DeepView for KiCadPinName {
    type V = LabelModel;

    open spec fn deep_view(&self) -> LabelModel {
        LabelModel { text: self.name@, effects: self.effects.deep_view() }
    }
}

impl TryFromExpression<KiCadPinName> for KiCadPinName {
    /// What `(name "text" child ...)` stands for.
    open spec fn meaning(expression: Seq<Atom>) -> Result<LabelModel, Fault> {
        label_of(expression, "name"@)
    }

    fn try_from_expression(expression: Expression) -> (outcome: Result<KiCadPinName, ParseError>) {
        let (name, effects) = read_label(expression, "name")?;
        Ok(KiCadPinName { name, effects })
    }
}

/// The number of a pin. It is a word: pins are numbered `1`, `A1`, `~`.
#[derive(Debug, Clone)]
pub struct KiCadPinNumber {
    pub number: String,
    pub effects: Option<KiCadEffects>,
}

impl DeepView for KiCadPinNumber {
    type V = LabelModel;

    open spec fn deep_view(&self) -> LabelModel {
        LabelModel { text: self.number@, effects: self.effects.deep_view() }
    }
}

impl TryFromExpression<KiCadPinNumber> for KiCadPinNumber {
    /// What `(number "text" child ...)` stands for.
    open spec fn meaning(expression: Seq<Atom>) -> Result<LabelModel, Fault> {
        label_of(expression, "number"@)
    }

    fn try_from_expression(expression: Expression) -> (outcome: Result<KiCadPinNumber, ParseError>) {
        let (number, effects) = read_label(expression, "number")?;
        Ok(KiCadPinNumber { number, effects })
    }
}

/// What a pin is electrically.
#[derive(Debug, Clone, Copy, PartialEq, Eq, Structural)]
pub enum KiCadPinType {
    Passive,
    PowerIn,
    PowerOut,
    Input,
    Unspecified,
}

impl DeepView for KiCadPinType {
    type V = KiCadPinType;

    open spec fn deep_view(&self) -> KiCadPinType {
        *self
    }
}

impl KiCadPinType {
    /// The type that a word names. The names are in lower case.
    pub open spec fn named(word: Seq<char>) -> Option<KiCadPinType> {
        if word == "passive"@ {
            Some(KiCadPinType::Passive)
        } else if word == "power_in"@ {
            Some(KiCadPinType::PowerIn)
        } else if word == "power_out"@ {
            Some(KiCadPinType::PowerOut)
        } else if word == "input"@ {
            Some(KiCadPinType::Input)
        } else if word == "unspecified"@ {
            Some(KiCadPinType::Unspecified)
        } else {
            None
        }
    }

    /// The type that a word names. A word that names none is a value error
    /// under `pin`.
    pub fn from_str(s: &str) -> (outcome: Result<KiCadPinType, ParseError>)
        ensures
            outcome_view(outcome) == match Self::named(s@) {
                Some(kind) => Ok::<KiCadPinType, Fault>(kind),
                None => Err(Fault::Value { field: "pin"@ }),
            },
    {
        if same_text(s, "passive") {
            Ok(KiCadPinType::Passive)
        } else if same_text(s, "power_in") {
            Ok(KiCadPinType::PowerIn)
        } else if same_text(s, "power_out") {
            Ok(KiCadPinType::PowerOut)
        } else if same_text(s, "input") {
            Ok(KiCadPinType::Input)
        } else if same_text(s, "unspecified") {
            Ok(KiCadPinType::Unspecified)
        } else {
            Err(ParseError::value("pin"))
        }
    }
}

/// Whether a pin is drawn as a plain line or with the circle of an inversion.
#[derive(Debug, Clone, Copy, PartialEq, Eq, Structural)]
pub enum KiCadPinPolarity {
    Line,
    Inverted,
}

impl DeepView for KiCadPinPolarity {
    type V = KiCadPinPolarity;

    open spec fn deep_view(&self) -> KiCadPinPolarity {
        *self
    }
}

impl KiCadPinPolarity {
    /// The polarity that a word names. The names are in lower case.
    pub open spec fn named(word: Seq<char>) -> Option<KiCadPinPolarity> {
        if word == "line"@ {
            Some(KiCadPinPolarity::Line)
        } else if word == "inverted"@ {
            Some(KiCadPinPolarity::Inverted)
        } else {
            None
        }
    }

    /// The polarity that a word names. A word that names none is a value
    /// error under `pin`.
    pub fn from_str(s: &str) -> (outcome: Result<KiCadPinPolarity, ParseError>)
        ensures
            outcome_view(outcome) == match Self::named(s@) {
                Some(polarity) => Ok::<KiCadPinPolarity, Fault>(polarity),
                None => Err(Fault::Value { field: "pin"@ }),
            },
    {
        if same_text(s, "line") {
            Ok(KiCadPinPolarity::Line)
        } else if same_text(s, "inverted") {
            Ok(KiCadPinPolarity::Inverted)
        } else {
            Err(ParseError::value("pin"))
        }
    }
}

/// The length of a pin.
#[derive(Debug, Clone)]
pub struct KiCadPinLength(pub Number);

impl DeepView for KiCadPinLength {
    type V = Seq<char>;

    open spec fn deep_view(&self) -> Seq<char> {
        self.0.deep_view()
    }
}

/// What `(length number)` stands for.
pub open spec fn pin_length_of(expression: Seq<Atom>) -> Result<Seq<char>, Fault> {
    if !opens_with(expression, "length"@) {
        Err(Fault::Structure { form: "length"@ })
    } else {
        match number_at(expression, 2) {
            Some(length) => Ok(length),
            None => Err(Fault::Value { field: "length"@ }),
        }
    }
}

impl TryFromExpression<KiCadPinLength> for KiCadPinLength {
    open spec fn meaning(expression: Seq<Atom>) -> Result<Seq<char>, Fault> {
        pin_length_of(expression)
    }

    fn try_from_expression(expression: Expression) -> (outcome: Result<KiCadPinLength, ParseError>) {
        check_expression_validity(&expression, "length".to_owned())?;
        match number_of(&expression, 2) {
            Some(length) => Ok(KiCadPinLength(length)),
            None => Err(ParseError::value("length")),
        }
    }
}

/// A pin as the contracts see it.
pub struct PinModel {
    pub pin_type: KiCadPinType,
    pub pin_polarity: KiCadPinPolarity,
    pub location: Option<(Seq<char>, Seq<char>, Seq<char>)>,
    pub length: Option<Seq<char>>,
    pub name: Option<LabelModel>,
    pub number: Option<LabelModel>,
}

/// A pin with what is known of it.
#[derive(Debug, Clone)]
pub struct KiCadPin {
    pub pin_type: KiCadPinType,
    pub pin_polarity: KiCadPinPolarity,
    pub location: Option<KiCadLocation>,
    pub length: Option<KiCadPinLength>,
    pub name: Option<KiCadPinName>,
    pub number: Option<KiCadPinNumber>,
}

impl DeepView for KiCadPin {
    type V = PinModel;

    open spec fn deep_view(&self) -> PinModel {
        PinModel {
            pin_type: self.pin_type,
            pin_polarity: self.pin_polarity,
            location: self.location.deep_view(),
            length: self.length.deep_view(),
            name: self.name.deep_view(),
            number: self.number.deep_view(),
        }
    }
}

/// The pin after one more child. `name`, `number`, `at` and `length` set
/// their part. Every other child is passed over, whatever its keyword: a
/// pin may carry children that this reader does not know.
pub open spec fn pin_with(pin: PinModel, child: Seq<Atom>) -> Result<PinModel, Fault> {
    match word_at(child, 1) {
        None => Ok(pin),
        Some(keyword) => if keyword == "name"@ {
            match label_of(child, "name"@) {
                Ok(name) => Ok(PinModel { name: Some(name), ..pin }),
                Err(fault) => Err(fault),
            }
        } else if keyword == "number"@ {
            match label_of(child, "number"@) {
                Ok(number) => Ok(PinModel { number: Some(number), ..pin }),
                Err(fault) => Err(fault),
            }
        } else if keyword == "at"@ {
            match location_of(child) {
                Ok(location) => Ok(PinModel { location: Some(location), ..pin }),
                Err(fault) => Err(fault),
            }
        } else if keyword == "length"@ {
            match pin_length_of(child) {
                Ok(length) => Ok(PinModel { length: Some(length), ..pin }),
                Err(fault) => Err(fault),
            }
        } else {
            Ok(pin)
        },
    }
}

/// The pin after the children from `at` on, read in order up to the first
/// that fails.
pub open spec fn pin_from(children: Seq<Seq<Atom>>, at: int, pin: PinModel) -> Result<
    PinModel,
    Fault,
>
    decreases children.len() - at,
{
    if at < 0 || at >= children.len() {
        Ok(pin)
    } else {
        match pin_with(pin, children[at]) {
            Ok(next) => pin_from(children, at + 1, next),
            Err(fault) => Err(fault),
        }
    }
}

/// What `(pin type polarity child ...)` stands for. Type and polarity are
/// the third and fourth token and have to be words that name one.
pub open spec fn pin_of(expression: Seq<Atom>) -> Result<PinModel, Fault> {
    if !opens_with(expression, "pin"@) {
        Err(Fault::Structure { form: "pin"@ })
    } else {
        match (word_at(expression, 2), word_at(expression, 3)) {
            (Some(kind), Some(polarity)) => match (
                KiCadPinType::named(kind),
                KiCadPinPolarity::named(polarity),
            ) {
                (Some(pin_type), Some(pin_polarity)) => pin_from(
                    children_of(expression, 4),
                    0,
                    PinModel {
                        pin_type,
                        pin_polarity,
                        location: None,
                        length: None,
                        name: None,
                        number: None,
                    },
                ),
                _ => Err(Fault::Value { field: "pin"@ }),
            },
            _ => Err(Fault::Value { field: "pin"@ }),
        }
    }
}

impl TryFromExpression<KiCadPin> for KiCadPin {
    open spec fn meaning(expression: Seq<Atom>) -> Result<PinModel, Fault> {
        pin_of(expression)
    }

    #[verifier::loop_isolation(false)]
    fn try_from_expression(expression: Expression) -> (outcome: Result<KiCadPin, ParseError>) {
        check_expression_validity(&expression, "pin".to_owned())?;
        let kind = match word_of(&expression, 2) {
            Some(word) => word,
            None => {
                return Err(ParseError::value("pin"));
            },
        };
        let polarity = match word_of(&expression, 3) {
            Some(word) => word,
            None => {
                return Err(ParseError::value("pin"));
            },
        };
        let pin_type = KiCadPinType::from_str(kind.as_str())?;
        let pin_polarity = KiCadPinPolarity::from_str(polarity.as_str())?;
        let mut pin = KiCadPin {
            pin_type,
            pin_polarity,
            location: None,
            length: None,
            name: None,
            number: None,
        };
        let ghost first = pin.deep_view();
        let children = children_from(expression, 4);
        let ghost forms = children.deep_view();
        assert(forms =~= atoms_of_all(children@));
        for child in it: children
            invariant
                forms == atoms_of_all(it.seq()),
                pin_from(forms, it.index() as int, pin.deep_view()) == pin_from(forms, 0, first),
        {
            assert(forms[it.index() as int] == child.deep_view());
            match keyword_of(&child) {
                None => {},
                Some(keyword) => {
                    if same_text(keyword.as_str(), "name") {
                        pin.name = Some(KiCadPinName::try_from_expression(child)?);
                    } else if same_text(keyword.as_str(), "number") {
                        pin.number = Some(KiCadPinNumber::try_from_expression(child)?);
                    } else if same_text(keyword.as_str(), "at") {
                        pin.location = Some(KiCadLocation::try_from_expression(child)?);
                    } else if same_text(keyword.as_str(), "length") {
                        pin.length = Some(KiCadPinLength::try_from_expression(child)?);
                    }
                },
            }
        }
        Ok(pin)
    }
}

} // verus!
