//! Properties of a symbol, its flags and its pin-name block.

use vstd::prelude::*;
use crate::error::{outcome_view, Fault, ParseError};
use crate::guard::{
    check_expression_validity, children_from, children_of, get_expression_first_value, opens_with,
    word_at, word_of,
};
use crate::number::{is_number, FromWord, Number};
use crate::symbols::style::{
    effects_of, keyword_of, location_of, number_at, number_of, EffectsModel, KiCadEffects,
    KiCadLocation,
};
use crate::symbols::{atoms_of_all, TryFromExpression};
use crate::text::same_text;
use crate::token::{Atom, Expression, Token};

verus! {

/// The keys that a property can have.
#[derive(Debug, Clone, Copy, PartialEq, Eq, Structural)]
pub enum KiCadPropertyType {
    Reference,
    Value,
    Footprint,
    Datasheet,
    Description,
    KiLocked,
    KiKeywords,
    KiFpFilters,
    PartRev,
    Standard,
    MaximumPackageHeight,
    Manufacturer,
}

impl DeepView for KiCadPropertyType {
    type V = KiCadPropertyType;

    open spec fn deep_view(&self) -> KiCadPropertyType {
        *self
    }
}

impl KiCadPropertyType {
    /// How the key is written in a library. Case matters.
    pub open spec fn spelling(self) -> Seq<char> {
        match self {
            KiCadPropertyType::Reference => "Reference"@,
            KiCadPropertyType::Value => "Value"@,
            KiCadPropertyType::Footprint => "Footprint"@,
            KiCadPropertyType::Datasheet => "Datasheet"@,
            KiCadPropertyType::Description => "Description"@,
            KiCadPropertyType::KiLocked => "ki_locked"@,
            KiCadPropertyType::KiKeywords => "ki_keywords"@,
            KiCadPropertyType::KiFpFilters => "ki_fp_filters"@,
            KiCadPropertyType::PartRev => "PARTREV"@,
            KiCadPropertyType::Standard => "STANDARD"@,
            KiCadPropertyType::MaximumPackageHeight => "MAXIMUM_PACKAGE_HEIGHT"@,
            KiCadPropertyType::Manufacturer => "MANUFACTURER"@,
        }
    }

    /// The key that a word names.
    pub open spec fn named(word: Seq<char>) -> Option<KiCadPropertyType> {
        if word == KiCadPropertyType::Reference.spelling() {
            Some(KiCadPropertyType::Reference)
        } else if word == KiCadPropertyType::Value.spelling() {
            Some(KiCadPropertyType::Value)
        } else if word == KiCadPropertyType::Footprint.spelling() {
            Some(KiCadPropertyType::Footprint)
        } else if word == KiCadPropertyType::Datasheet.spelling() {
            Some(KiCadPropertyType::Datasheet)
        } else if word == KiCadPropertyType::Description.spelling() {
            Some(KiCadPropertyType::Description)
        } else if word == KiCadPropertyType::KiLocked.spelling() {
            Some(KiCadPropertyType::KiLocked)
        } else if word == KiCadPropertyType::KiKeywords.spelling() {
            Some(KiCadPropertyType::KiKeywords)
        } else if word == KiCadPropertyType::KiFpFilters.spelling() {
            Some(KiCadPropertyType::KiFpFilters)
        } else if word == KiCadPropertyType::PartRev.spelling() {
            Some(KiCadPropertyType::PartRev)
        } else if word == KiCadPropertyType::Standard.spelling() {
            Some(KiCadPropertyType::Standard)
        } else if word == KiCadPropertyType::MaximumPackageHeight.spelling() {
            Some(KiCadPropertyType::MaximumPackageHeight)
        } else if word == KiCadPropertyType::Manufacturer.spelling() {
            Some(KiCadPropertyType::Manufacturer)
        } else {
            None
        }
    }

    /// The key that a word names. A word that names none is a value error
    /// under `property`.
    pub fn from_str(s: &str) -> (outcome: Result<KiCadPropertyType, ParseError>)
        ensures
            outcome_view(outcome) == match Self::named(s@) {
                Some(key) => Ok::<KiCadPropertyType, Fault>(key),
                None => Err(Fault::Value { field: "property"@ }),
            },
    {
        if same_text(s, "Reference") {
            Ok(KiCadPropertyType::Reference)
        } else if same_text(s, "Value") {
            Ok(KiCadPropertyType::Value)
        } else if same_text(s, "Footprint") {
            Ok(KiCadPropertyType::Footprint)
        } else if same_text(s, "Datasheet") {
            Ok(KiCadPropertyType::Datasheet)
        } else if same_text(s, "Description") {
            Ok(KiCadPropertyType::Description)
        } else if same_text(s, "ki_locked") {
            Ok(KiCadPropertyType::KiLocked)
        } else if same_text(s, "ki_keywords") {
            Ok(KiCadPropertyType::KiKeywords)
        } else if same_text(s, "ki_fp_filters") {
            Ok(KiCadPropertyType::KiFpFilters)
        } else if same_text(s, "PARTREV") {
            Ok(KiCadPropertyType::PartRev)
        } else if same_text(s, "STANDARD") {
            Ok(KiCadPropertyType::Standard)
        } else if same_text(s, "MAXIMUM_PACKAGE_HEIGHT") {
            Ok(KiCadPropertyType::MaximumPackageHeight)
        } else if same_text(s, "MANUFACTURER") {
            Ok(KiCadPropertyType::Manufacturer)
        } else {
            Err(ParseError::value("property"))
        }
    }
}

impl KiCadPropertyType {
    /// How the key is written in a library.
    pub fn as_str(&self) -> (word: &'static str)
        ensures
            word@ == self.spelling(),
    {
        match self {
            KiCadPropertyType::Reference => "Reference",
            KiCadPropertyType::Value => "Value",
            KiCadPropertyType::Footprint => "Footprint",
            KiCadPropertyType::Datasheet => "Datasheet",
            KiCadPropertyType::Description => "Description",
            KiCadPropertyType::KiLocked => "ki_locked",
            KiCadPropertyType::KiKeywords => "ki_keywords",
            KiCadPropertyType::KiFpFilters => "ki_fp_filters",
            KiCadPropertyType::PartRev => "PARTREV",
            KiCadPropertyType::Standard => "STANDARD",
            KiCadPropertyType::MaximumPackageHeight => "MAXIMUM_PACKAGE_HEIGHT",
            KiCadPropertyType::Manufacturer => "MANUFACTURER",
        }
    }
}

/// No two keys are written alike: the word that a key is written as names
/// that key and no other.
pub proof fn lemma_spelling_names_its_key(key: KiCadPropertyType)
    ensures
        KiCadPropertyType::named(key.spelling()) == Some(key),
{
    reveal_strlit("Reference");
    reveal_strlit("Value");
    reveal_strlit("Footprint");
    reveal_strlit("Datasheet");
    reveal_strlit("Description");
    reveal_strlit("ki_locked");
    reveal_strlit("ki_keywords");
    reveal_strlit("ki_fp_filters");
    reveal_strlit("PARTREV");
    reveal_strlit("STANDARD");
    reveal_strlit("MAXIMUM_PACKAGE_HEIGHT");
    reveal_strlit("MANUFACTURER");
    assert("Reference"@.len() == 9 && "Reference"@[0] == 'R');
    assert("Value"@.len() == 5);
    assert("Footprint"@.len() == 9 && "Footprint"@[0] == 'F');
    assert("Datasheet"@.len() == 9 && "Datasheet"@[0] == 'D');
    assert("Description"@.len() == 11 && "Description"@[0] == 'D');
    assert("ki_locked"@.len() == 9 && "ki_locked"@[0] == 'k');
    assert("ki_keywords"@.len() == 11 && "ki_keywords"@[0] == 'k');
    assert("ki_fp_filters"@.len() == 13);
    assert("PARTREV"@.len() == 7);
    assert("STANDARD"@.len() == 8);
    assert("MAXIMUM_PACKAGE_HEIGHT"@.len() == 22);
    assert("MANUFACTURER"@.len() == 12);
}

/// The number of a property.
#[derive(Debug, Clone, Copy, PartialEq, Eq, Structural)]
pub struct KiCadPropertyId(pub u32);

impl DeepView for KiCadPropertyId {
    type V = KiCadPropertyId;

    open spec fn deep_view(&self) -> KiCadPropertyId {
        *self
    }
}

/// What `(id number)` stands for. Fewer than four tokens, or a third token
/// that is no whole number of 32 bits, is a value error.
pub open spec fn property_id_of(expression: Seq<Atom>) -> Result<KiCadPropertyId, Fault> {
    if !opens_with(expression, "id"@) {
        Err(Fault::Structure { form: "id"@ })
    } else if expression.len() < 4 {
        Err(Fault::Value { field: "id"@ })
    } else {
        match word_at(expression, 2) {
            Some(word) => match <u32 as FromWord>::reading(word) {
                Some(number) => Ok(KiCadPropertyId(number)),
                None => Err(Fault::Value { field: "id"@ }),
            },
            None => Err(Fault::Value { field: "id"@ }),
        }
    }
}

impl TryFromExpression<KiCadPropertyId> for KiCadPropertyId {
    open spec fn meaning(expression: Seq<Atom>) -> Result<KiCadPropertyId, Fault> {
        property_id_of(expression)
    }

    fn try_from_expression(expression: Expression) -> (outcome: Result<
        KiCadPropertyId,
        ParseError,
    >) {
        check_expression_validity(&expression, "id".to_owned())?;
        if expression.len() < 4 {
            return Err(ParseError::value("id"));
        }
        let number = match word_of(&expression, 2) {
            Some(word) => u32::from_word(word.as_str()),
            None => None,
        };
        match number {
            Some(number) => Ok(KiCadPropertyId(number)),
            None => Err(ParseError::value("id")),
        }
    }
}

/// A property as the contracts see it.
pub struct PropertyModel {
    pub property_type: KiCadPropertyType,
    pub value: Seq<char>,
    pub id: Option<KiCadPropertyId>,
    pub location: Option<(Seq<char>, Seq<char>, Seq<char>)>,
    pub effects: Option<EffectsModel>,
}

/// One entry of a symbol's metadata.
#[derive(Debug, Clone)]
pub struct KiCadProperty {
    pub property_type: KiCadPropertyType,
    pub value: String,
    pub id: Option<KiCadPropertyId>,
    pub location: Option<KiCadLocation>,
    pub effects: Option<KiCadEffects>,
}

impl DeepView for KiCadProperty {
    type V = PropertyModel;

    open spec fn deep_view(&self) -> PropertyModel {
        PropertyModel {
            property_type: self.property_type,
            value: self.value@,
            id: self.id,
            location: self.location.deep_view(),
            effects: self.effects.deep_view(),
        }
    }
}

/// A property in the making: key and value are fixed from the start, the
/// other parts are put in as they are found.
pub struct KiCadPropertyBuilder {
    property_type: KiCadPropertyType,
    value: String,
    id: Option<KiCadPropertyId>,
    location: Option<KiCadLocation>,
    effects: Option<KiCadEffects>,
}

impl DeepView for KiCadPropertyBuilder {
    type V = PropertyModel;

    closed spec fn deep_view(&self) -> PropertyModel {
        PropertyModel {
            property_type: self.property_type,
            value: self.value@,
            id: self.id,
            location: self.location.deep_view(),
            effects: self.effects.deep_view(),
        }
    }
}

impl KiCadPropertyBuilder {
    pub fn new(property_type: KiCadPropertyType, value: String) -> (builder: KiCadPropertyBuilder)
        ensures
            builder.deep_view() == (PropertyModel {
                property_type,
                value: value@,
                id: None,
                location: None,
                effects: None,
            }),
    {
        KiCadPropertyBuilder { property_type, value, id: None, location: None, effects: None }
    }

    pub fn id(&mut self, id: KiCadPropertyId) -> (builder: &mut KiCadPropertyBuilder)
        ensures
            builder.deep_view() == (PropertyModel { id: Some(id), ..old(self).deep_view() }),
            *final(self) == *final(builder),
    {
        self.id = Some(id);
        self
    }

    pub fn location(&mut self, location: KiCadLocation) -> (builder: &mut KiCadPropertyBuilder)
        ensures
            builder.deep_view() == (PropertyModel {
                location: Some(location.deep_view()),
                ..old(self).deep_view()
            }),
            *final(self) == *final(builder),
    {
        self.location = Some(location);
        self
    }

    pub fn effects(&mut self, effects: KiCadEffects) -> (builder: &mut KiCadPropertyBuilder)
        ensures
            builder.deep_view() == (PropertyModel {
                effects: Some(effects.deep_view()),
                ..old(self).deep_view()
            }),
            *final(self) == *final(builder),
    {
        self.effects = Some(effects);
        self
    }

    pub fn build(self) -> (property: KiCadProperty)
        ensures
            property.deep_view() == self.deep_view(),
    {
        KiCadProperty {
            property_type: self.property_type,
            value: self.value,
            id: self.id,
            location: self.location,
            effects: self.effects,
        }
    }
}

/// The property after one more child. `id` sets the number, `at` the place
/// and `effects` the effects; a child without a keyword changes nothing;
/// any other keyword is refused.
pub open spec fn property_with(property: PropertyModel, child: Seq<Atom>) -> Result<
    PropertyModel,
    Fault,
> {
    match word_at(child, 1) {
        None => Ok(property),
        Some(keyword) => if keyword == "id"@ {
            match property_id_of(child) {
                Ok(id) => Ok(PropertyModel { id: Some(id), ..property }),
                Err(fault) => Err(fault),
            }
        } else if keyword == "at"@ {
            match location_of(child) {
                Ok(location) => Ok(PropertyModel { location: Some(location), ..property }),
                Err(fault) => Err(fault),
            }
        } else if keyword == "effects"@ {
            match effects_of(child) {
                Ok(effects) => Ok(PropertyModel { effects: Some(effects), ..property }),
                Err(fault) => Err(fault),
            }
        } else {
            Err(Fault::Schema { form: "property"@, keyword })
        },
    }
}

/// The property after the children from `at` on, read in order up to the
/// first that fails.
pub open spec fn property_from(children: Seq<Seq<Atom>>, at: int, property: PropertyModel) -> Result<
    PropertyModel,
    Fault,
>
    decreases children.len() - at,
{
    if at < 0 || at >= children.len() {
        Ok(property)
    } else {
        match property_with(property, children[at]) {
            Ok(next) => property_from(children, at + 1, next),
            Err(fault) => Err(fault),
        }
    }
}

/// What `(property "key" "value" child ...)` stands for. Key and value are
/// the third and fourth token and have to be words; the key has to be one
/// of the known keys.
pub open spec fn property_of(expression: Seq<Atom>) -> Result<PropertyModel, Fault> {
    if !opens_with(expression, "property"@) {
        Err(Fault::Structure { form: "property"@ })
    } else {
        match (word_at(expression, 2), word_at(expression, 3)) {
            (Some(key), Some(value)) => match KiCadPropertyType::named(key) {
                Some(property_type) => property_from(
                    children_of(expression, 4),
                    0,
                    PropertyModel { property_type, value, id: None, location: None, effects: None },
                ),
                None => Err(Fault::Value { field: "property"@ }),
            },
            _ => Err(Fault::Value { field: "property"@ }),
        }
    }
}

impl TryFromExpression<KiCadProperty> for KiCadProperty {
    open spec fn meaning(expression: Seq<Atom>) -> Result<PropertyModel, Fault> {
        property_of(expression)
    }

    #[verifier::loop_isolation(false)]
    fn try_from_expression(expression: Expression) -> (outcome: Result<KiCadProperty, ParseError>) {
        let ghost atoms = expression.deep_view();
        check_expression_validity(&expression, "property".to_owned())?;
        let key = match word_of(&expression, 2) {
            Some(word) => word,
            None => {
                return Err(ParseError::value("property"));
            },
        };
        let value = match word_of(&expression, 3) {
            Some(word) => word.clone(),
            None => {
                return Err(ParseError::value("property"));
            },
        };
        let property_type = KiCadPropertyType::from_str(key.as_str())?;
        let mut builder = KiCadPropertyBuilder::new(property_type, value);
        let ghost first = builder.deep_view();
        let children = children_from(expression, 4);
        let ghost forms = children.deep_view();
        assert(forms =~= atoms_of_all(children@));
        for child in it: children
            invariant
                forms == atoms_of_all(it.seq()),
                property_from(forms, it.index() as int, builder.deep_view()) == property_from(
                    forms,
                    0,
                    first,
                ),
        {
            assert(forms[it.index() as int] == child.deep_view());
            match keyword_of(&child) {
                None => {},
                Some(keyword) => {
                    if same_text(keyword.as_str(), "id") {
                        builder.id(KiCadPropertyId::try_from_expression(child)?);
                    } else if same_text(keyword.as_str(), "at") {
                        builder.location(KiCadLocation::try_from_expression(child)?);
                    } else if same_text(keyword.as_str(), "effects") {
                        builder.effects(KiCadEffects::try_from_expression(child)?);
                    } else {
                        return Err(ParseError::Schema { form: "property".to_owned(), keyword });
                    }
                },
            }
        }
        Ok(builder.build())
    }
}

/// The truth value that a word names.
pub open spec fn flag_named(word: Seq<char>) -> Option<bool> {
    if word == "yes"@ {
        Some(true)
    } else if word == "no"@ {
        Some(false)
    } else {
        None
    }
}

/// Reads `yes` as true and `no` as false. Any other word is a value error;
/// its field is left unnamed, since only the caller knows which flag the
/// word stood for.
pub fn try_parse_string_to_bool(value: &str) -> (outcome: Result<bool, ParseError>)
    ensures
        outcome_view(outcome) == match flag_named(value@) {
            Some(flag) => Ok::<bool, Fault>(flag),
            None => Err(Fault::Value { field: Seq::empty() }),
        },
{
    if same_text(value, "yes") {
        Ok(true)
    } else if same_text(value, "no") {
        Ok(false)
    } else {
        Err(ParseError::Value { field: String::new() })
    }
}

/// A form of one value as the contracts see it.
pub enum SingleValueModel {
    Offset(Seq<char>),
    InBom(bool),
    OnBoard(bool),
    ExcludeFromSim(bool),
}

/// A form of one keyword and one value: an offset, or one of the flags of
/// a symbol.
#[derive(Debug, Clone)]
pub enum KiCadSingleValueProperty {
    Offset(Number),
    InBom(bool),
    OnBoard(bool),
    ExcludeFromSim(bool),
}

impl DeepView for KiCadSingleValueProperty {
    type V = SingleValueModel;

    open spec fn deep_view(&self) -> SingleValueModel {
        match self {
            KiCadSingleValueProperty::Offset(offset) => SingleValueModel::Offset(
                offset.deep_view(),
            ),
            KiCadSingleValueProperty::InBom(flag) => SingleValueModel::InBom(*flag),
            KiCadSingleValueProperty::OnBoard(flag) => SingleValueModel::OnBoard(*flag),
            KiCadSingleValueProperty::ExcludeFromSim(flag) => SingleValueModel::ExcludeFromSim(
                *flag,
            ),
        }
    }
}

/// What a form of one value stands for under its keyword: `offset` carries
/// a number, `in_bom`, `on_board` and `exclude_from_sim` carry `yes` or `no`.
pub open spec fn single_value_named(keyword: Seq<char>, value: Seq<char>) -> Result<
    SingleValueModel,
    Fault,
> {
    if keyword == "offset"@ {
        if is_number(value) {
            Ok(SingleValueModel::Offset(value))
        } else {
            Err(Fault::Value { field: keyword })
        }
    } else if keyword == "in_bom"@ {
        match flag_named(value) {
            Some(flag) => Ok(SingleValueModel::InBom(flag)),
            None => Err(Fault::Value { field: keyword }),
        }
    } else if keyword == "on_board"@ {
        match flag_named(value) {
            Some(flag) => Ok(SingleValueModel::OnBoard(flag)),
            None => Err(Fault::Value { field: keyword }),
        }
    } else if keyword == "exclude_from_sim"@ {
        match flag_named(value) {
            Some(flag) => Ok(SingleValueModel::ExcludeFromSim(flag)),
            None => Err(Fault::Value { field: keyword }),
        }
    } else {
        Err(Fault::Schema { form: Seq::empty(), keyword })
    }
}

/// What `(keyword value)` stands for. An expression without an opening
/// marker and a keyword behind it is malformed; a third token that is no
/// word is a value error under the keyword, whatever the keyword is.
pub open spec fn single_value_of(expression: Seq<Atom>) -> Result<SingleValueModel, Fault> {
    if expression.len() < 2 || !(expression[0] is Open) {
        Err(Fault::Structure { form: Seq::empty() })
    } else {
        match expression[1] {
            Atom::Word(keyword) => match word_at(expression, 2) {
                Some(value) => single_value_named(keyword, value),
                None => Err(Fault::Value { field: keyword }),
            },
            _ => Err(Fault::Structure { form: Seq::empty() }),
        }
    }
}

impl TryFromExpression<KiCadSingleValueProperty> for KiCadSingleValueProperty {
    open spec fn meaning(expression: Seq<Atom>) -> Result<SingleValueModel, Fault> {
        single_value_of(expression)
    }

    fn try_from_expression(expression: Expression) -> (outcome: Result<
        KiCadSingleValueProperty,
        ParseError,
    >) {
        let keyword = match get_expression_first_value(&expression)? {
            Token::Word(keyword) => keyword,
            _ => {
                return Err(ParseError::Structure { form: String::new() });
            },
        };
        let value = match word_of(&expression, 2) {
            Some(word) => word,
            None => {
                return Err(ParseError::Value { field: keyword });
            },
        };
        if same_text(keyword.as_str(), "offset") {
            match Number::from_word(value.as_str()) {
                Some(offset) => Ok(KiCadSingleValueProperty::Offset(offset)),
                None => Err(ParseError::Value { field: keyword }),
            }
        } else if same_text(keyword.as_str(), "in_bom") {
            match try_parse_string_to_bool(value.as_str()) {
                Ok(flag) => Ok(KiCadSingleValueProperty::InBom(flag)),
                Err(_) => Err(ParseError::Value { field: keyword }),
            }
        } else if same_text(keyword.as_str(), "on_board") {
            match try_parse_string_to_bool(value.as_str()) {
                Ok(flag) => Ok(KiCadSingleValueProperty::OnBoard(flag)),
                Err(_) => Err(ParseError::Value { field: keyword }),
            }
        } else if same_text(keyword.as_str(), "exclude_from_sim") {
            match try_parse_string_to_bool(value.as_str()) {
                Ok(flag) => Ok(KiCadSingleValueProperty::ExcludeFromSim(flag)),
                Err(_) => Err(ParseError::Value { field: keyword }),
            }
        } else {
            Err(ParseError::Schema { form: String::new(), keyword })
        }
    }
}

/// How far pin names stand from their pins.
#[derive(Debug, Clone)]
pub struct Offset(pub Number);

impl DeepView for Offset {
    type V = Seq<char>;

    open spec fn deep_view(&self) -> Seq<char> {
        self.0.deep_view()
    }
}

/// What `(offset number)` stands for.
pub open spec fn offset_of(expression: Seq<Atom>) -> Result<Seq<char>, Fault> {
    if !opens_with(expression, "offset"@) {
        Err(Fault::Structure { form: "offset"@ })
    } else {
        match number_at(expression, 2) {
            Some(offset) => Ok(offset),
            None => Err(Fault::Value { field: "offset"@ }),
        }
    }
}

impl TryFromExpression<Offset> for Offset {
    open spec fn meaning(expression: Seq<Atom>) -> Result<Seq<char>, Fault> {
        offset_of(expression)
    }

    fn try_from_expression(expression: Expression) -> (outcome: Result<Offset, ParseError>) {
        check_expression_validity(&expression, "offset".to_owned())?;
        match number_of(&expression, 2) {
            Some(offset) => Ok(Offset(offset)),
            None => Err(ParseError::value("offset")),
        }
    }
}

/// A pin-name block as the contracts see it.
pub struct PinNamesModel {
    pub offset: Seq<char>,
}

/// The block that says how the names of pins are placed.
#[derive(Debug, Clone)]
pub struct KiCadPinNames {
    pub offset: Offset,
}

impl DeepView for KiCadPinNames {
    type V = PinNamesModel;

    open spec fn deep_view(&self) -> PinNamesModel {
        PinNamesModel { offset: self.offset.deep_view() }
    }
}

/// What `(pin_names (offset number))` stands for. The block has exactly one
/// child, which is an offset; with more or fewer it is malformed.
pub open spec fn pin_names_of(expression: Seq<Atom>) -> Result<PinNamesModel, Fault> {
    if !opens_with(expression, "pin_names"@) {
        Err(Fault::Structure { form: "pin_names"@ })
    } else if children_of(expression, 2).len() != 1 {
        Err(Fault::Structure { form: "pin_names"@ })
    } else {
        match offset_of(children_of(expression, 2)[0]) {
            Ok(offset) => Ok(PinNamesModel { offset }),
            Err(fault) => Err(fault),
        }
    }
}

impl TryFromExpression<KiCadPinNames> for KiCadPinNames {
    open spec fn meaning(expression: Seq<Atom>) -> Result<PinNamesModel, Fault> {
        pin_names_of(expression)
    }

    fn try_from_expression(expression: Expression) -> (outcome: Result<KiCadPinNames, ParseError>) {
        check_expression_validity(&expression, "pin_names".to_owned())?;
        let mut children = children_from(expression, 2);
        if children.len() != 1 {
            return Err(ParseError::structural("pin_names"));
        }
        match children.pop() {
            Some(child) => {
                let offset = Offset::try_from_expression(child)?;
                Ok(KiCadPinNames { offset })
            },
            None => Err(ParseError::structural("pin_names")),
        }
    }
}

} // verus!
