//! Symbols and their units.

use vstd::prelude::*;
use crate::error::{Fault, ParseError};
use crate::guard::{check_expression_validity, children_from, children_of, opens_with, word_at, word_of};
use crate::symbols::pin::{pin_of, KiCadPin, PinModel};
use crate::symbols::property::{
    pin_names_of, property_of, single_value_of, KiCadPinNames, KiCadProperty,
    KiCadSingleValueProperty, PinNamesModel, PropertyModel, SingleValueModel,
};
use crate::symbols::shape::{
    polyline_of, text_of, KiCadPolyline, KiCadText, PolylineModel, TextModel,
};
use crate::symbols::style::keyword_of;
use crate::symbols::{atoms_of_all, TryFromExpression};
use crate::text::same_text;
use crate::token::{Atom, Expression};

verus! {

/// A unit as the contracts see it.
pub struct SubSymbolModel {
    pub polylines: Seq<PolylineModel>,
    pub texts: Seq<TextModel>,
    pub pins: Seq<PinModel>,
}

/// One unit of a symbol: one of the bodies it can be drawn with.
#[derive(Debug, Clone)]
pub struct KiCadSubSymbol {
    pub polylines: Vec<KiCadPolyline>,
    pub texts: Vec<KiCadText>,
    pub pins: Vec<KiCadPin>,
}

impl DeepView for KiCadSubSymbol {
    type V = SubSymbolModel;

    open spec fn deep_view(&self) -> SubSymbolModel {
        SubSymbolModel {
            polylines: self.polylines.deep_view(),
            texts: self.texts.deep_view(),
            pins: self.pins.deep_view(),
        }
    }
}

/// The unit after one more child. `polyline`, `text` and `pin` are put at
/// the end of their list; a child without a keyword changes nothing; any
/// other keyword is refused.
pub open spec fn sub_symbol_with(unit: SubSymbolModel, child: Seq<Atom>) -> Result<
    SubSymbolModel,
    Fault,
> {
    match word_at(child, 1) {
        None => Ok(unit),
        Some(keyword) => if keyword == "polyline"@ {
            match polyline_of(child) {
                Ok(line) => Ok(SubSymbolModel { polylines: unit.polylines.push(line), ..unit }),
                Err(fault) => Err(fault),
            }
        } else if keyword == "text"@ {
            match text_of(child) {
                Ok(text) => Ok(SubSymbolModel { texts: unit.texts.push(text), ..unit }),
                Err(fault) => Err(fault),
            }
        } else if keyword == "pin"@ {
            match pin_of(child) {
                Ok(pin) => Ok(SubSymbolModel { pins: unit.pins.push(pin), ..unit }),
                Err(fault) => Err(fault),
            }
        } else {
            Err(Fault::Schema { form: "symbol"@, keyword })
        },
    }
}

/// The unit after the children from `at` on, read in order up to the first
/// that fails.
pub open spec fn sub_symbol_from(children: Seq<Seq<Atom>>, at: int, unit: SubSymbolModel) -> Result<
    SubSymbolModel,
    Fault,
>
    decreases children.len() - at,
{
    if at < 0 || at >= children.len() {
        Ok(unit)
    } else {
        match sub_symbol_with(unit, children[at]) {
            Ok(next) => sub_symbol_from(children, at + 1, next),
            Err(fault) => Err(fault),
        }
    }
}

/// What `(symbol "name" child ...)` stands for where it is a unit inside a
/// symbol. The name is the third token and has to be a word; it is not kept.
pub open spec fn sub_symbol_of(expression: Seq<Atom>) -> Result<SubSymbolModel, Fault> {
    if !opens_with(expression, "symbol"@) {
        Err(Fault::Structure { form: "symbol"@ })
    } else if word_at(expression, 2) is None {
        Err(Fault::Value { field: "symbol"@ })
    } else {
        sub_symbol_from(
            children_of(expression, 3),
            0,
            SubSymbolModel { polylines: Seq::empty(), texts: Seq::empty(), pins: Seq::empty() },
        )
    }
}

impl TryFromExpression<KiCadSubSymbol> for KiCadSubSymbol {
    open spec fn meaning(expression: Seq<Atom>) -> Result<SubSymbolModel, Fault> {
        sub_symbol_of(expression)
    }

    #[verifier::loop_isolation(false)]
    fn try_from_expression(expression: Expression) -> (outcome: Result<KiCadSubSymbol, ParseError>) {
        check_expression_validity(&expression, "symbol".to_owned())?;
        if word_of(&expression, 2).is_none() {
            return Err(ParseError::value("symbol"));
        }
        let children = children_from(expression, 3);
        let ghost forms = children.deep_view();
        assert(forms =~= atoms_of_all(children@));
        let mut unit = KiCadSubSymbol { polylines: Vec::new(), texts: Vec::new(), pins: Vec::new() };
        let ghost first = unit.deep_view();
        assert(first.polylines =~= Seq::empty());
        assert(first.texts =~= Seq::empty());
        assert(first.pins =~= Seq::empty());
        for child in it: children
            invariant
                forms == atoms_of_all(it.seq()),
                sub_symbol_from(forms, it.index() as int, unit.deep_view()) == sub_symbol_from(
                    forms,
                    0,
                    first,
                ),
        {
            assert(forms[it.index() as int] == child.deep_view());
            let ghost before = unit.deep_view();
            match keyword_of(&child) {
                None => {},
                Some(keyword) => {
                    if same_text(keyword.as_str(), "polyline") {
                        let line = KiCadPolyline::try_from_expression(child)?;
                        unit.polylines.push(line);
                        assert(unit.deep_view().polylines =~= before.polylines.push(
                            line.deep_view(),
                        ));
                    } else if same_text(keyword.as_str(), "text") {
                        let text = KiCadText::try_from_expression(child)?;
                        unit.texts.push(text);
                        assert(unit.deep_view().texts =~= before.texts.push(text.deep_view()));
                    } else if same_text(keyword.as_str(), "pin") {
                        let pin = KiCadPin::try_from_expression(child)?;
                        unit.pins.push(pin);
                        assert(unit.deep_view().pins =~= before.pins.push(pin.deep_view()));
                    } else {
                        return Err(ParseError::Schema { form: "symbol".to_owned(), keyword });
                    }
                },
            }
        }
        Ok(unit)
    }
}

/// A symbol as the contracts see it.
pub struct SymbolModel {
    pub name: Seq<char>,
    pub pin_names: Option<PinNamesModel>,
    pub exclude_from_sim: Option<SingleValueModel>,
    pub in_bom: Option<SingleValueModel>,
    pub on_board: Option<SingleValueModel>,
    pub properties: Seq<PropertyModel>,
    pub sub_symbols: Seq<SubSymbolModel>,
}

/// One component of a library.
#[derive(Debug, Clone)]
pub struct KiCadSymbol {
    pub name: String,
    pub pin_names: Option<KiCadPinNames>,
    pub exclude_from_sim: Option<KiCadSingleValueProperty>,
    pub in_bom: Option<KiCadSingleValueProperty>,
    pub on_board: Option<KiCadSingleValueProperty>,
    pub properties: Vec<KiCadProperty>,
    pub sub_symbols: Vec<KiCadSubSymbol>,
}

impl DeepView for KiCadSymbol {
    type V = SymbolModel;

    open spec fn deep_view(&self) -> SymbolModel {
        SymbolModel {
            name: self.name@,
            pin_names: self.pin_names.deep_view(),
            exclude_from_sim: self.exclude_from_sim.deep_view(),
            in_bom: self.in_bom.deep_view(),
            on_board: self.on_board.deep_view(),
            properties: self.properties.deep_view(),
            sub_symbols: self.sub_symbols.deep_view(),
        }
    }
}

/// A symbol in the making: the name is fixed from the start, every other
/// part is put in as it is found.
pub struct KiCadSymbolBuilder {
    name: String,
    pin_names: Option<KiCadPinNames>,
    exclude_from_sim: Option<KiCadSingleValueProperty>,
    in_bom: Option<KiCadSingleValueProperty>,
    on_board: Option<KiCadSingleValueProperty>,
    properties: Vec<KiCadProperty>,
    sub_symbols: Vec<KiCadSubSymbol>,
}

impl DeepView for KiCadSymbolBuilder {
    type V = SymbolModel;

    closed spec fn deep_view(&self) -> SymbolModel {
        SymbolModel {
            name: self.name@,
            pin_names: self.pin_names.deep_view(),
            exclude_from_sim: self.exclude_from_sim.deep_view(),
            in_bom: self.in_bom.deep_view(),
            on_board: self.on_board.deep_view(),
            properties: self.properties.deep_view(),
            sub_symbols: self.sub_symbols.deep_view(),
        }
    }
}

/// A symbol of the name given and nothing else.
pub open spec fn bare_symbol(name: Seq<char>) -> SymbolModel {
    SymbolModel {
        name,
        pin_names: None,
        exclude_from_sim: None,
        in_bom: None,
        on_board: None,
        properties: Seq::empty(),
        sub_symbols: Seq::empty(),
    }
}

impl KiCadSymbolBuilder {
    pub fn new(name: String) -> (builder: KiCadSymbolBuilder)
        ensures
            builder.deep_view() == bare_symbol(name@),
    {
        let builder = KiCadSymbolBuilder {
            name,
            pin_names: None,
            exclude_from_sim: None,
            in_bom: None,
            on_board: None,
            properties: Vec::new(),
            sub_symbols: Vec::new(),
        };
        assert(builder.deep_view().properties =~= Seq::empty());
        assert(builder.deep_view().sub_symbols =~= Seq::empty());
        builder
    }

    pub fn pin_names(&mut self, pin_names: KiCadPinNames) -> (builder: &mut KiCadSymbolBuilder)
        ensures
            builder.deep_view() == (SymbolModel {
                pin_names: Some(pin_names.deep_view()),
                ..old(self).deep_view()
            }),
            *final(self) == *final(builder),
    {
        self.pin_names = Some(pin_names);
        self
    }

    pub fn exclude_from_sim(&mut self, exclude_from_sim: KiCadSingleValueProperty) -> (builder: &mut KiCadSymbolBuilder)
        ensures
            builder.deep_view() == (SymbolModel {
                exclude_from_sim: Some(exclude_from_sim.deep_view()),
                ..old(self).deep_view()
            }),
            *final(self) == *final(builder),
    {
        self.exclude_from_sim = Some(exclude_from_sim);
        self
    }

    pub fn in_bom(&mut self, in_bom: KiCadSingleValueProperty) -> (builder: &mut KiCadSymbolBuilder)
        ensures
            builder.deep_view() == (SymbolModel {
                in_bom: Some(in_bom.deep_view()),
                ..old(self).deep_view()
            }),
            *final(self) == *final(builder),
    {
        self.in_bom = Some(in_bom);
        self
    }

    pub fn on_board(&mut self, on_board: KiCadSingleValueProperty) -> (builder: &mut KiCadSymbolBuilder)
        ensures
            builder.deep_view() == (SymbolModel {
                on_board: Some(on_board.deep_view()),
                ..old(self).deep_view()
            }),
            *final(self) == *final(builder),
    {
        self.on_board = Some(on_board);
        self
    }

    /// Puts the property behind those that are there, also where one of its
    /// key is there already.
    pub fn add_property(&mut self, property: KiCadProperty) -> (builder: &mut KiCadSymbolBuilder)
        ensures
            builder.deep_view() == (SymbolModel {
                properties: old(self).deep_view().properties.push(property.deep_view()),
                ..old(self).deep_view()
            }),
            *final(self) == *final(builder),
    {
        self.properties.push(property);
        assert(self.properties.deep_view() =~= old(self).properties.deep_view().push(
            property.deep_view(),
        ));
        self
    }

    /// Puts the unit behind those that are there.
    pub fn add_sub_symbol(&mut self, sub_symbol: KiCadSubSymbol) -> (builder: &mut KiCadSymbolBuilder)
        ensures
            builder.deep_view() == (SymbolModel {
                sub_symbols: old(self).deep_view().sub_symbols.push(sub_symbol.deep_view()),
                ..old(self).deep_view()
            }),
            *final(self) == *final(builder),
    {
        self.sub_symbols.push(sub_symbol);
        assert(self.sub_symbols.deep_view() =~= old(self).sub_symbols.deep_view().push(
            sub_symbol.deep_view(),
        ));
        self
    }

    pub fn build(self) -> (symbol: KiCadSymbol)
        ensures
            symbol.deep_view() == self.deep_view(),
    {
        KiCadSymbol {
            name: self.name,
            pin_names: self.pin_names,
            exclude_from_sim: self.exclude_from_sim,
            in_bom: self.in_bom,
            on_board: self.on_board,
            properties: self.properties,
            sub_symbols: self.sub_symbols,
        }
    }
}

/// The symbol after one more child. `pin_names` and the three flags set
/// their part; `property` and a nested `symbol`, which is a unit, are put at
/// the end of their list; a child without a keyword changes nothing; any
/// other keyword is refused.
pub open spec fn symbol_with(symbol: SymbolModel, child: Seq<Atom>) -> Result<SymbolModel, Fault> {
    match word_at(child, 1) {
        None => Ok(symbol),
        Some(keyword) => if keyword == "pin_names"@ {
            match pin_names_of(child) {
                Ok(pin_names) => Ok(SymbolModel { pin_names: Some(pin_names), ..symbol }),
                Err(fault) => Err(fault),
            }
        } else if keyword == "exclude_from_sim"@ {
            match single_value_of(child) {
                Ok(flag) => Ok(SymbolModel { exclude_from_sim: Some(flag), ..symbol }),
                Err(fault) => Err(fault),
            }
        } else if keyword == "in_bom"@ {
            match single_value_of(child) {
                Ok(flag) => Ok(SymbolModel { in_bom: Some(flag), ..symbol }),
                Err(fault) => Err(fault),
            }
        } else if keyword == "on_board"@ {
            match single_value_of(child) {
                Ok(flag) => Ok(SymbolModel { on_board: Some(flag), ..symbol }),
                Err(fault) => Err(fault),
            }
        } else if keyword == "property"@ {
            match property_of(child) {
                Ok(property) => Ok(
                    SymbolModel { properties: symbol.properties.push(property), ..symbol },
                ),
                Err(fault) => Err(fault),
            }
        } else if keyword == "symbol"@ {
            match sub_symbol_of(child) {
                Ok(unit) => Ok(SymbolModel { sub_symbols: symbol.sub_symbols.push(unit), ..symbol }),
                Err(fault) => Err(fault),
            }
        } else {
            Err(Fault::Schema { form: "symbol"@, keyword })
        },
    }
}

/// The symbol after the children from `at` on, read in order up to the
/// first that fails.
pub open spec fn symbol_from(children: Seq<Seq<Atom>>, at: int, symbol: SymbolModel) -> Result<
    SymbolModel,
    Fault,
>
    decreases children.len() - at,
{
    if at < 0 || at >= children.len() {
        Ok(symbol)
    } else {
        match symbol_with(symbol, children[at]) {
            Ok(next) => symbol_from(children, at + 1, next),
            Err(fault) => Err(fault),
        }
    }
}

/// What `(symbol "name" child ...)` stands for. The name is the third token
/// and has to be a word.
pub open spec fn symbol_of(expression: Seq<Atom>) -> Result<SymbolModel, Fault> {
    if !opens_with(expression, "symbol"@) {
        Err(Fault::Structure { form: "symbol"@ })
    } else {
        match word_at(expression, 2) {
            None => Err(Fault::Value { field: "symbol"@ }),
            Some(name) => symbol_from(children_of(expression, 3), 0, bare_symbol(name)),
        }
    }
}

impl TryFromExpression<KiCadSymbol> for KiCadSymbol {
    open spec fn meaning(expression: Seq<Atom>) -> Result<SymbolModel, Fault> {
        symbol_of(expression)
    }

    #[verifier::loop_isolation(false)]
    fn try_from_expression(expression: Expression) -> (outcome: Result<KiCadSymbol, ParseError>) {
        check_expression_validity(&expression, "symbol".to_owned())?;
        let name = match word_of(&expression, 2) {
            Some(word) => word.clone(),
            None => {
                return Err(ParseError::value("symbol"));
            },
        };
        let mut builder = KiCadSymbolBuilder::new(name);
        let ghost first = builder.deep_view();
        let children = children_from(expression, 3);
        let ghost forms = children.deep_view();
        assert(forms =~= atoms_of_all(children@));
        for child in it: children
            invariant
                forms == atoms_of_all(it.seq()),
                symbol_from(forms, it.index() as int, builder.deep_view()) == symbol_from(
                    forms,
                    0,
                    first,
                ),
        {
            assert(forms[it.index() as int] == child.deep_view());
            match keyword_of(&child) {
                None => {},
                Some(keyword) => {
                    if same_text(keyword.as_str(), "pin_names") {
                        builder.pin_names(KiCadPinNames::try_from_expression(child)?);
                    } else if same_text(keyword.as_str(), "exclude_from_sim") {
                        builder.exclude_from_sim(
                            KiCadSingleValueProperty::try_from_expression(child)?,
                        );
                    } else if same_text(keyword.as_str(), "in_bom") {
                        builder.in_bom(KiCadSingleValueProperty::try_from_expression(child)?);
                    } else if same_text(keyword.as_str(), "on_board") {
                        builder.on_board(KiCadSingleValueProperty::try_from_expression(child)?);
                    } else if same_text(keyword.as_str(), "property") {
                        builder.add_property(KiCadProperty::try_from_expression(child)?);
                    } else if same_text(keyword.as_str(), "symbol") {
                        builder.add_sub_symbol(KiCadSubSymbol::try_from_expression(child)?);
                    } else {
                        return Err(ParseError::Schema { form: "symbol".to_owned(), keyword });
                    }
                },
            }
        }
        Ok(builder.build())
    }
}

} // verus!
