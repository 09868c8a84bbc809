use kicad_symbols::symbols::property::{
    KiCadPinNames, KiCadProperty, KiCadPropertyBuilder, KiCadPropertyId, KiCadPropertyType,
    KiCadSingleValueProperty,
};
use kicad_symbols::symbols::style::{KiCadEffects, KiCadLocation};
use kicad_symbols::symbols::symbol::{KiCadSubSymbol, KiCadSymbolBuilder};
use kicad_symbols::{tokenise, Token, TryFromExpression};

fn tokens(text: &str) -> Vec<Token> {
    tokenise(text).unwrap()
}

#[test]
fn property_builder_starts_with_key_and_value() {
    let property = KiCadPropertyBuilder::new(KiCadPropertyType::Value, "10k".to_string()).build();
    assert_eq!(property.property_type, KiCadPropertyType::Value);
    assert_eq!(property.value, "10k");
    assert!(property.id.is_none() && property.location.is_none() && property.effects.is_none());
}

#[test]
fn property_builder_takes_parts_in_a_chain() {
    let mut builder = KiCadPropertyBuilder::new(KiCadPropertyType::Footprint, "R_0603".to_string());
    builder
        .id(KiCadPropertyId(2))
        .location(KiCadLocation::try_from_expression(tokens("(at 1 2 3)")).unwrap())
        .effects(KiCadEffects::try_from_expression(tokens("(effects (hide))")).unwrap());
    builder.id(KiCadPropertyId(5));
    let property = builder.build();
    assert_eq!(property.id, Some(KiCadPropertyId(5)));
    assert_eq!(property.location.unwrap().1.as_str(), "2");
    assert!(property.effects.unwrap().hide);
    assert_eq!(property.value, "R_0603");
}

#[test]
fn symbol_builder_starts_with_the_name() {
    let symbol = KiCadSymbolBuilder::new("C".to_string()).build();
    assert_eq!(symbol.name, "C");
    assert!(symbol.pin_names.is_none() && symbol.exclude_from_sim.is_none());
    assert!(symbol.in_bom.is_none() && symbol.on_board.is_none());
    assert!(symbol.properties.is_empty() && symbol.sub_symbols.is_empty());
}

#[test]
fn symbol_builder_sets_and_appends() {
    let mut builder = KiCadSymbolBuilder::new("C".to_string());
    builder
        .pin_names(KiCadPinNames::try_from_expression(tokens("(pin_names (offset 1))")).unwrap())
        .exclude_from_sim(KiCadSingleValueProperty::ExcludeFromSim(true))
        .in_bom(KiCadSingleValueProperty::InBom(false))
        .on_board(KiCadSingleValueProperty::OnBoard(true))
        .in_bom(KiCadSingleValueProperty::InBom(true));
    builder
        .add_property(KiCadProperty::try_from_expression(tokens("(property \"Value\" \"a\")")).unwrap())
        .add_sub_symbol(KiCadSubSymbol::try_from_expression(tokens("(symbol \"C_0_1\")")).unwrap())
        .add_property(KiCadProperty::try_from_expression(tokens("(property \"Value\" \"b\")")).unwrap())
        .add_sub_symbol(KiCadSubSymbol::try_from_expression(tokens("(symbol \"C_1_1\" (pin input line))")).unwrap());
    let symbol = builder.build();
    assert_eq!(symbol.pin_names.unwrap().offset.0.as_str(), "1");
    assert!(matches!(symbol.exclude_from_sim, Some(KiCadSingleValueProperty::ExcludeFromSim(true))));
    assert!(matches!(symbol.in_bom, Some(KiCadSingleValueProperty::InBom(true))));
    assert!(matches!(symbol.on_board, Some(KiCadSingleValueProperty::OnBoard(true))));
    let values: Vec<&str> = symbol.properties.iter().map(|property| property.value.as_str()).collect();
    assert_eq!(values, vec!["a", "b"]);
    assert_eq!(symbol.sub_symbols.len(), 2);
    assert_eq!(symbol.sub_symbols[1].pins.len(), 1);
}
