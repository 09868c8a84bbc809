use kicad_symbols::symbols::pin::{
    KiCadPin, KiCadPinLength, KiCadPinName, KiCadPinNumber, KiCadPinPolarity, KiCadPinType,
};
use kicad_symbols::symbols::property::{
    try_parse_string_to_bool, KiCadPinNames, KiCadProperty, KiCadPropertyId, KiCadPropertyType,
    KiCadSingleValueProperty, Offset,
};
use kicad_symbols::symbols::shape::{
    KiCadFill, KiCadFillType, KiCadPolyline, KiCadPolylinePts, KiCadStroke, KiCadStrokeType,
    KiCadText,
};
use kicad_symbols::symbols::style::{
    KiCadEffects, KiCadEffectsJustify, KiCadFont, KiCadFontSize, KiCadLocation,
};
use kicad_symbols::{tokenise, Number, ParseError, Token, TryFromExpression};

fn tokens(text: &str) -> Vec<Token> {
    tokenise(text).unwrap()
}

fn float_of(number: &Number) -> f32 {
    number.as_str().parse::<f32>().unwrap()
}

fn malformed(form: &str) -> ParseError {
    ParseError::Structure { form: form.to_string() }
}

fn unknown(form: &str, keyword: &str) -> ParseError {
    ParseError::Schema { form: form.to_string(), keyword: keyword.to_string() }
}

fn bad_value(field: &str) -> ParseError {
    ParseError::Value { field: field.to_string() }
}

#[test]
fn location_of_three_numbers() {
    let location = KiCadLocation::try_from_expression(tokens("(at 1.5 -2 90)")).unwrap();
    assert_eq!((float_of(&location.0), float_of(&location.1), float_of(&location.2)), (1.5, -2.0, 90.0));
}

#[test]
fn location_takes_the_first_three_of_more() {
    let location = KiCadLocation::try_from_expression(tokens("(at 1 2 3 4)")).unwrap();
    assert_eq!((float_of(&location.0), float_of(&location.1), float_of(&location.2)), (1.0, 2.0, 3.0));
}

#[test]
fn location_errors() {
    assert_eq!(KiCadLocation::try_from_expression(tokens("(size 1 2 3)")).unwrap_err(), malformed("at"));
    assert_eq!(KiCadLocation::try_from_expression(tokens("at 1 2 3)")).unwrap_err(), malformed("at"));
    assert_eq!(KiCadLocation::try_from_expression(tokens("(at 1 2)")).unwrap_err(), bad_value("at"));
    assert_eq!(KiCadLocation::try_from_expression(tokens("(at 1 2")).unwrap_err(), bad_value("at"));
    assert!(KiCadLocation::try_from_expression(tokens("(at 1 2 3")).is_ok());
    assert_eq!(KiCadLocation::try_from_expression(tokens("(at 1 x 3)")).unwrap_err(), bad_value("at"));
    assert_eq!(KiCadLocation::try_from_expression(tokens("(at 1 2 (3))")).unwrap_err(), bad_value("at"));
}

#[test]
fn font_size_of_two_numbers() {
    let size = KiCadFontSize::try_from_expression(tokens("(size 1.27 2.54)")).unwrap();
    assert_eq!((float_of(&size.width), float_of(&size.height)), (1.27, 2.54));
}

#[test]
fn font_size_errors() {
    assert_eq!(KiCadFontSize::try_from_expression(tokens("(at 1 2)")).unwrap_err(), malformed("size"));
    assert_eq!(KiCadFontSize::try_from_expression(tokens("(size 1)")).unwrap_err(), bad_value("size"));
    assert_eq!(KiCadFontSize::try_from_expression(tokens("(size 1 2 3)")).unwrap_err(), bad_value("size"));
    assert_eq!(KiCadFontSize::try_from_expression(tokens("(size a 2)")).unwrap_err(), bad_value("size"));
    assert_eq!(KiCadFontSize::try_from_expression(tokens("(size 1 b)")).unwrap_err(), bad_value("size"));
}

#[test]
fn font_without_children_is_plain() {
    let font = KiCadFont::try_from_expression(tokens("(font)")).unwrap();
    assert!(font.font_size.is_none());
    assert!(!font.bold && !font.italic && !font.subscript);
    assert!(!font.superscript && !font.overbar && !font.underline);
}

#[test]
fn font_with_size_and_switches() {
    let font =
        KiCadFont::try_from_expression(tokens("(font (size 1.27 1.5) (bold) (underline yes))")).unwrap();
    let size = font.font_size.unwrap();
    assert_eq!((float_of(&size.width), float_of(&size.height)), (1.27, 1.5));
    assert!(font.bold && font.underline);
    assert!(!font.italic && !font.subscript && !font.superscript && !font.overbar);
}

#[test]
fn font_each_switch_alone() {
    let italic = KiCadFont::try_from_expression(tokens("(font (italic))")).unwrap();
    assert!(italic.italic && !italic.bold);
    let subscript = KiCadFont::try_from_expression(tokens("(font (subscript))")).unwrap();
    assert!(subscript.subscript && !subscript.superscript);
    let superscript = KiCadFont::try_from_expression(tokens("(font (superscript))")).unwrap();
    assert!(superscript.superscript && !subscript.overbar);
    let overbar = KiCadFont::try_from_expression(tokens("(font (overbar))")).unwrap();
    assert!(overbar.overbar && !overbar.underline);
}

#[test]
fn font_later_size_replaces_earlier() {
    let font = KiCadFont::try_from_expression(tokens("(font (size 1 1) (size 2 3))")).unwrap();
    let size = font.font_size.unwrap();
    assert_eq!((float_of(&size.width), float_of(&size.height)), (2.0, 3.0));
}

#[test]
fn font_errors() {
    assert_eq!(KiCadFont::try_from_expression(tokens("(effects)")).unwrap_err(), malformed("font"));
    assert_eq!(KiCadFont::try_from_expression(tokens("(font (colour 1))")).unwrap_err(), unknown("font", "colour"));
    assert_eq!(KiCadFont::try_from_expression(tokens("(font (Bold))")).unwrap_err(), unknown("font", "Bold"));
    assert_eq!(KiCadFont::try_from_expression(tokens("(font (size 1))")).unwrap_err(), bad_value("size"));
    assert_eq!(
        KiCadFont::try_from_expression(tokens("(font (bold) (size x 1) (colour 1))")).unwrap_err(),
        bad_value("size")
    );
}

#[test]
fn font_passes_over_children_without_keyword() {
    let font = KiCadFont::try_from_expression(tokens("(font () ((bold)) (italic))")).unwrap();
    assert!(font.italic && !font.bold);
    let bare = KiCadFont::try_from_expression(tokens("(font bold (italic))")).unwrap();
    assert!(!bare.bold && !bare.italic);
}

#[test]
fn font_child_led_by_a_stray_word_is_malformed() {
    assert_eq!(
        KiCadFont::try_from_expression(tokens("(font x size (1 1))")).unwrap_err(),
        malformed("size")
    );
}

#[test]
fn effects_empty() {
    let effects = KiCadEffects::try_from_expression(tokens("(effects)")).unwrap();
    assert!(effects.font.is_none());
    assert!(!effects.hide);
    assert!(effects.justify.is_empty());
}

#[test]
fn effects_full() {
    let effects = KiCadEffects::try_from_expression(tokens(
        "(effects (font (size 1.27 1.27) (italic)) (justify left bottom) (hide))",
    ))
    .unwrap();
    assert!(effects.font.unwrap().italic);
    assert!(effects.hide);
    assert_eq!(effects.justify, vec![KiCadEffectsJustify::Left, KiCadEffectsJustify::Bottom]);
}

#[test]
fn effects_justify_keeps_order_over_several_children() {
    let effects = KiCadEffects::try_from_expression(tokens(
        "(effects (justify right) (justify top top) (justify))",
    ))
    .unwrap();
    assert_eq!(
        effects.justify,
        vec![KiCadEffectsJustify::Right, KiCadEffectsJustify::Top, KiCadEffectsJustify::Top]
    );
}

#[test]
fn effects_justify_names_are_in_lower_case() {
    assert_eq!(
        KiCadEffects::try_from_expression(tokens("(effects (justify Left))")).unwrap_err(),
        bad_value("justify")
    );
    assert_eq!(
        KiCadEffects::try_from_expression(tokens("(effects (justify left middle))")).unwrap_err(),
        bad_value("justify")
    );
    assert_eq!(
        KiCadEffects::try_from_expression(tokens("(effects (justify (left)))")).unwrap_err(),
        bad_value("justify")
    );
    assert_eq!(KiCadEffectsJustify::from_word("bottom"), Some(KiCadEffectsJustify::Bottom));
    assert_eq!(KiCadEffectsJustify::from_word("BOTTOM"), None);
}

#[test]
fn effects_errors() {
    assert_eq!(KiCadEffects::try_from_expression(tokens("(font)")).unwrap_err(), malformed("effects"));
    assert_eq!(KiCadEffects::try_from_expression(tokens("(effects (show))")).unwrap_err(), unknown("effects", "show"));
    assert_eq!(
        KiCadEffects::try_from_expression(tokens("(effects (font (size)))")).unwrap_err(),
        bad_value("size")
    );
    assert_eq!(
        KiCadEffects::try_from_expression(tokens("(effects (font (weight 3)))")).unwrap_err(),
        unknown("font", "weight")
    );
}

#[test]
fn stroke_width_and_type() {
    let stroke = KiCadStroke::try_from_expression(tokens("(stroke (width 0.254) (type default))")).unwrap();
    assert_eq!(float_of(&stroke.width.unwrap()), 0.254);
    assert_eq!(stroke.stroke_type, Some(KiCadStrokeType::Default));
    let empty = KiCadStroke::try_from_expression(tokens("(stroke)")).unwrap();
    assert!(empty.width.is_none() && empty.stroke_type.is_none());
}

#[test]
fn stroke_type_in_any_case() {
    assert_eq!(KiCadStrokeType::from_str("default"), Ok(KiCadStrokeType::Default));
    assert_eq!(KiCadStrokeType::from_str("DEFAULT"), Ok(KiCadStrokeType::Default));
    assert_eq!(KiCadStrokeType::from_str("DeFault"), Ok(KiCadStrokeType::Default));
    assert_eq!(KiCadStrokeType::from_str("dash"), Err(bad_value("type")));
    assert_eq!(KiCadStrokeType::from_str(""), Err(bad_value("type")));
    assert_eq!(KiCadStrokeType::from_lowercase("default"), Some(KiCadStrokeType::Default));
    assert_eq!(KiCadStrokeType::from_lowercase("Default"), None);
}

#[test]
fn stroke_errors() {
    assert_eq!(KiCadStroke::try_from_expression(tokens("(fill)")).unwrap_err(), malformed("stroke"));
    assert_eq!(KiCadStroke::try_from_expression(tokens("(stroke (width))")).unwrap_err(), bad_value("width"));
    assert_eq!(KiCadStroke::try_from_expression(tokens("(stroke (width thin))")).unwrap_err(), bad_value("width"));
    assert_eq!(KiCadStroke::try_from_expression(tokens("(stroke (type))")).unwrap_err(), bad_value("type"));
    assert_eq!(KiCadStroke::try_from_expression(tokens("(stroke (type dotted))")).unwrap_err(), bad_value("type"));
    assert_eq!(KiCadStroke::try_from_expression(tokens("(stroke (color 0 0 0 0))")).unwrap_err(), unknown("stroke", "color"));
}

#[test]
fn fill_type_in_any_case() {
    assert_eq!(KiCadFillType::from_str("background"), Ok(KiCadFillType::Background));
    assert_eq!(KiCadFillType::from_str("BACKGROUND"), Ok(KiCadFillType::Background));
    assert_eq!(KiCadFillType::from_str("Outline"), Ok(KiCadFillType::Outline));
    assert_eq!(KiCadFillType::from_str("none"), Ok(KiCadFillType::Unfilled));
    assert_eq!(KiCadFillType::from_str("NONE"), Ok(KiCadFillType::Unfilled));
    assert_eq!(KiCadFillType::from_str("solid"), Err(bad_value("type")));
    assert_eq!(KiCadFillType::from_lowercase("outline"), Some(KiCadFillType::Outline));
    assert_eq!(KiCadFillType::from_lowercase("OUTLINE"), None);
}

#[test]
fn fill_readings() {
    assert_eq!(
        KiCadFill::try_from_expression(tokens("(fill (type Background))")),
        Ok(KiCadFill { fill_type: Some(KiCadFillType::Background) })
    );
    assert_eq!(KiCadFill::try_from_expression(tokens("(fill)")), Ok(KiCadFill { fill_type: None }));
    assert_eq!(KiCadFill::try_from_expression(tokens("(stroke)")), Err(malformed("fill")));
    assert_eq!(KiCadFill::try_from_expression(tokens("(fill (type))")), Err(bad_value("type")));
    assert_eq!(KiCadFill::try_from_expression(tokens("(fill (type red))")), Err(bad_value("type")));
    assert_eq!(KiCadFill::try_from_expression(tokens("(fill (color 1))")), Err(unknown("fill", "color")));
}

#[test]
fn points_in_order() {
    let points = KiCadPolylinePts::try_from_expression(tokens("(pts (xy 0 1) (xy -2.5 3) (xy 0 1))")).unwrap();
    let seen: Vec<(f32, f32)> = points.iter().map(|point| (float_of(&point.0.x), float_of(&point.0.y))).collect();
    assert_eq!(seen, vec![(0.0, 1.0), (-2.5, 3.0), (0.0, 1.0)]);
    assert!(KiCadPolylinePts::try_from_expression(tokens("(pts)")).unwrap().is_empty());
}

#[test]
fn points_errors() {
    assert_eq!(KiCadPolylinePts::try_from_expression(tokens("(xy 1 2)")).unwrap_err(), malformed("pts"));
    assert_eq!(KiCadPolylinePts::try_from_expression(tokens("(pts (xy 1))")).unwrap_err(), bad_value("xy"));
    assert_eq!(KiCadPolylinePts::try_from_expression(tokens("(pts (xy a 1))")).unwrap_err(), bad_value("xy"));
    assert_eq!(KiCadPolylinePts::try_from_expression(tokens("(pts (xy 1 b))")).unwrap_err(), bad_value("xy"));
    assert_eq!(KiCadPolylinePts::try_from_expression(tokens("(pts (xyz 1 2 3))")).unwrap_err(), unknown("pts", "xyz"));
}

#[test]
fn polyline_full() {
    let line = KiCadPolyline::try_from_expression(tokens(
        "(polyline (pts (xy 0 0) (xy 1 1)) (stroke (width 0) (type default)) (fill (type none)))",
    ))
    .unwrap();
    assert_eq!(line.pts.len(), 2);
    assert_eq!(float_of(&line.pts[1].0.x), 1.0);
    assert_eq!(line.stroke.unwrap().stroke_type, Some(KiCadStrokeType::Default));
    assert_eq!(line.fill, Some(KiCadFill { fill_type: Some(KiCadFillType::Unfilled) }));
}

#[test]
fn polyline_later_points_replace_earlier() {
    let line = KiCadPolyline::try_from_expression(tokens("(polyline (pts (xy 0 0) (xy 1 1)) (pts (xy 5 6)))")).unwrap();
    assert_eq!(line.pts.len(), 1);
    assert_eq!((float_of(&line.pts[0].0.x), float_of(&line.pts[0].0.y)), (5.0, 6.0));
}

#[test]
fn polyline_errors() {
    assert_eq!(KiCadPolyline::try_from_expression(tokens("(line)")).unwrap_err(), malformed("polyline"));
    assert_eq!(KiCadPolyline::try_from_expression(tokens("(polyline (arc))")).unwrap_err(), unknown("polyline", "arc"));
    assert_eq!(KiCadPolyline::try_from_expression(tokens("(polyline (pts (xy 1)))")).unwrap_err(), bad_value("xy"));
    assert_eq!(
        KiCadPolyline::try_from_expression(tokens("(polyline (stroke (join round)))")).unwrap_err(),
        unknown("stroke", "join")
    );
    assert_eq!(
        KiCadPolyline::try_from_expression(tokens("(polyline (fill (type full)))")).unwrap_err(),
        bad_value("type")
    );
}

#[test]
fn text_with_place_and_effects() {
    let text = KiCadText::try_from_expression(tokens("(text \"Vcc in\" (at 1 2 0) (effects (hide)))")).unwrap();
    assert_eq!(text.text, "Vcc in");
    assert_eq!((float_of(&text.location.0), float_of(&text.location.1), float_of(&text.location.2)), (1.0, 2.0, 0.0));
    assert!(text.effects.unwrap().hide);
}

#[test]
fn text_needs_a_place() {
    assert_eq!(KiCadText::try_from_expression(tokens("(text \"a\")")).unwrap_err(), malformed("text"));
    assert_eq!(KiCadText::try_from_expression(tokens("(text \"a\" (effects))")).unwrap_err(), malformed("text"));
}

#[test]
fn text_errors() {
    assert_eq!(KiCadText::try_from_expression(tokens("(label \"a\" (at 0 0 0))")).unwrap_err(), malformed("text"));
    assert_eq!(KiCadText::try_from_expression(tokens("(text (at 0 0 0))")).unwrap_err(), bad_value("text"));
    assert_eq!(KiCadText::try_from_expression(tokens("(text")).unwrap_err(), bad_value("text"));
    assert_eq!(KiCadText::try_from_expression(tokens("(text \"a\" (at 0 0))")).unwrap_err(), bad_value("at"));
    assert_eq!(KiCadText::try_from_expression(tokens("(text \"a\" (at 0 0 0) (size 1 1))")).unwrap_err(), unknown("text", "size"));
}

#[test]
fn property_id_readings() {
    assert_eq!(KiCadPropertyId::try_from_expression(tokens("(id 3)")), Ok(KiCadPropertyId(3)));
    assert_eq!(KiCadPropertyId::try_from_expression(tokens("(id 4294967295)")), Ok(KiCadPropertyId(u32::MAX)));
    assert_eq!(KiCadPropertyId::try_from_expression(tokens("(id 4294967296)")), Err(bad_value("id")));
    assert_eq!(KiCadPropertyId::try_from_expression(tokens("(id -1)")), Err(bad_value("id")));
    assert_eq!(KiCadPropertyId::try_from_expression(tokens("(id)")), Err(bad_value("id")));
    assert_eq!(KiCadPropertyId::try_from_expression(tokens("(id 3")), Err(bad_value("id")));
    assert_eq!(KiCadPropertyId::try_from_expression(tokens("(id (3) )")), Err(bad_value("id")));
    assert_eq!(KiCadPropertyId::try_from_expression(tokens("(at 3)")), Err(malformed("id")));
}

#[test]
fn property_keys_as_written() {
    let keys = [
        ("Reference", KiCadPropertyType::Reference),
        ("Value", KiCadPropertyType::Value),
        ("Footprint", KiCadPropertyType::Footprint),
        ("Datasheet", KiCadPropertyType::Datasheet),
        ("Description", KiCadPropertyType::Description),
        ("ki_locked", KiCadPropertyType::KiLocked),
        ("ki_keywords", KiCadPropertyType::KiKeywords),
        ("ki_fp_filters", KiCadPropertyType::KiFpFilters),
        ("PARTREV", KiCadPropertyType::PartRev),
        ("STANDARD", KiCadPropertyType::Standard),
        ("MAXIMUM_PACKAGE_HEIGHT", KiCadPropertyType::MaximumPackageHeight),
        ("MANUFACTURER", KiCadPropertyType::Manufacturer),
    ];
    for (word, key) in keys {
        assert_eq!(KiCadPropertyType::from_str(word), Ok(key), "{word:?}");
    }
}

#[test]
fn property_keys_are_written_as_they_are_read() {
    let keys = [
        KiCadPropertyType::Reference,
        KiCadPropertyType::Value,
        KiCadPropertyType::Footprint,
        KiCadPropertyType::Datasheet,
        KiCadPropertyType::Description,
        KiCadPropertyType::KiLocked,
        KiCadPropertyType::KiKeywords,
        KiCadPropertyType::KiFpFilters,
        KiCadPropertyType::PartRev,
        KiCadPropertyType::Standard,
        KiCadPropertyType::MaximumPackageHeight,
        KiCadPropertyType::Manufacturer,
    ];
    for key in keys {
        assert_eq!(KiCadPropertyType::from_str(key.as_str()), Ok(key));
    }
    assert_eq!(KiCadPropertyType::KiFpFilters.as_str(), "ki_fp_filters");
    assert_eq!(KiCadPropertyType::MaximumPackageHeight.as_str(), "MAXIMUM_PACKAGE_HEIGHT");
}

#[test]
fn property_keys_are_case_sensitive() {
    for word in ["reference", "REFERENCE", "KiLocked", "Ki_Locked", "PartRev", "partrev", "Standard", "Manufacturer", "", "Ref"] {
        assert_eq!(KiCadPropertyType::from_str(word), Err(bad_value("property")), "{word:?}");
    }
}

#[test]
fn property_with_every_part() {
    let property = KiCadProperty::try_from_expression(tokens(
        "(property \"Reference\" \"R\" (id 0) (at 2.032 0 90) (effects (font (size 1.27 1.27))))",
    ))
    .unwrap();
    assert_eq!(property.property_type, KiCadPropertyType::Reference);
    assert_eq!(property.value, "R");
    assert_eq!(property.id, Some(KiCadPropertyId(0)));
    let location = property.location.unwrap();
    assert_eq!((float_of(&location.0), float_of(&location.1), float_of(&location.2)), (2.032, 0.0, 90.0));
    assert!(property.effects.unwrap().font.unwrap().font_size.is_some());
}

#[test]
fn property_bare() {
    let property = KiCadProperty::try_from_expression(tokens("(property \"ki_keywords\" \"R res resistor\")")).unwrap();
    assert_eq!(property.property_type, KiCadPropertyType::KiKeywords);
    assert_eq!(property.value, "R res resistor");
    assert!(property.id.is_none() && property.location.is_none() && property.effects.is_none());
}

#[test]
fn property_errors() {
    assert_eq!(KiCadProperty::try_from_expression(tokens("(prop \"Value\" \"1k\")")).unwrap_err(), malformed("property"));
    assert_eq!(KiCadProperty::try_from_expression(tokens("(property)")).unwrap_err(), bad_value("property"));
    assert_eq!(KiCadProperty::try_from_expression(tokens("(property \"Value\")")).unwrap_err(), bad_value("property"));
    assert_eq!(KiCadProperty::try_from_expression(tokens("(property \"Colour\" \"red\")")).unwrap_err(), bad_value("property"));
    assert_eq!(KiCadProperty::try_from_expression(tokens("(property \"Value\" \"1k\" (id x))")).unwrap_err(), bad_value("id"));
    assert_eq!(KiCadProperty::try_from_expression(tokens("(property \"Value\" \"1k\" (at 1))")).unwrap_err(), bad_value("at"));
    assert_eq!(KiCadProperty::try_from_expression(tokens("(property \"Value\" \"1k\" (hide yes))")).unwrap_err(), unknown("property", "hide"));
}

#[test]
fn booleans_are_yes_and_no() {
    assert_eq!(try_parse_string_to_bool("yes"), Ok(true));
    assert_eq!(try_parse_string_to_bool("no"), Ok(false));
    for word in ["maybe", "Yes", "NO", "true", "1", ""] {
        assert_eq!(try_parse_string_to_bool(word), Err(bad_value("")), "{word:?}");
    }
}

#[test]
fn in_bom_yes_and_maybe() {
    let flag = KiCadSingleValueProperty::try_from_expression(tokens("(in_bom yes)")).unwrap();
    assert!(matches!(flag, KiCadSingleValueProperty::InBom(true)));
    assert_eq!(
        KiCadSingleValueProperty::try_from_expression(tokens("(in_bom maybe)")).unwrap_err(),
        bad_value("in_bom")
    );
}

#[test]
fn single_values_of_each_kind() {
    let on_board = KiCadSingleValueProperty::try_from_expression(tokens("(on_board no)")).unwrap();
    assert!(matches!(on_board, KiCadSingleValueProperty::OnBoard(false)));
    let excluded = KiCadSingleValueProperty::try_from_expression(tokens("(exclude_from_sim yes)")).unwrap();
    assert!(matches!(excluded, KiCadSingleValueProperty::ExcludeFromSim(true)));
    let offset = KiCadSingleValueProperty::try_from_expression(tokens("(offset 0.254)")).unwrap();
    match offset {
        KiCadSingleValueProperty::Offset(number) => assert_eq!(float_of(&number), 0.254),
        _ => panic!("an offset was written"),
    }
}

#[test]
fn single_value_errors() {
    assert_eq!(KiCadSingleValueProperty::try_from_expression(tokens("(")).unwrap_err(), malformed(""));
    assert_eq!(KiCadSingleValueProperty::try_from_expression(tokens("in_bom yes")).unwrap_err(), malformed(""));
    assert_eq!(KiCadSingleValueProperty::try_from_expression(tokens("((in_bom yes))")).unwrap_err(), malformed(""));
    assert_eq!(KiCadSingleValueProperty::try_from_expression(tokens("(in_bom)")).unwrap_err(), bad_value("in_bom"));
    assert_eq!(KiCadSingleValueProperty::try_from_expression(tokens("(colour)")).unwrap_err(), bad_value("colour"));
    assert_eq!(KiCadSingleValueProperty::try_from_expression(tokens("(colour red)")).unwrap_err(), unknown("", "colour"));
    assert_eq!(KiCadSingleValueProperty::try_from_expression(tokens("(offset wide)")).unwrap_err(), bad_value("offset"));
    assert_eq!(KiCadSingleValueProperty::try_from_expression(tokens("(on_board 1)")).unwrap_err(), bad_value("on_board"));
    assert_eq!(
        KiCadSingleValueProperty::try_from_expression(tokens("(exclude_from_sim YES)")).unwrap_err(),
        bad_value("exclude_from_sim")
    );
}

#[test]
fn offset_readings() {
    assert_eq!(float_of(&Offset::try_from_expression(tokens("(offset 1.016)")).unwrap().0), 1.016);
    assert_eq!(float_of(&Offset::try_from_expression(tokens("(offset 0")).unwrap().0), 0.0);
    assert_eq!(Offset::try_from_expression(tokens("(offset)")).unwrap_err(), bad_value("offset"));
    assert_eq!(Offset::try_from_expression(tokens("(offset far)")).unwrap_err(), bad_value("offset"));
    assert_eq!(Offset::try_from_expression(tokens("(length 1)")).unwrap_err(), malformed("offset"));
}

#[test]
fn pin_names_has_exactly_one_child() {
    let block = KiCadPinNames::try_from_expression(tokens("(pin_names (offset 0.254))")).unwrap();
    assert_eq!(float_of(&block.offset.0), 0.254);
    assert_eq!(KiCadPinNames::try_from_expression(tokens("(pin_names)")).unwrap_err(), malformed("pin_names"));
    assert_eq!(
        KiCadPinNames::try_from_expression(tokens("(pin_names (offset 1) (hide))")).unwrap_err(),
        malformed("pin_names")
    );
    assert_eq!(KiCadPinNames::try_from_expression(tokens("(pin_names hide)")).unwrap_err(), malformed("pin_names"));
}

#[test]
fn pin_names_errors() {
    assert_eq!(KiCadPinNames::try_from_expression(tokens("(pins (offset 1))")).unwrap_err(), malformed("pin_names"));
    assert_eq!(KiCadPinNames::try_from_expression(tokens("(pin_names (hide))")).unwrap_err(), malformed("offset"));
    assert_eq!(KiCadPinNames::try_from_expression(tokens("(pin_names (offset x))")).unwrap_err(), bad_value("offset"));
}

#[test]
fn pin_types_and_polarities() {
    assert_eq!(KiCadPinType::from_str("passive"), Ok(KiCadPinType::Passive));
    assert_eq!(KiCadPinType::from_str("power_in"), Ok(KiCadPinType::PowerIn));
    assert_eq!(KiCadPinType::from_str("power_out"), Ok(KiCadPinType::PowerOut));
    assert_eq!(KiCadPinType::from_str("input"), Ok(KiCadPinType::Input));
    assert_eq!(KiCadPinType::from_str("unspecified"), Ok(KiCadPinType::Unspecified));
    assert_eq!(KiCadPinType::from_str("Passive"), Err(bad_value("pin")));
    assert_eq!(KiCadPinType::from_str("output"), Err(bad_value("pin")));
    assert_eq!(KiCadPinPolarity::from_str("line"), Ok(KiCadPinPolarity::Line));
    assert_eq!(KiCadPinPolarity::from_str("inverted"), Ok(KiCadPinPolarity::Inverted));
    assert_eq!(KiCadPinPolarity::from_str("LINE"), Err(bad_value("pin")));
    assert_eq!(KiCadPinPolarity::from_str("clock"), Err(bad_value("pin")));
}

#[test]
fn pin_length_readings() {
    assert_eq!(float_of(&KiCadPinLength::try_from_expression(tokens("(length 2.54)")).unwrap().0), 2.54);
    assert_eq!(KiCadPinLength::try_from_expression(tokens("(length)")).unwrap_err(), bad_value("length"));
    assert_eq!(KiCadPinLength::try_from_expression(tokens("(length long)")).unwrap_err(), bad_value("length"));
    assert_eq!(KiCadPinLength::try_from_expression(tokens("(offset 1)")).unwrap_err(), malformed("length"));
}

#[test]
fn pin_name_readings() {
    let name = KiCadPinName::try_from_expression(tokens("(name \"~{RESET}\" (effects (font (size 1 1))))")).unwrap();
    assert_eq!(name.name, "~{RESET}");
    assert!(name.effects.unwrap().font.is_some());
    let bare = KiCadPinName::try_from_expression(tokens("(name A)")).unwrap();
    assert_eq!(bare.name, "A");
    assert!(bare.effects.is_none());
    assert_eq!(KiCadPinName::try_from_expression(tokens("(number A)")).unwrap_err(), malformed("name"));
    assert_eq!(KiCadPinName::try_from_expression(tokens("(name (effects))")).unwrap_err(), bad_value("name"));
    assert_eq!(KiCadPinName::try_from_expression(tokens("(name A (font))")).unwrap_err(), unknown("name", "font"));
    assert_eq!(KiCadPinName::try_from_expression(tokens("(name A (effects (x)))")).unwrap_err(), unknown("effects", "x"));
}

#[test]
fn pin_number_readings() {
    let number = KiCadPinNumber::try_from_expression(tokens("(number \"1\" (effects (hide)))")).unwrap();
    assert_eq!(number.number, "1");
    assert!(number.effects.unwrap().hide);
    let bare = KiCadPinNumber::try_from_expression(tokens("(number A12)")).unwrap();
    assert_eq!(bare.number, "A12");
    assert_eq!(KiCadPinNumber::try_from_expression(tokens("(name 1)")).unwrap_err(), malformed("number"));
    assert_eq!(KiCadPinNumber::try_from_expression(tokens("(number)")).unwrap_err(), bad_value("number"));
    assert_eq!(KiCadPinNumber::try_from_expression(tokens("(number 1 (at 0 0 0))")).unwrap_err(), unknown("number", "at"));
}

#[test]
fn pin_with_every_part() {
    let pin = KiCadPin::try_from_expression(tokens(
        "(pin passive line (at 0 0 0) (length 2.54) (name \"A\" (effects)) (number \"1\" (effects)))",
    ))
    .unwrap();
    assert_eq!(pin.pin_type, KiCadPinType::Passive);
    assert_eq!(pin.pin_polarity, KiCadPinPolarity::Line);
    let location = pin.location.unwrap();
    assert_eq!((float_of(&location.0), float_of(&location.1), float_of(&location.2)), (0.0, 0.0, 0.0));
    assert_eq!(float_of(&pin.length.unwrap().0), 2.54);
    let name = pin.name.unwrap();
    assert_eq!(name.name, "A");
    assert!(name.effects.is_some());
    let number = pin.number.unwrap();
    assert_eq!(number.number, "1");
    assert!(number.effects.is_some());
}

#[test]
fn pin_bare() {
    let pin = KiCadPin::try_from_expression(tokens("(pin power_in inverted)")).unwrap();
    assert_eq!(pin.pin_type, KiCadPinType::PowerIn);
    assert_eq!(pin.pin_polarity, KiCadPinPolarity::Inverted);
    assert!(pin.location.is_none() && pin.length.is_none());
    assert!(pin.name.is_none() && pin.number.is_none());
}

#[test]
fn pin_passes_over_children_it_does_not_know() {
    let pin = KiCadPin::try_from_expression(tokens("(pin input line (hide) (alternate x y z) (length 1))")).unwrap();
    assert_eq!(float_of(&pin.length.unwrap().0), 1.0);
    assert!(pin.name.is_none());
}

#[test]
fn pin_errors() {
    assert_eq!(KiCadPin::try_from_expression(tokens("(pins passive line)")).unwrap_err(), malformed("pin"));
    assert_eq!(KiCadPin::try_from_expression(tokens("(pin passive)")).unwrap_err(), bad_value("pin"));
    assert_eq!(KiCadPin::try_from_expression(tokens("(pin)")).unwrap_err(), bad_value("pin"));
    assert_eq!(KiCadPin::try_from_expression(tokens("(pin active line)")).unwrap_err(), bad_value("pin"));
    assert_eq!(KiCadPin::try_from_expression(tokens("(pin passive wavy)")).unwrap_err(), bad_value("pin"));
    assert_eq!(KiCadPin::try_from_expression(tokens("(pin passive line (length x))")).unwrap_err(), bad_value("length"));
    assert_eq!(KiCadPin::try_from_expression(tokens("(pin passive line (at 1 2))")).unwrap_err(), bad_value("at"));
    assert_eq!(KiCadPin::try_from_expression(tokens("(pin passive line (name))")).unwrap_err(), bad_value("name"));
    assert_eq!(
        KiCadPin::try_from_expression(tokens("(pin passive line (number 1 (bold)))")).unwrap_err(),
        unknown("number", "bold")
    );
}
