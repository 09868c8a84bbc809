use kicad_symbols::number::{read_unsigned, reads_as_number};
use kicad_symbols::{
    chars_of, parse_parameter_from_expression, same_text, text_between, tokenise, FromWord,
    Number, ParseError,
};

fn accepted(word: &str) -> bool {
    Number::from_word(word).is_some()
}

#[test]
fn whole_numbers_are_read_in_base_ten() {
    assert_eq!(u64::from_word("0"), Some(0));
    assert_eq!(u64::from_word("20211014"), Some(20211014));
    assert_eq!(u64::from_word("007"), Some(7));
    assert_eq!(u64::from_word("+42"), Some(42));
    assert_eq!(u32::from_word("4294967295"), Some(4294967295));
}

#[test]
fn whole_numbers_stop_at_the_limit_of_their_type() {
    assert_eq!(u64::from_word("18446744073709551615"), Some(u64::MAX));
    assert_eq!(u64::from_word("18446744073709551616"), None);
    assert_eq!(u64::from_word("99999999999999999999999"), None);
    assert_eq!(u32::from_word("4294967296"), None);
    assert_eq!(read_unsigned(&chars_of("255"), 255), Some(255));
    assert_eq!(read_unsigned(&chars_of("256"), 255), None);
    assert_eq!(read_unsigned(&chars_of("7"), 5), None);
}

#[test]
fn whole_numbers_refuse_what_is_no_digit() {
    for word in ["", "+", "-1", "abc", "12a", " 1", "1 ", "1_000", "0x10", "1.0", "++1", "١٢"] {
        assert_eq!(u64::from_word(word), None, "{word:?}");
        assert_eq!(u64::from_word(word).is_some(), word.parse::<u64>().is_ok(), "{word:?}");
    }
}

#[test]
fn whole_numbers_agree_with_the_standard_library() {
    for word in ["0", "1", "+0", "000", "18446744073709551615", "18446744073709551616", "+", "5+"] {
        assert_eq!(u64::from_word(word), word.parse::<u64>().ok(), "{word:?}");
        assert_eq!(u32::from_word(word), word.parse::<u32>().ok(), "{word:?}");
    }
}

#[test]
fn words_give_themselves() {
    assert_eq!(String::from_word("test"), Some("test".to_string()));
    assert_eq!(String::from_word(""), Some(String::new()));
}

#[test]
fn real_numbers_in_plain_notation() {
    for word in ["0", "7.0", "2.54", "-1.27", "+3", "1.", ".5", "-.5", "0001.5000", "100"] {
        assert!(accepted(word), "{word:?}");
    }
}

#[test]
fn real_numbers_with_exponent() {
    for word in ["1e5", "1E5", "1.5e-3", "-2.E+7", ".5e0", "1e0005"] {
        assert!(accepted(word), "{word:?}");
    }
}

#[test]
fn real_numbers_by_name() {
    for word in ["inf", "-inf", "+Infinity", "INF", "nan", "NaN", "-nan"] {
        assert!(accepted(word), "{word:?}");
    }
}

#[test]
fn real_numbers_refuse_what_is_none() {
    for word in [
        "", "+", "-", ".", "e5", "1e", "1e+", "1.5.2", "abc", "1 ", " 1", "1,5", "--1", "+-1",
        "infinit", "infinityy", "na", "nano", "1f", "0x10", "1_0", "1e5.0", "i\u{308}nf",
        "\u{212a}",
    ] {
        assert!(!accepted(word), "{word:?}");
    }
}

#[test]
fn real_numbers_agree_with_the_standard_library() {
    let words = [
        "0", "-0", "7.0", "2.54", "1.", ".5", ".", "", "+", "-", "1e5", "1E-5", "1e", "e", "e1",
        ".e1", "1.e1", "+.5E+05", "inf", "Inf", "iNfInItY", "infinit", "nan", "NAN", "+nan",
        "nanx", "1..2", "1.2.3", "١", "1e1e1", "12abc", "0x1p3", "1f32", "1_000", "+inf", "-infinity",
        "--1", "1-", "1+1", "3.4028236e38", "1e400", "1e-400", "0.000000000000000000000000001",
        "123456789012345678901234567890",
    ];
    for word in words {
        assert_eq!(accepted(word), word.parse::<f32>().is_ok(), "{word:?}");
        assert_eq!(reads_as_number(&chars_of(word)), word.parse::<f64>().is_ok(), "{word:?}");
    }
}

#[test]
fn real_number_keeps_its_text() {
    let number = Number::from_word("2.54").unwrap();
    assert_eq!(number.as_str(), "2.54");
    assert_eq!(number.as_str().parse::<f32>(), Ok(2.54));
    assert_eq!(number.clone().as_str(), "2.54");
}

#[test]
fn chars_of_gives_every_character() {
    assert_eq!(chars_of("aµ("), vec!['a', 'µ', '(']);
    assert_eq!(chars_of(""), Vec::<char>::new());
}

#[test]
fn same_text_compares_characters() {
    assert!(same_text("font", "font"));
    assert!(same_text("", ""));
    assert!(!same_text("font", "Font"));
    assert!(!same_text("font", "fonts"));
    assert!(!same_text("fonts", "font"));
}

#[test]
fn text_between_cuts_a_range() {
    let letters = chars_of("a(bµc)");
    assert_eq!(text_between(&letters, 2, 5), "bµc");
    assert_eq!(text_between(&letters, 3, 3), "");
    assert_eq!(text_between(&letters, 0, 6), "a(bµc)");
}

#[test]
fn parameter_of_each_kind() {
    let version = tokenise("(version 20211014)").unwrap();
    assert_eq!(parse_parameter_from_expression::<u64>(&version, "version".to_string()), Ok(20211014));
    let generator = tokenise("(generator \"kicad symbol editor\")").unwrap();
    assert_eq!(
        parse_parameter_from_expression::<String>(&generator, "generator".to_string()),
        Ok("kicad symbol editor".to_string())
    );
    let generator_version = tokenise("(generator_version 7.0)").unwrap();
    let number =
        parse_parameter_from_expression::<Number>(&generator_version, "generator_version".to_string())
            .unwrap();
    assert_eq!(number.as_str().parse::<f32>(), Ok(7.0));
}

#[test]
fn parameter_needs_four_tokens_and_its_keyword() {
    let malformed = Err(ParseError::Structure { form: "version".to_string() });
    for text in ["(version", "(version)", "version 1 )", "(generator 1)", "((version 1)", ""] {
        let expression = tokenise(text).unwrap();
        assert_eq!(
            parse_parameter_from_expression::<u64>(&expression, "version".to_string()),
            malformed,
            "{text:?}"
        );
    }
}

#[test]
fn parameter_value_has_to_convert() {
    let refused = Err(ParseError::Value { field: "version".to_string() });
    for text in ["(version abc)", "(version -1)", "(version (1))", "(version ) )", "(version 1.5)"] {
        let expression = tokenise(text).unwrap();
        assert_eq!(
            parse_parameter_from_expression::<u64>(&expression, "version".to_string()),
            refused,
            "{text:?}"
        );
    }
}
