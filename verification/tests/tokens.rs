use kicad_symbols::{
    check_expression_validity, check_token_vec_healthy, get_expression_first_value,
    markers_balance, subdivide_expression, tokenise, ParseError, Token,
};

fn word(text: &str) -> Token {
    Token::Word(text.to_string())
}

fn tokens(text: &str) -> Vec<Token> {
    tokenise(text).unwrap()
}

#[test]
fn tokenise_markers_bare_and_quoted_words() {
    assert_eq!(
        tokens("(a b \"c d\")"),
        vec![Token::OpenParen, word("a"), word("b"), word("c d"), Token::CloseParen]
    );
}

#[test]
fn tokenise_empty_text_has_no_tokens() {
    assert_eq!(tokens(""), Vec::<Token>::new());
    assert_eq!(tokens(" \t\r\n"), Vec::<Token>::new());
}

#[test]
fn tokenise_drops_every_kind_of_blank() {
    assert_eq!(tokens("a\tb\nc\rd e"), vec![word("a"), word("b"), word("c"), word("d"), word("e")]);
}

#[test]
fn tokenise_marker_ends_a_bare_word() {
    assert_eq!(
        tokens("(ab(cd)ef)"),
        vec![
            Token::OpenParen,
            word("ab"),
            Token::OpenParen,
            word("cd"),
            Token::CloseParen,
            word("ef"),
            Token::CloseParen
        ]
    );
}

#[test]
fn tokenise_unclosed_quote_takes_the_rest() {
    assert_eq!(tokens("(a \"b c)"), vec![Token::OpenParen, word("a"), word("b c)")]);
    assert_eq!(tokens("\""), vec![word("")]);
}

#[test]
fn tokenise_empty_quoted_word() {
    assert_eq!(tokens("(a \"\")"), vec![Token::OpenParen, word("a"), word(""), Token::CloseParen]);
}

#[test]
fn tokenise_quoted_word_keeps_markers_and_blanks() {
    assert_eq!(tokens("\"( a\t)\""), vec![word("( a\t)")]);
}

#[test]
fn tokenise_has_no_escapes() {
    assert_eq!(tokens("\"a\\\"b\""), vec![word("a\\"), word("b\"")]);
}

#[test]
fn tokenise_quote_inside_bare_word_is_part_of_it() {
    assert_eq!(tokens("ab\"cd ef"), vec![word("ab\"cd"), word("ef")]);
}

#[test]
fn tokenise_word_directly_behind_closing_quote() {
    assert_eq!(tokens("\"a\"b"), vec![word("a"), word("b")]);
}

#[test]
fn tokenise_text_of_other_scripts() {
    assert_eq!(
        tokens("(value \"4,7 µF\" Ω)"),
        vec![Token::OpenParen, word("value"), word("4,7 µF"), word("Ω"), Token::CloseParen]
    );
}

#[test]
fn subdivide_three_sibling_forms() {
    let forms = subdivide_expression(tokens("(a 1) (b (c 2) d) ()"));
    assert_eq!(forms.len(), 3);
    assert_eq!(forms[0], tokens("(a 1)"));
    assert_eq!(forms[1], tokens("(b (c 2) d)"));
    assert_eq!(forms[2], tokens("()"));
    for form in forms {
        assert_eq!(form[0], Token::OpenParen);
        assert!(check_token_vec_healthy(form));
    }
}

#[test]
fn subdivide_nothing_gives_nothing() {
    assert_eq!(subdivide_expression(Vec::new()).len(), 0);
}

#[test]
fn subdivide_leaves_out_what_is_never_closed() {
    let forms = subdivide_expression(tokens("(a) (b"));
    assert_eq!(forms, vec![tokens("(a)")]);
}

#[test]
fn subdivide_with_the_closing_marker_of_the_parent() {
    let forms = subdivide_expression(tokens("(size 1 2) (bold))"));
    assert_eq!(forms, vec![tokens("(size 1 2)"), tokens("(bold)")]);
}

#[test]
fn subdivide_words_between_forms_go_to_the_next_form() {
    let forms = subdivide_expression(tokens("x (a) y z (b)"));
    assert_eq!(forms, vec![tokens("x (a)"), tokens("y z (b)")]);
}

#[test]
fn subdivide_after_a_surplus_closing_marker() {
    let forms = subdivide_expression(tokens(") ( ( )"));
    assert_eq!(forms, vec![tokens(") ( ( )")]);
    let none = subdivide_expression(tokens(") ( )"));
    assert_eq!(none.len(), 0);
}

#[test]
fn healthy_counts_markers() {
    assert!(check_token_vec_healthy(tokens("(a (b) c)")));
    assert!(check_token_vec_healthy(tokens("")));
    assert!(check_token_vec_healthy(tokens(") (")));
    assert!(!check_token_vec_healthy(tokens("(a (b) c")));
    assert!(!check_token_vec_healthy(tokens("a)")));
}

#[test]
fn balance_of_tokens_that_are_kept() {
    let kept = tokens("(a (b) \"(\" c)");
    assert!(markers_balance(&kept));
    assert_eq!(kept.len(), 8);
    assert!(!markers_balance(&tokens("(a (b) c")));
    assert!(!markers_balance(&tokens("(a))")));
    assert!(markers_balance(&Vec::new()));
}

#[test]
fn validity_accepts_marker_and_keyword() {
    assert_eq!(check_expression_validity(&tokens("(font)"), "font".to_string()), Ok(()));
    assert_eq!(check_expression_validity(&tokens("(font"), "font".to_string()), Ok(()));
    assert_eq!(check_expression_validity(&tokens("(font (size 1 1))"), "font".to_string()), Ok(()));
}

#[test]
fn validity_rejects_short_expressions() {
    let expected = Err(ParseError::Structure { form: "font".to_string() });
    assert_eq!(check_expression_validity(&tokens(""), "font".to_string()), expected);
    assert_eq!(check_expression_validity(&tokens("("), "font".to_string()), expected);
    assert_eq!(check_expression_validity(&tokens("font"), "font".to_string()), expected);
}

#[test]
fn validity_rejects_missing_opening_marker() {
    let expected = Err(ParseError::Structure { form: "font".to_string() });
    assert_eq!(check_expression_validity(&tokens("font font)"), "font".to_string()), expected);
    assert_eq!(check_expression_validity(&tokens(") font )"), "font".to_string()), expected);
}

#[test]
fn validity_rejects_other_keywords() {
    let expected = Err(ParseError::Structure { form: "font".to_string() });
    assert_eq!(check_expression_validity(&tokens("(Font)"), "font".to_string()), expected);
    assert_eq!(check_expression_validity(&tokens("(fonts)"), "font".to_string()), expected);
    assert_eq!(check_expression_validity(&tokens("(fon)"), "font".to_string()), expected);
    assert_eq!(check_expression_validity(&tokens("(())"), "font".to_string()), expected);
    assert_eq!(check_expression_validity(&tokens("()"), "font".to_string()), expected);
}

#[test]
fn first_value_is_the_token_behind_the_marker() {
    assert_eq!(get_expression_first_value(&tokens("(in_bom yes)")), Ok(word("in_bom")));
    assert_eq!(get_expression_first_value(&tokens("(()")), Ok(Token::OpenParen));
    assert_eq!(get_expression_first_value(&tokens("()")), Ok(Token::CloseParen));
}

#[test]
fn first_value_rejects_short_or_unopened() {
    let expected = Err(ParseError::Structure { form: String::new() });
    assert_eq!(get_expression_first_value(&tokens("(")), expected);
    assert_eq!(get_expression_first_value(&tokens("")), expected);
    assert_eq!(get_expression_first_value(&tokens("a b")), expected);
}

#[test]
fn token_copies_are_equal() {
    let token = word("abc");
    assert_eq!(token.clone(), token);
    assert_ne!(word("abc"), word("abd"));
    assert_ne!(Token::OpenParen, Token::CloseParen);
}

#[test]
fn errors_in_words() {
    assert_eq!(
        ParseError::Structure { form: "font".to_string() }.message(),
        "malformed expression where this form was expected: font"
    );
    assert_eq!(
        ParseError::Schema { form: "symbol".to_string(), keyword: "unknown_key".to_string() }.message(),
        "unknown keyword unknown_key in the form symbol"
    );
    assert_eq!(
        ParseError::Value { field: "version".to_string() }.message(),
        "missing or unreadable value in the form version"
    );
}

#[test]
fn errors_are_built_copied_and_compared() {
    let malformed = ParseError::structural("text");
    assert_eq!(malformed, ParseError::Structure { form: "text".to_string() });
    assert_eq!(malformed.clone(), malformed);
    let refused = ParseError::value("at");
    assert_eq!(refused, ParseError::Value { field: "at".to_string() });
    assert_ne!(refused, ParseError::Value { field: "size".to_string() });
    assert_ne!(refused, ParseError::Structure { form: "at".to_string() });
    let unknown = ParseError::Schema { form: "font".to_string(), keyword: "x".to_string() };
    assert_eq!(unknown.clone(), unknown);
    assert_ne!(unknown, ParseError::Schema { form: "effects".to_string(), keyword: "x".to_string() });
    assert_ne!(unknown, ParseError::Schema { form: "font".to_string(), keyword: "y".to_string() });
}

#[test]
fn words_are_bare_or_quoted() {
    let plain = tokens("(symbol R_1 (at 0\t1.5)\r\n(pin~ a-b))");
    for token in &plain {
        if let Token::Word(text) = token {
            assert!(!text.is_empty());
            assert!(!text.contains(|letter| " \t\r\n()".contains(letter)), "{text:?}");
        }
    }
    let mixed = tokens("(a \"b (c)\" d\"e \"\" f)");
    for token in &mixed {
        if let Token::Word(text) = token {
            let bare = !text.is_empty() && !text.contains(|letter| " \t\r\n()".contains(letter));
            assert!(bare || !text.contains('"'), "{text:?}");
        }
    }
    assert_eq!(mixed[2], word("b (c)"));
    assert_eq!(mixed[3], word("d\"e"));
    assert_eq!(mixed[4], word(""));
}
