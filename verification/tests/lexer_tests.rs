use tinycalc::lexer::{Lexer, Token, TokenKind};

fn lex(input: &str) -> Result<Vec<Token>, String> {
    let lexer = Lexer::new();
    lexer.analyze(String::from(input))
}

fn kinds_and_values(tokens: &[Token]) -> Vec<(TokenKind, String)> {
    tokens.iter().map(|t| (t.kind(), t.value())).collect()
}

#[test]
fn single_digit_characters_are_number_tokens() {
    for c in ["0", "1", "2", "3", "4", "5", "6", "7", "8", "9"] {
        let tokens = lex(c).unwrap();
        assert_eq!(tokens.len(), 1);
        assert_eq!(tokens[0].kind(), TokenKind::Number);
        assert_eq!(tokens[0].value(), *c);
    }
}

#[test]
fn single_operator_characters_are_operator_tokens() {
    for c in ["+", "-", "*", "/"] {
        let tokens = lex(c).unwrap();
        assert_eq!(tokens.len(), 1);
        assert_eq!(tokens[0].kind(), TokenKind::Operator);
        assert_eq!(tokens[0].value(), *c);
    }
}

#[test]
fn single_parenthesis_characters_are_parenthesis_tokens() {
    for c in ["(", ")"] {
        let tokens = lex(c).unwrap();
        assert_eq!(tokens.len(), 1);
        assert_eq!(tokens[0].kind(), TokenKind::Parenthesis);
        assert_eq!(tokens[0].value(), *c);
    }
}

#[test]
fn lone_decimal_point_is_a_lex_error() {
    // no matcher accepts "." on its own: the number matcher wants a digit
    // before the decimal point
    let err = lex(".").unwrap_err();
    assert_eq!(err, "char . doesn't match any token");
}

#[test]
fn other_single_characters_are_lex_errors_naming_them() {
    for (c, msg) in [
        ("&", "char & doesn't match any token"),
        ("a", "char a doesn't match any token"),
        ("%", "char % doesn't match any token"),
        ("=", "char = doesn't match any token"),
    ] {
        let err = lex(c).unwrap_err();
        assert_eq!(err, msg);
    }
}

#[test]
fn space_alone_yields_no_tokens() {
    let tokens = lex(" ").unwrap();
    assert!(tokens.is_empty());
    let tokens = lex("").unwrap();
    assert!(tokens.is_empty());
}

#[test]
fn lex_failure_names_the_bad_character() {
    let err = lex("2 & 3").unwrap_err();
    assert_eq!(err, "char & doesn't match any token");
}

#[test]
fn simple_sum_tokens() {
    let tokens = lex("2 + 3").unwrap();
    assert_eq!(
        kinds_and_values(&tokens),
        vec![
            (TokenKind::Number, String::from("2")),
            (TokenKind::Operator, String::from("+")),
            (TokenKind::Number, String::from("3")),
        ]
    );
}

#[test]
fn boundaries_are_found_without_spaces() {
    let tokens = lex("12+(34)").unwrap();
    assert_eq!(
        kinds_and_values(&tokens),
        vec![
            (TokenKind::Number, String::from("12")),
            (TokenKind::Operator, String::from("+")),
            (TokenKind::Parenthesis, String::from("(")),
            (TokenKind::Number, String::from("34")),
            (TokenKind::Parenthesis, String::from(")")),
        ]
    );
}

#[test]
fn decimal_numbers_stay_one_token() {
    let tokens = lex("1.5*20.25").unwrap();
    assert_eq!(
        kinds_and_values(&tokens),
        vec![
            (TokenKind::Number, String::from("1.5")),
            (TokenKind::Operator, String::from("*")),
            (TokenKind::Number, String::from("20.25")),
        ]
    );
}

#[test]
fn spaces_are_dropped_entirely() {
    let tokens = lex("  2  *   3 ").unwrap();
    assert_eq!(
        kinds_and_values(&tokens),
        vec![
            (TokenKind::Number, String::from("2")),
            (TokenKind::Operator, String::from("*")),
            (TokenKind::Number, String::from("3")),
        ]
    );
}

#[test]
fn a_space_forces_no_token_boundary() {
    // a space is dropped entirely: it neither joins the in-progress token
    // nor forces a boundary test, so the digits around it fuse
    let tokens = lex("2 3").unwrap();
    assert_eq!(
        kinds_and_values(&tokens),
        vec![
            (TokenKind::Number, String::from("23")),
        ]
    );
}

#[test]
fn consecutive_operators_are_separate_tokens() {
    let tokens = lex("--").unwrap();
    assert_eq!(
        kinds_and_values(&tokens),
        vec![
            (TokenKind::Operator, String::from("-")),
            (TokenKind::Operator, String::from("-")),
        ]
    );
}

#[test]
fn fresh_token_is_undefined_and_empty() {
    let t = Token::new();
    assert_eq!(t.kind(), TokenKind::Undefined);
    assert_eq!(t.value(), "");
}

#[test]
fn analyzing_twice_with_one_lexer_gives_the_same_tokens() {
    let lexer = Lexer::new();
    let first = lexer.analyze(String::from("(1+2)*3")).unwrap();
    let second = lexer.analyze(String::from("(1+2)*3")).unwrap();
    assert_eq!(kinds_and_values(&first), kinds_and_values(&second));
}
