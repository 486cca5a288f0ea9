//! Lexer scenarios: source text in, tokens out.
use rustscript::lexer::lex;
use rustscript::token::{FloatLit, Token};

/// The first tokens of the input, which must lex.
fn lex_all(input: &str) -> Vec<Token> {
    lex(input).expect("Expected token")
}

fn float(f: f64) -> Token {
    Token::Float(FloatLit { text: f.to_string() })
}

fn expect_prefix(input: &str, expected: Vec<Token>) {
    let tokens = lex_all(input);
    assert!(tokens.len() >= expected.len());
    for (i, e) in expected.into_iter().enumerate() {
        assert_eq!(e, tokens[i]);
    }
}

#[test]
fn test_bool() {
    expect_prefix("true\n\tfalse", vec![Token::Bool(true), Token::Bool(false)]);
}

#[test]
fn test_lexer_number_leading_zero() {
    let input = "02 003 00401.02";
    let expected = vec![Token::Integer(2), Token::Integer(3), float(401.02)];
    expect_prefix(input, expected);
}

#[test]
fn test_string() {
    expect_prefix(
        r#""hello" "world""#,
        vec![Token::String("hello".to_string()), Token::String("world".to_string())],
    );
}

#[test]
fn test_single_char_symbols() {
    let input = ";:.,{}()@#~?$=-&|+*/^%";
    let expected = vec![
        Token::Semi,
        Token::Colon,
        Token::Dot,
        Token::Comma,
        Token::OpenBrace,
        Token::CloseBrace,
        Token::OpenParen,
        Token::CloseParen,
        Token::At,
        Token::Pound,
        Token::Tilde,
        Token::Question,
        Token::Dollar,
        Token::Eq,
        Token::Minus,
        Token::And,
        Token::Or,
        Token::Plus,
        Token::Star,
        Token::Slash,
        Token::Caret,
        Token::Percent,
    ];
    expect_prefix(input, expected);
}

#[test]
fn test_normal_code_1() {
    let input = r#"let x = 42; let y = 4.0;"#;
    let expected = vec![
        Token::Let,
        Token::Ident("x".to_string()),
        Token::Eq,
        Token::Integer(42),
        Token::Semi,
        Token::Let,
        Token::Ident("y".to_string()),
        Token::Eq,
        float(4.0),
    ];
    expect_prefix(input, expected);
}

#[test]
fn test_normal_code_2() {
    let input = r#"while (x < 10) { x = x + 1; }"#;
    let expected = vec![
        Token::Ident("while".to_string()),
        Token::OpenParen,
        Token::Ident("x".to_string()),
        Token::Lt,
        Token::Integer(10),
        Token::CloseParen,
        Token::OpenBrace,
        Token::Ident("x".to_string()),
        Token::Eq,
        Token::Ident("x".to_string()),
        Token::Plus,
        Token::Integer(1),
        Token::Semi,
        Token::CloseBrace,
    ];
    expect_prefix(input, expected);
}

#[test]
fn test_nonsense_input() {
    let input = "  frij34ij33 \n \t wrjijeritj  ";
    let expected = vec![Token::Ident(String::from("frij34ij33")), Token::Ident(String::from("wrjijeritj"))];
    expect_prefix(input, expected);
}

// Scenarios of this lexer's own token language.

#[test]
fn lex_keywords_and_two_char_operators() {
    let tokens = lex_all("fn f() -> int { return 1 == 2 && true || false; }");
    assert_eq!(
        tokens,
        vec![
            Token::Fn,
            Token::Ident("f".to_string()),
            Token::OpenParen,
            Token::CloseParen,
            Token::FnDeclReturn,
            Token::Ident("int".to_string()),
            Token::OpenBrace,
            Token::Return,
            Token::Integer(1),
            Token::LogEq,
            Token::Integer(2),
            Token::LogAnd,
            Token::Bool(true),
            Token::LogOr,
            Token::Bool(false),
            Token::Semi,
            Token::CloseBrace,
        ]
    );
}

#[test]
fn lex_minus_is_a_token_of_its_own() {
    assert_eq!(lex_all("-1"), vec![Token::Minus, Token::Integer(1)]);
    assert_eq!(lex_all("2-3"), vec![Token::Integer(2), Token::Minus, Token::Integer(3)]);
}

#[test]
fn lex_comments_and_whitespace_are_skipped() {
    assert_eq!(lex_all("1 // one\n 2"), vec![Token::Integer(1), Token::Integer(2)]);
    assert_eq!(lex_all("   \n\t "), vec![]);
}

#[test]
fn lex_integer_limits() {
    assert_eq!(lex_all("9223372036854775807"), vec![Token::Integer(i64::MAX)]);
    assert!(lex("9223372036854775808").is_none());
}

#[test]
fn lex_float_texts() {
    assert_eq!(lex_all(".5"), vec![float(0.5)]);
    assert_eq!(lex_all("1.50"), vec![float(1.5)]);
    assert_eq!(lex_all("2.0"), vec![float(2.0)]);
}

#[test]
fn lex_rejects_unknown_characters_and_open_strings() {
    assert!(lex("let x = `").is_none());
    assert!(lex("\"open").is_none());
}

#[test]
fn lex_unsigned_float_cases() {
    let input = "0.0 0.1 1.0 1.1 .0 .1";
    let expected = vec![float(0.0), float(0.1), float(1.0), float(1.1), float(0.0), float(0.1)];
    assert_eq!(lex_all(input), expected);
    let input = format!("{}.0", f64::MAX);
    assert_eq!(lex_all(&input), vec![float(f64::MAX)]);
    assert_eq!(lex_all("-0.0"), vec![Token::Minus, float(0.0)]);
}

#[test]
fn lex_unsigned_integers_and_names() {
    assert_eq!(
        lex_all("0 1 42 1234567890"),
        vec![Token::Integer(0), Token::Integer(1), Token::Integer(42), Token::Integer(1234567890)]
    );
    assert_eq!(lex_all(&i64::MAX.to_string()), vec![Token::Integer(i64::MAX)]);
    assert_eq!(lex_all("1.23"), vec![float(1.23)]);
    assert_eq!(
        lex_all("foo bar baz _john _"),
        vec![
            Token::Ident("foo".to_string()),
            Token::Ident("bar".to_string()),
            Token::Ident("baz".to_string()),
            Token::Ident("_john".to_string()),
            Token::Ident("_".to_string()),
        ]
    );
}
