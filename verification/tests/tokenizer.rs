use linger::error::TokenizerError;
use linger::number::Number;
use linger::tokenizer::{
    match_span, token_of_match, tokenize, AssignOp, Keyword, Operator, Token, TokenKind, TokenValue,
};
use linger::tokenizer::TokenValue::{ID, NUM, OP};

fn num(n: i64) -> Number {
    Number::from_integer(n).unwrap()
}

fn tokenize_success(s: &str, expected: Vec<TokenValue>) -> bool {
    match tokenize(s) {
        Ok(actual) => {
            let actual: Vec<TokenValue> = actual.into_iter().map(|t| t.0).collect();
            actual.eq(&expected)
        }
        Err(_) => false,
    }
}

fn tokenize_mismatch(s: &str, expected: Vec<TokenValue>) -> bool {
    match tokenize(s) {
        Ok(actual) => {
            let actual: Vec<TokenValue> = actual.into_iter().map(|t| t.0).collect();
            actual.ne(&expected)
        }
        Err(_) => false,
    }
}

fn tokenize_error(s: &str) -> bool {
    match tokenize(s) {
        Ok(_) => false,
        Err(_) => true,
    }
}

#[test]
fn numbers() {
    assert!(tokenize_success("1234", vec![NUM(num(1234))]));
    assert!(tokenize_success("-1234", vec![OP(Operator::Minus), NUM(num(1234))]));
}

#[test]
fn ids() {
    assert!(tokenize_success("abc", vec![ID("abc".to_string())]));
    assert!(tokenize_success("AbC", vec![ID("AbC".to_string())]));
    assert!(tokenize_success("aBc_", vec![ID("aBc_".to_string())]));
    assert!(tokenize_success("abc_12", vec![ID("abc_12".to_string())]));
    assert!(tokenize_success("abc_12_DE", vec![ID("abc_12_DE".to_string().to_string())]));

    assert!(tokenize_mismatch("12345", vec![ID("12345".to_string())]));

    assert!(tokenize_error("1a"));
    assert!(tokenize_error("_abc"));
}

#[test]
fn decimal_literals() {
    assert!(tokenize_success("3.14", vec![NUM(Number { units: 3_140_000 })]));
    assert!(tokenize_success(".5", vec![NUM(Number { units: 500_000 })]));
    assert!(tokenize_success("0.1234567", vec![NUM(Number { units: 123_456 })]));
}

#[test]
fn number_too_large_is_unknown_token() {
    match tokenize("99999999999999999999") {
        Err(TokenizerError::UnknownToken(text)) => assert_eq!(text, "99999999999999999999"),
        other => panic!("{:?}", other),
    }
}

#[test]
fn positions_count_lines_and_columns_from_one() {
    let tokens = tokenize("let x = 5;\n  x += 1;").unwrap();
    let expected = vec![
        Token(TokenValue::KW(Keyword::Let), 1, 1),
        Token(TokenValue::ID("x".to_string()), 1, 5),
        Token(TokenValue::ASSIGN, 1, 7),
        Token(TokenValue::NUM(num(5)), 1, 9),
        Token(TokenValue::SEMICOLON, 1, 10),
        Token(TokenValue::ID("x".to_string()), 2, 3),
        Token(TokenValue::ASSIGN_OP(AssignOp::Plus), 2, 5),
        Token(TokenValue::NUM(num(1)), 2, 8),
        Token(TokenValue::SEMICOLON, 2, 9),
    ];
    assert_eq!(tokens, expected);
}

#[test]
fn symbols_of_two_characters_come_before_those_of_one() {
    assert!(tokenize_success(
        "== != <= >= && || -> ++ -- += -= = < > ! + - * / %",
        vec![
            OP(Operator::Eq),
            OP(Operator::Ne),
            OP(Operator::LTE),
            OP(Operator::GTE),
            OP(Operator::LogicAnd),
            OP(Operator::LogicOr),
            TokenValue::THIN_ARROW,
            TokenValue::DOUBLE_PLUS,
            TokenValue::DOUBLE_MINUS,
            TokenValue::ASSIGN_OP(AssignOp::Plus),
            TokenValue::ASSIGN_OP(AssignOp::Minus),
            TokenValue::ASSIGN,
            OP(Operator::LT),
            OP(Operator::GT),
            OP(Operator::LogicNot),
            OP(Operator::Plus),
            OP(Operator::Minus),
            OP(Operator::Times),
            OP(Operator::Div),
            OP(Operator::Mod),
        ]
    ));
}

#[test]
fn brackets_and_punctuation() {
    assert!(tokenize_success(
        "( ) { } [ ] ; ,",
        vec![
            TokenValue::LPAREN,
            TokenValue::RPAREN,
            TokenValue::LBRACKET,
            TokenValue::RBRACKET,
            TokenValue::L_SQUARE_BRACKET,
            TokenValue::R_SQUARE_BRACKET,
            TokenValue::SEMICOLON,
            TokenValue::COMMA,
        ]
    ));
}

#[test]
fn keywords_are_recognised() {
    assert!(tokenize_success(
        "if else proc let const true false return while break continue for",
        vec![
            TokenValue::KW(Keyword::If),
            TokenValue::KW(Keyword::Else),
            TokenValue::KW(Keyword::Proc),
            TokenValue::KW(Keyword::Let),
            TokenValue::KW(Keyword::Const),
            TokenValue::KW(Keyword::True),
            TokenValue::KW(Keyword::False),
            TokenValue::KW(Keyword::Return),
            TokenValue::KW(Keyword::While),
            TokenValue::KW(Keyword::Break),
            TokenValue::KW(Keyword::Continue),
            TokenValue::KW(Keyword::For),
        ]
    ));
}

#[test]
fn a_keyword_at_the_head_of_a_name_is_split_off() {
    assert!(tokenize_success(
        "letter",
        vec![TokenValue::KW(Keyword::Let), ID("ter".to_string())]
    ));
}

#[test]
fn string_literals_and_escapes() {
    assert!(tokenize_success(
        "\"hello world\"",
        vec![TokenValue::STR("hello world".to_string())]
    ));
    assert!(tokenize_success(
        "\"first line\\nsecond line\"",
        vec![TokenValue::STR("first line\nsecond line".to_string())]
    ));
    assert!(tokenize_success(
        "\"a\\tb\\\\c\\\"d\\'e\\rf\\0\"",
        vec![TokenValue::STR("a\tb\\c\"d'e\rf\0".to_string())]
    ));
    assert!(tokenize_success(
        "\"hello // world\"",
        vec![TokenValue::STR("hello // world".to_string())]
    ));
}

#[test]
fn column_after_a_string_moves_by_content_and_quotes() {
    let tokens = tokenize("\"ab\" x").unwrap();
    assert_eq!(
        tokens,
        vec![
            Token(TokenValue::STR("ab".to_string()), 1, 1),
            Token(ID("x".to_string()), 1, 6),
        ]
    );
}

#[test]
fn unterminated_string_literal() {
    assert!(matches!(
        tokenize("\"abc"),
        Err(TokenizerError::UnterminatedStringLiteral)
    ));
    assert!(matches!(
        tokenize("\"abc\\"),
        Err(TokenizerError::UnterminatedStringLiteral)
    ));
    assert!(matches!(
        tokenize("\"abc\ndef\""),
        Err(TokenizerError::UnterminatedStringLiteral)
    ));
}

#[test]
fn invalid_escape_sequence() {
    match tokenize("\"a\\qb\"") {
        Err(TokenizerError::InvalidEscapeSequence(c)) => assert_eq!(c, 'q'),
        other => panic!("{:?}", other),
    }
}

#[test]
fn unknown_token_reaches_to_the_next_white_space() {
    match tokenize("let x = #what is;") {
        Err(TokenizerError::UnknownToken(text)) => assert_eq!(text, "#what"),
        other => panic!("{:?}", other),
    }
}

#[test]
fn comments_end_the_line() {
    assert!(tokenize_success(
        "x // the rest ; is } ignored\ny",
        vec![ID("x".to_string()), ID("y".to_string())]
    ));
}

#[test]
fn empty_text_has_no_tokens() {
    assert!(tokenize_success("", vec![]));
    assert!(tokenize_success("\n\n  \n", vec![]));
}

#[test]
fn tokenizer_error_messages() {
    assert_eq!(
        TokenizerError::UnknownToken("#".to_string()).to_string(),
        "unknown token: #"
    );
    assert_eq!(
        TokenizerError::UnterminatedStringLiteral.to_string(),
        "unterminated string literal"
    );
    assert_eq!(
        TokenizerError::InvalidEscapeSequence('q').to_string(),
        "invalid escape sequence \"\\q\""
    );
}

#[test]
fn token_texts() {
    assert_eq!(TokenValue::STR("a".to_string()).to_string(), "\"a\"");
    assert_eq!(TokenValue::NUM(num(12)).to_string(), "12");
    assert_eq!(TokenValue::KW(Keyword::While).to_string(), "while");
    assert_eq!(TokenValue::OP(Operator::LTE).to_string(), "<=");
    assert_eq!(TokenValue::ASSIGN_OP(AssignOp::Minus).to_string(), "-=");
    assert_eq!(TokenValue::LBRACKET.to_string(), "{");
    assert_eq!(TokenValue::R_SQUARE_BRACKET.to_string(), "]");
    assert_eq!(TokenValue::THIN_ARROW.to_string(), "->");
}

#[test]
fn a_match_gives_the_token_of_its_kind() {
    let shown = |r: Option<Result<(Option<TokenValue>, usize), TokenizerError>>| match r {
        Some(Ok(pair)) => Some(Ok(pair)),
        Some(Err(e)) => Some(Err(e.to_string())),
        None => None,
    };
    assert_eq!(
        shown(token_of_match(
            TokenKind::Fixed(OP(Operator::Minus)),
            "-1234",
            Some((0, 1))
        )),
        Some(Ok((Some(OP(Operator::Minus)), 1)))
    );
    assert_eq!(
        shown(token_of_match(TokenKind::Numeral, "1234", Some((0, 4)))),
        Some(Ok((Some(NUM(num(1234))), 4)))
    );
    assert_eq!(
        shown(token_of_match(TokenKind::Numeral, "12.5;", Some((0, 4)))),
        Some(Ok((Some(NUM(Number { units: 12_500_000 })), 4)))
    );
    assert_eq!(
        shown(token_of_match(TokenKind::Identifier, "abc_12 = 1", Some((0, 6)))),
        Some(Ok((Some(ID("abc_12".to_string())), 6)))
    );
    assert_eq!(
        shown(token_of_match(TokenKind::Space, "  x", Some((0, 2)))),
        Some(Ok((None, 2)))
    );
    assert_eq!(
        shown(token_of_match(
            TokenKind::Numeral,
            "99999999999999999999",
            Some((0, 20))
        )),
        Some(Err("unknown token: 99999999999999999999".to_string()))
    );
}

#[test]
fn a_match_that_is_empty_or_outside_the_text_gives_no_token() {
    assert!(token_of_match(TokenKind::Identifier, "abc", None).is_none());
    assert!(token_of_match(TokenKind::Identifier, "abc", Some((0, 0))).is_none());
    assert!(token_of_match(TokenKind::Identifier, "abc", Some((0, 4))).is_none());
    assert!(token_of_match(TokenKind::Identifier, "abc", Some((2, 1))).is_none());
    assert!(token_of_match(TokenKind::Space, "", Some((0, 0))).is_none());
}

#[test]
fn match_offsets_are_counted_in_characters() {
    assert_eq!(match_span("abc", Some((0, 2))), Some((0, 2)));
    assert_eq!(match_span("h\u{e9}llo", Some((0, 3))), Some((0, 2)));
    assert_eq!(match_span("h\u{e9}llo", Some((3, 6))), Some((2, 5)));
    assert_eq!(match_span("h\u{e9}llo", Some((0, 2))), None);
    assert_eq!(match_span("abc", Some((2, 1))), None);
    assert_eq!(match_span("abc", Some((0, 4))), None);
    assert_eq!(match_span("abc", None), None);
}
