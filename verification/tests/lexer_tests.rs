use svlang::error::LexErrorKind;
use svlang::lexer::Lexer;
use svlang::token::Token;

fn first_token(src: &str) -> (Token, usize, usize) {
    let mut lexer = Lexer::new(src.as_bytes());
    let (token, pos) = lexer.get_token().expect("expected a token");
    (token, pos.line, pos.col)
}

fn first_error(src: &str) -> (LexErrorKind, usize, usize) {
    let mut lexer = Lexer::new(src.as_bytes());
    let err = lexer.get_token().expect_err("expected a lexical error");
    (err.kind, err.position.line, err.position.col)
}

#[test]
fn test_all_reserved_words() {
    let words = vec![
        ("and", Token::And),
        ("array", Token::Array),
        ("begin", Token::Begin),
        ("boolean", Token::Boolean),
        ("call", Token::Call),
        ("do", Token::Do),
        ("else", Token::Else),
        ("elsif", Token::Elsif),
        ("end", Token::End),
        ("false", Token::False),
        ("function", Token::Function),
        ("get", Token::Get),
        ("if", Token::If),
        ("integer", Token::Integer),
        ("leave", Token::Leave),
        ("not", Token::Not),
        ("or", Token::Or),
        ("put", Token::Put),
        ("relax", Token::Relax),
        ("rem", Token::Remainder),
        ("source", Token::Source),
        ("then", Token::Then),
        ("to", Token::To),
        ("true", Token::True),
        ("while", Token::While),
    ];
    for (text, expected) in words {
        let (token, line, col) = first_token(text);
        assert_eq!(token, expected, "reserved word {}", text);
        assert_eq!((line, col), (1, 1));
    }
}

#[test]
fn test_identifier_exact_text() {
    for text in ["name", "_foo", "a1_2", "android", "Begin", "AND", "x", "if_", "d"] {
        let (token, _, _) = first_token(text);
        assert_eq!(token, Token::Id(String::from(text)), "identifier {}", text);
    }
}

#[test]
fn test_maximal_munch_two_byte_operators() {
    assert_eq!(first_token("<=").0, Token::LessEqual);
    assert_eq!(first_token("<>").0, Token::NotEqual);
    assert_eq!(first_token(">=").0, Token::GreaterEqual);
    assert_eq!(first_token(":=").0, Token::Gets);
    // the second byte matches even when more input follows
    let mut lexer = Lexer::new("<=1".as_bytes());
    assert_eq!(lexer.get_token().unwrap().0, Token::LessEqual);
    assert_eq!(lexer.get_token().unwrap().0, Token::Number(1));
}

#[test]
fn test_one_byte_operator_fallback() {
    assert_eq!(first_token("<").0, Token::LessThan);
    assert_eq!(first_token(">").0, Token::GreaterThan);
    assert_eq!(first_token("=").0, Token::Equal);
    let mut lexer = Lexer::new("<5".as_bytes());
    assert_eq!(lexer.get_token().unwrap().0, Token::LessThan);
    assert_eq!(lexer.get_token().unwrap().0, Token::Number(5));
}

#[test]
fn test_lone_colon_is_unknown() {
    let (kind, line, col) = first_error(":");
    assert_eq!(kind, LexErrorKind::UnknownCharacter(b':'));
    assert_eq!((line, col), (1, 1));
}

#[test]
fn test_single_symbols() {
    let expected = vec![
        Token::Minus,
        Token::Plus,
        Token::Divide,
        Token::Multiply,
        Token::OpenBracket,
        Token::CloseBracket,
        Token::OpenParenthesis,
        Token::CloseParenthesis,
        Token::Comma,
        Token::Concatenate,
        Token::Semicolon,
        Token::Eof,
    ];
    let mut lexer = Lexer::new("- + / * [ ] ( ) , . ;".as_bytes());
    for want in expected {
        let (token, _) = lexer.get_token().unwrap();
        assert_eq!(token, want);
    }
}

#[test]
fn test_identifier_length_boundary() {
    let ok = "a".repeat(32);
    let (token, _, _) = first_token(&ok);
    assert_eq!(token, Token::Id(ok.clone()));

    let too_long = "a".repeat(33);
    let (kind, line, col) = first_error(&too_long);
    assert_eq!(kind, LexErrorKind::IdentifierTooLong);
    assert_eq!((line, col), (1, 1));
}

#[test]
fn test_number_boundary() {
    assert_eq!(first_token("2147483647").0, Token::Number(2147483647));
    assert_eq!(first_error("2147483648").0, LexErrorKind::NumberOverflow);
    // one digit longer than the maximum
    assert_eq!(first_error("21474836470").0, LexErrorKind::NumberOverflow);
}

#[test]
fn test_number_values() {
    assert_eq!(first_token("0").0, Token::Number(0));
    assert_eq!(first_token("42").0, Token::Number(42));
    assert_eq!(first_token("007").0, Token::Number(7));
    assert_eq!(first_token("1235").0, Token::Number(1235));
}

#[test]
fn test_position_accuracy() {
    let (token, line, col) = first_token("\n  foo");
    assert_eq!(token, Token::Id(String::from("foo")));
    assert_eq!((line, col), (2, 3));
}

#[test]
fn test_tab_advances_column_only() {
    let (token, line, col) = first_token("\tif");
    assert_eq!(token, Token::If);
    assert_eq!((line, col), (1, 2));
}

#[test]
fn test_positions_across_tokens() {
    let mut lexer = Lexer::new("a b\nc".as_bytes());
    let (t1, p1) = lexer.get_token().unwrap();
    let (t2, p2) = lexer.get_token().unwrap();
    let (t3, p3) = lexer.get_token().unwrap();
    assert_eq!(t1, Token::Id(String::from("a")));
    assert_eq!((p1.line, p1.col), (1, 1));
    assert_eq!(t2, Token::Id(String::from("b")));
    assert_eq!((p2.line, p2.col), (1, 3));
    assert_eq!(t3, Token::Id(String::from("c")));
    assert_eq!((p3.line, p3.col), (2, 1));
}

#[test]
fn test_eof_idempotent_empty_input() {
    let mut lexer = Lexer::new("".as_bytes());
    for _ in 0..3 {
        let (token, pos) = lexer.get_token().unwrap();
        assert_eq!(token, Token::Eof);
        assert_eq!((pos.line, pos.col), (1, 1));
    }
}

#[test]
fn test_eof_idempotent_after_trailing_whitespace() {
    let mut lexer = Lexer::new("x \n ".as_bytes());
    assert_eq!(lexer.get_token().unwrap().0, Token::Id(String::from("x")));
    for _ in 0..3 {
        let (token, pos) = lexer.get_token().unwrap();
        assert_eq!(token, Token::Eof);
        assert_eq!((pos.line, pos.col), (2, 2));
    }
}

#[test]
fn test_string_literal_contents() {
    let (token, line, col) = first_token("\"string\"");
    assert_eq!(token, Token::StringLiteral(String::from("string")));
    assert_eq!((line, col), (1, 1));

    assert_eq!(first_token("\"\"").0, Token::StringLiteral(String::new()));

    let mut lexer = Lexer::new("\"hi there\" x".as_bytes());
    assert_eq!(lexer.get_token().unwrap().0, Token::StringLiteral(String::from("hi there")));
    let (token, pos) = lexer.get_token().unwrap();
    assert_eq!(token, Token::Id(String::from("x")));
    assert_eq!((pos.line, pos.col), (1, 12));
}

#[test]
fn test_unterminated_string_at_end_of_input() {
    let (kind, line, col) = first_error("\"abc");
    assert_eq!(kind, LexErrorKind::UnterminatedString);
    assert_eq!((line, col), (1, 1));
}

#[test]
fn test_unterminated_string_at_newline() {
    let mut lexer = Lexer::new("\"ab\ncd\"".as_bytes());
    let err = lexer.get_token().expect_err("expected an error");
    assert_eq!(err.kind, LexErrorKind::UnterminatedString);
    assert_eq!((err.position.line, err.position.col), (1, 1));
    // the scanner resumes after the newline
    let (token, pos) = lexer.get_token().unwrap();
    assert_eq!(token, Token::Id(String::from("cd")));
    assert_eq!((pos.line, pos.col), (2, 1));
    let err = lexer.get_token().expect_err("expected an error");
    assert_eq!(err.kind, LexErrorKind::UnterminatedString);
    assert_eq!((err.position.line, err.position.col), (2, 3));
}

#[test]
fn test_unknown_character_then_recovery() {
    let mut lexer = Lexer::new("? x".as_bytes());
    let err = lexer.get_token().expect_err("expected an error");
    assert_eq!(err.kind, LexErrorKind::UnknownCharacter(b'?'));
    assert_eq!((err.position.line, err.position.col), (1, 1));
    let (token, pos) = lexer.get_token().unwrap();
    assert_eq!(token, Token::Id(String::from("x")));
    assert_eq!((pos.line, pos.col), (1, 3));
}

#[test]
fn test_recovery_after_long_identifier() {
    let src = format!("{} ok", "z".repeat(33));
    let mut lexer = Lexer::new(src.as_bytes());
    assert_eq!(lexer.get_token().expect_err("expected an error").kind, LexErrorKind::IdentifierTooLong);
    let (token, pos) = lexer.get_token().unwrap();
    assert_eq!(token, Token::Id(String::from("ok")));
    assert_eq!((pos.line, pos.col), (1, 35));
}

#[test]
fn test_end_to_end_scenario() {
    let mut lexer = Lexer::new("function name 1235 \"string\"".as_bytes());
    let (t1, p1) = lexer.get_token().unwrap();
    assert_eq!(t1, Token::Function);
    assert_eq!((p1.line, p1.col), (1, 1));
    let (t2, p2) = lexer.get_token().unwrap();
    assert_eq!(t2, Token::Id(String::from("name")));
    assert_eq!((p2.line, p2.col), (1, 10));
    let (t3, p3) = lexer.get_token().unwrap();
    assert_eq!(t3, Token::Number(1235));
    assert_eq!((p3.line, p3.col), (1, 15));
    let (t4, p4) = lexer.get_token().unwrap();
    assert_eq!(t4, Token::StringLiteral(String::from("string")));
    assert_eq!((p4.line, p4.col), (1, 20));
    let (t5, _) = lexer.get_token().unwrap();
    assert_eq!(t5, Token::Eof);
}

#[test]
fn test_assignment_statement() {
    let mut lexer = Lexer::new("x := y + 1;".as_bytes());
    let expected = vec![
        Token::Id(String::from("x")),
        Token::Gets,
        Token::Id(String::from("y")),
        Token::Plus,
        Token::Number(1),
        Token::Semicolon,
        Token::Eof,
    ];
    for want in expected {
        assert_eq!(lexer.get_token().unwrap().0, want);
    }
}
