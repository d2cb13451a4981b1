use minic::lexer::lex;
use minic::token::{LexError, LexErrorKind, Token};

fn lex_src(src: &str) -> Result<Vec<Token>, LexError> {
    let code = String::from(src);
    let mut tokens: Vec<Token> = Vec::new();
    match lex(&code, &mut tokens) {
        Ok(()) => Ok(tokens),
        Err(e) => Err(e),
    }
}

fn ok(src: &str) -> Vec<Token> {
    lex_src(src).expect("expected a successful scan")
}

fn err(src: &str) -> LexError {
    lex_src(src).expect_err("expected a lexical error")
}

#[test]
fn compound_operators_scan_as_one_token() {
    assert_eq!(ok("=="), vec![Token::Equal]);
    assert_eq!(ok("!="), vec![Token::NotEqual]);
    assert_eq!(ok("<="), vec![Token::LesserEqual]);
    assert_eq!(ok(">="), vec![Token::BiggerEqual]);
    assert_eq!(ok("++"), vec![Token::Inc]);
    assert_eq!(ok("--"), vec![Token::Dec]);
    assert_eq!(ok("+="), vec![Token::UnAdd]);
    assert_eq!(ok("-="), vec![Token::UnSub]);
    assert_eq!(ok("*="), vec![Token::UnMul]);
    assert_eq!(ok("/="), vec![Token::UnDiv]);
}

#[test]
fn single_operators() {
    assert_eq!(ok("="), vec![Token::Assignment]);
    assert_eq!(ok("<"), vec![Token::Lesser]);
    assert_eq!(ok(">"), vec![Token::Bigger]);
    assert_eq!(ok("!"), vec![Token::Negation]);
    assert_eq!(ok("+ 1"), vec![Token::Plus, Token::IntN { num: 1 }]);
    assert_eq!(ok("- 1"), vec![Token::Minus, Token::IntN { num: 1 }]);
    assert_eq!(ok("* x"), vec![Token::Star, Token::Id { tok_lexeme: String::from("x") }]);
    assert_eq!(ok("/ x"), vec![Token::Slash, Token::Id { tok_lexeme: String::from("x") }]);
}

#[test]
fn compound_operator_separated_by_space_scans_as_two() {
    assert_eq!(ok("= ="), vec![Token::Assignment, Token::Assignment]);
    assert_eq!(ok("+ +"), vec![Token::Plus, Token::Plus]);
}

#[test]
fn punctuation() {
    assert_eq!(
        ok("( ) { } [ ] ; ,"),
        vec![
            Token::LP,
            Token::RP,
            Token::LC,
            Token::RC,
            Token::LB,
            Token::RB,
            Token::Semicolon,
            Token::Comma,
        ]
    );
}

#[test]
fn integer_literals_decode_exactly() {
    assert_eq!(ok("0"), vec![Token::IntN { num: 0 }]);
    assert_eq!(ok("123"), vec![Token::IntN { num: 123 }]);
    assert_eq!(ok("007"), vec![Token::IntN { num: 7 }]);
    assert_eq!(ok("2147483647"), vec![Token::IntN { num: 2147483647 }]);
}

#[test]
fn integer_literal_beyond_i32_fails() {
    let e = err("2147483648");
    assert_eq!(e.kind, LexErrorKind::IntLiteralOverflow);
    assert_eq!(e.pos, 0);
    let e = err("99999999999999999999999");
    assert_eq!(e.kind, LexErrorKind::IntLiteralOverflow);
}

#[test]
fn float_literals_keep_their_exact_lexeme() {
    assert_eq!(ok("1.5"), vec![Token::FloatN { lexeme: String::from("1.5") }]);
    assert_eq!(ok("3."), vec![Token::FloatN { lexeme: String::from("3.") }]);
    assert_eq!(ok("0.25"), vec![Token::FloatN { lexeme: String::from("0.25") }]);
    // The lexeme determines the decoded 64-bit value exactly.
    match &ok("0.25")[0] {
        Token::FloatN { lexeme } => {
            let decoded: f64 = lexeme.parse().unwrap();
            assert_eq!(decoded, 0.25_f64);
        }
        other => panic!("not a float token: {:?}", other),
    }
}

#[test]
fn two_decimal_points_fail() {
    let e = err("1.2.3");
    assert_eq!(e.kind, LexErrorKind::MultipleDecimalPoints);
    assert_eq!(e.pos, 0);
}

#[test]
fn char_literal_single_ascii_byte() {
    assert_eq!(ok("'x'"), vec![Token::CharN { num: b'x' }]);
    assert_eq!(ok("' '"), vec![Token::CharN { num: b' ' }]);
}

#[test]
fn char_literal_empty_fails() {
    let e = err("''");
    assert_eq!(e.kind, LexErrorKind::CharLiteralLength);
    assert_eq!(e.pos, 0);
}

#[test]
fn char_literal_two_bytes_fails() {
    let e = err("'ab'");
    assert_eq!(e.kind, LexErrorKind::CharLiteralLength);
    assert_eq!(e.pos, 0);
}

#[test]
fn keywords_and_identifiers() {
    assert_eq!(
        ok("int float char bool void true false if else while return"),
        vec![
            Token::IntT,
            Token::FloatT,
            Token::CharT,
            Token::BoolT,
            Token::VoidT,
            Token::BoolTrue,
            Token::BoolFalse,
            Token::If,
            Token::Else,
            Token::While,
            Token::Return,
        ]
    );
    assert_eq!(
        ok("foo intx while_1"),
        vec![
            Token::Id { tok_lexeme: String::from("foo") },
            Token::Id { tok_lexeme: String::from("intx") },
            Token::Id { tok_lexeme: String::from("while_1") },
        ]
    );
}

#[test]
fn line_comments_are_skipped() {
    assert_eq!(ok("int // the rest is gone == ;\nfloat"), vec![Token::IntT, Token::FloatT]);
    assert_eq!(ok("int // a comment at the very end"), vec![Token::IntT]);
}

#[test]
fn unrecognized_symbol_fails_at_its_position() {
    let e = err("  @");
    assert_eq!(e.kind, LexErrorKind::UnrecognizedSymbol);
    assert_eq!(e.pos, 2);
}

#[test]
fn invalid_compound_operator_fails() {
    let e = err("+;");
    assert_eq!(e.kind, LexErrorKind::InvalidCompound);
    assert_eq!(e.pos, 0);
    assert_eq!(err("-)").kind, LexErrorKind::InvalidCompound);
    assert_eq!(err("*}").kind, LexErrorKind::InvalidCompound);
    assert_eq!(err("/!").kind, LexErrorKind::InvalidCompound);
}

#[test]
fn nothing_is_appended_on_error() {
    let code = String::from("int x @");
    let mut tokens: Vec<Token> = Vec::new();
    assert!(lex(&code, &mut tokens).is_err());
    assert!(tokens.is_empty());
}

#[test]
fn lexing_twice_yields_identical_token_sequences() {
    let src = "int add(int a, int b) { int c = a + b; return c; } // done";
    let first = ok(src);
    let second = ok(src);
    assert_eq!(first, second);
}

#[test]
fn round_trip_token_sequence() {
    let toks = ok("int add(int a, int b) { int c = a + b; return c; }");
    assert_eq!(
        toks,
        vec![
            Token::IntT,
            Token::Id { tok_lexeme: String::from("add") },
            Token::LP,
            Token::IntT,
            Token::Id { tok_lexeme: String::from("a") },
            Token::Comma,
            Token::IntT,
            Token::Id { tok_lexeme: String::from("b") },
            Token::RP,
            Token::LC,
            Token::IntT,
            Token::Id { tok_lexeme: String::from("c") },
            Token::Assignment,
            Token::Id { tok_lexeme: String::from("a") },
            Token::Plus,
            Token::Id { tok_lexeme: String::from("b") },
            Token::Semicolon,
            Token::Return,
            Token::Id { tok_lexeme: String::from("c") },
            Token::Semicolon,
            Token::RC,
        ]
    );
}
