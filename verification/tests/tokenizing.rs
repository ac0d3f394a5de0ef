use compiler::errors::TokenizerError;
use compiler::lexer::Tokenizer;
use compiler::tokens::{decimal_string, get_token_from_string, parse_decimal, try_token_from_string, Token};

fn lex(source: &str) -> Option<Result<Vec<Token>, TokenizerError>> {
    Tokenizer::new(source.to_string()).try_tokenize()
}

#[test]
fn data_type_and_keyword() {
    assert_eq!(get_token_from_string("int").unwrap(), Token::DataType("int".to_string()));
    assert_eq!(get_token_from_string("return").unwrap(), Token::Keyword("return".to_string()));
}

#[test]
fn identifier_and_literal() {
    assert_eq!(get_token_from_string("main").unwrap(), Token::Identifier("main".to_string()));
    assert_eq!(get_token_from_string("42").unwrap(), Token::DecimalIntegerLiteral(42));
}

#[test]
fn first_pattern_found_anywhere_decides() {
    // "int" is searched for anywhere in the lexeme, before the identifier pattern.
    assert_eq!(get_token_from_string("printf").unwrap(), Token::DataType("printf".to_string()));
    assert_eq!(get_token_from_string("+=").unwrap(), Token::SumAssign);
    assert_eq!(get_token_from_string("<<").unwrap(), Token::LeftShift);
    assert_eq!(get_token_from_string("<=").unwrap(), Token::Le);
    assert_eq!(get_token_from_string("&&").unwrap(), Token::LogicalAnd);
    assert_eq!(get_token_from_string("=").unwrap(), Token::SimpleAssign);
}

#[test]
fn unmatched_lexeme_is_an_error() {
    assert!(get_token_from_string("@").is_err());
    assert!(matches!(try_token_from_string("@"), Some(Err(_))));
}

#[test]
fn literal_too_large_is_refused() {
    assert!(try_token_from_string("99999999999999999999999").is_none());
    assert_eq!(try_token_from_string("7").unwrap().unwrap(), Token::DecimalIntegerLiteral(7));
}

#[test]
fn parse_decimal_cases() {
    assert_eq!(parse_decimal("0"), Some(0));
    assert_eq!(parse_decimal("+5"), Some(5));
    assert_eq!(parse_decimal("007"), Some(7));
    assert_eq!(parse_decimal(""), None);
    assert_eq!(parse_decimal("+"), None);
    assert_eq!(parse_decimal("12a"), None);
    assert_eq!(parse_decimal("-1"), None);
    assert_eq!(parse_decimal(&usize::MAX.to_string()), Some(usize::MAX));
    assert_eq!(parse_decimal("99999999999999999999999"), None);
}

#[test]
fn decimal_string_cases() {
    assert_eq!(decimal_string(0), "0");
    assert_eq!(decimal_string(1234), "1234");
    assert_eq!(decimal_string(usize::MAX), usize::MAX.to_string());
}

#[test]
fn decimal_round_trip() {
    for n in [0usize, 9, 10, 99, 100, 65535, usize::MAX] {
        assert_eq!(parse_decimal(&decimal_string(n)), Some(n));
    }
}

#[test]
fn tokenize_small_program() {
    let tokens = lex("int main() {\n    return 2;\n}\n").unwrap().unwrap();
    assert_eq!(
        tokens,
        vec![
            Token::DataType("int".to_string()),
            Token::Identifier("main".to_string()),
            Token::LeftParen,
            Token::RightParen,
            Token::LeftBrace,
            Token::Keyword("return".to_string()),
            Token::DecimalIntegerLiteral(2),
            Token::Semicolon,
            Token::RightBrace,
        ]
    );
}

#[test]
fn tokenize_operators() {
    let tokens = lex("a += 1 << 2 != ~b || !c").unwrap().unwrap();
    assert_eq!(
        tokens,
        vec![
            Token::Identifier("a".to_string()),
            Token::SumAssign,
            Token::DecimalIntegerLiteral(1),
            Token::LeftShift,
            Token::DecimalIntegerLiteral(2),
            Token::Ne,
            Token::BitwiseComplement,
            Token::Identifier("b".to_string()),
            Token::LogicalOr,
            Token::LogicalNegation,
            Token::Identifier("c".to_string()),
        ]
    );
}

#[test]
fn tokenize_agrees_with_try_tokenize() {
    let source = "int f() { return 1 - -2; }".to_string();
    let t = Tokenizer::new(source.clone());
    assert_eq!(t.tokenize().unwrap(), t.try_tokenize().unwrap().unwrap());
}

#[test]
fn tokenize_skips_text_no_pattern_finds() {
    let tokens = lex("return @ 3").unwrap().unwrap();
    assert_eq!(
        tokens,
        vec![Token::Keyword("return".to_string()), Token::DecimalIntegerLiteral(3)]
    );
}

#[test]
fn tokenize_empty_source() {
    assert_eq!(lex("").unwrap().unwrap(), vec![]);
}

#[test]
fn tokenize_refuses_huge_literal() {
    assert!(lex("int main() { return 99999999999999999999999; }").is_none());
}

#[test]
fn token_clone_is_equal() {
    let t = Token::Identifier("x".to_string());
    assert_eq!(t.clone(), t);
}

#[test]
fn shift_assignment_reads_as_shift_then_assign() {
    // The `\<<=` and `\>>=` patterns start with a word-boundary assertion, so they never
    // match here; `<<` and `=` come out as two tokens.
    let tokens = lex("a <<= 2").unwrap().unwrap();
    assert_eq!(
        tokens,
        vec![
            Token::Identifier("a".to_string()),
            Token::LeftShift,
            Token::SimpleAssign,
            Token::DecimalIntegerLiteral(2),
        ]
    );
}
