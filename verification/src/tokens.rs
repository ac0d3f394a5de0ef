use vstd::prelude::*;

use crate::ast::{debug_string, string_debug_text, variant1};
use crate::errors::TokenizerError;
use regex::Regex;

verus! {

/// A token of the source language.
#[derive(Debug, PartialEq)]
pub enum Token {
    DataType(String),
    Keyword(String),
    LeftBrace,
    RightBrace,
    LeftParen,
    RightParen,
    Semicolon,
    Identifier(String),
    DecimalIntegerLiteral(usize),
    Plus,
    Minus,
    Times,
    Divide,
    Remainder,
    LeftShift,
    RightShift,
    Lt,
    Gt,
    Le,
    Ge,
    Eq,
    Ne,
    LogicalAnd,
    LogicalOr,
    BitwiseAnd,
    BitwiseExclusiveOr,
    BitwiseOr,
    BitwiseComplement,
    LogicalNegation,
    SimpleAssign,
    SumAssign,
    DiffAssign,
    ProdAssign,
    QuotAssign,
    RemAssign,
    LShAssign,
    RShAssign,
    AndAssign,
    XOrAssign,
    OrAssign,
}

pub const REGEX_TABLE: [&'static str; 40] = [
    r"int",
    r"return",
    r"\{",
    r"\}",
    r"\(",
    r"\)",
    r";",
    r"[a-zA-Z]\w*",
    r"[0-9]+",
    r"\+=",
    r"\-=",
    r"\*=",
    r"\/=",
    r"\%=",
    r"\<<=",
    r"\>>=",
    r"\&=",
    r"\^=",
    r"\|=",
    r"%",
    r"\+",
    r"-",
    r"\*",
    r"/",
    r"<<",
    r">>",
    r"<=",
    r">=",
    r"<",
    r">",
    r"==",
    r"!=",
    r"&&",
    r"\|\|",
    r"&",
    r"\^",
    r"\|",
    r"~",
    r"!",
    r"=",
];

/// The number of patterns in [`REGEX_TABLE`].
pub const PATTERN_COUNT: usize = 40;

/// The pattern at index `i` of [`REGEX_TABLE`].
pub open spec fn table_pattern(i: int) -> Seq<char> {
    REGEX_TABLE@[i]@
}

/// What compiling `pattern` with the regex crate and searching `haystack` for a match
/// of it, anywhere in it, gives: `None` where the pattern does not compile.
pub uninterp spec fn regex_search(pattern: Seq<char>, haystack: Seq<char>) -> Option<bool>;

/// Trusted: compiles `pattern` with `regex::Regex::new` and, where that succeeds, asks
/// `Regex::is_match` whether `haystack` holds a match of it. The contract claims only
/// that the outcome is a function of the two strings (named [`regex_search`]); what
/// regex syntax and matching mean is left to the regex crate.
#[verifier::external_body]
fn regex_is_match(pattern: &str, haystack: &str) -> (res: Option<bool>)
    ensures
        res == regex_search(pattern@, haystack@),
{
    match Regex::new(pattern) {
        Ok(re) => Some(re.is_match(haystack)),
        Err(_) => None,
    }
}

/// Which pattern of the table decides the token for a lexeme.
pub enum PatternChoice {
    /// The first pattern, in table order, that matches somewhere in the lexeme.
    Pattern(nat),
    /// No pattern of the table matches anywhere in the lexeme.
    NoPattern,
    /// A pattern of the table, met before any that matches, does not compile.
    BadPattern,
}

/// The choice made by trying the patterns of the table from index `i` on.
pub open spec fn pattern_choice_from(s: Seq<char>, i: nat) -> PatternChoice
    decreases 40 - i,
{
    if i >= 40 {
        PatternChoice::NoPattern
    } else {
        match regex_search(table_pattern(i as int), s) {
            None => PatternChoice::BadPattern,
            Some(true) => PatternChoice::Pattern(i),
            Some(false) => pattern_choice_from(s, i + 1),
        }
    }
}

/// The pattern of the table that decides the token for the lexeme `s`.
pub open spec fn pattern_choice(s: Seq<char>) -> PatternChoice {
    pattern_choice_from(s, 0)
}

pub open spec fn is_digit(c: char) -> bool {
    '0' <= c <= '9'
}

/// The number that a sequence of decimal digits writes.
pub open spec fn digits_value(d: Seq<char>) -> nat
    decreases d.len(),
{
    if d.len() == 0 {
        0
    } else {
        digits_value(d.drop_last()) * 10 + (d.last() as int - '0' as int) as nat
    }
}

/// The text with one leading `+` removed, if it has one.
pub open spec fn without_plus(s: Seq<char>) -> Seq<char> {
    if s.len() > 0 && s[0] == '+' {
        s.drop_first()
    } else {
        s
    }
}

/// What reading `s` as a `usize` gives (as `str::parse::<usize>` documents it): an
/// optional `+` followed by at least one decimal digit and nothing else, of a value
/// that fits.
pub open spec fn decimal_usize(s: Seq<char>) -> Option<usize> {
    let d = without_plus(s);
    if d.len() > 0 && (forall|i: int| 0 <= i < d.len() ==> is_digit(#[trigger] d[i]))
        && digits_value(d) <= usize::MAX {
        Some(digits_value(d) as usize)
    } else {
        None
    }
}

/// The decimal digit for `d` (taken modulo ten).
pub open spec fn digit_char(d: nat) -> char {
    let d = d % 10;
    if d == 0 { '0' } else if d == 1 { '1' } else if d == 2 { '2' } else if d == 3 { '3' }
    else if d == 4 { '4' } else if d == 5 { '5' } else if d == 6 { '6' } else if d == 7 { '7' }
    else if d == 8 { '8' } else { '9' }
}

/// The decimal text of `n`, with no sign and no leading zeros, as `usize::to_string`
/// writes it.
pub open spec fn decimal_text(n: nat) -> Seq<char>
    decreases n,
{
    if n < 10 {
        seq![digit_char(n)]
    } else {
        decimal_text(n / 10).push(digit_char(n % 10))
    }
}

fn digit_str(d: usize) -> (res: &'static str)
    requires
        d < 10,
    ensures
        res@ == seq![digit_char(d as nat)],
{
    proof {
        reveal_strlit("0");
        reveal_strlit("1");
        reveal_strlit("2");
        reveal_strlit("3");
        reveal_strlit("4");
        reveal_strlit("5");
        reveal_strlit("6");
        reveal_strlit("7");
        reveal_strlit("8");
        reveal_strlit("9");
    }
    match d {
        0 => "0",
        1 => "1",
        2 => "2",
        3 => "3",
        4 => "4",
        5 => "5",
        6 => "6",
        7 => "7",
        8 => "8",
        _ => "9",
    }
}

fn push_decimal(s: &mut String, n: usize)
    ensures
        final(s)@ == old(s)@ + decimal_text(n as nat),
    decreases n,
{
    if n >= 10 {
        push_decimal(s, n / 10);
    }
    s.append(digit_str(n % 10));
    proof {
        if n >= 10 {
            assert(decimal_text(n as nat) == decimal_text((n / 10) as nat).push(digit_char((n % 10) as nat)));
        }
    }
}

/// The decimal text of `n`.
pub fn decimal_string(n: usize) -> (res: String)
    ensures
        res@ == decimal_text(n as nat),
{
    let mut s = String::new();
    push_decimal(&mut s, n);
    s
}

/// The token for a lexeme `s` decided by pattern `i` of the table.
pub open spec fn token_denotes(i: nat, s: Seq<char>, t: Token) -> bool {
    match t {
        Token::DataType(d) => i == 0 && d@ == s,
        Token::Keyword(k) => i == 1 && k@ == s,
        Token::LeftBrace => i == 2,
        Token::RightBrace => i == 3,
        Token::LeftParen => i == 4,
        Token::RightParen => i == 5,
        Token::Semicolon => i == 6,
        Token::Identifier(x) => i == 7 && x@ == s,
        Token::DecimalIntegerLiteral(n) => i == 8 && decimal_usize(s) == Some(n),
        Token::SumAssign => i == 9,
        Token::DiffAssign => i == 10,
        Token::ProdAssign => i == 11,
        Token::QuotAssign => i == 12,
        Token::RemAssign => i == 13,
        Token::LShAssign => i == 14,
        Token::RShAssign => i == 15,
        Token::AndAssign => i == 16,
        Token::XOrAssign => i == 17,
        Token::OrAssign => i == 18,
        Token::Remainder => i == 19,
        Token::Plus => i == 20,
        Token::Minus => i == 21,
        Token::Times => i == 22,
        Token::Divide => i == 23,
        Token::LeftShift => i == 24,
        Token::RightShift => i == 25,
        Token::Le => i == 26,
        Token::Ge => i == 27,
        Token::Lt => i == 28,
        Token::Gt => i == 29,
        Token::Eq => i == 30,
        Token::Ne => i == 31,
        Token::LogicalAnd => i == 32,
        Token::LogicalOr => i == 33,
        Token::BitwiseAnd => i == 34,
        Token::BitwiseExclusiveOr => i == 35,
        Token::BitwiseOr => i == 36,
        Token::BitwiseComplement => i == 37,
        Token::LogicalNegation => i == 38,
        Token::SimpleAssign => i == 39,
    }
}

/// The lexemes on which reading a token does not stop the program: every pattern tried
/// compiles, and a lexeme decided by the integer pattern reads as a `usize`.
pub open spec fn lexeme_supported(s: Seq<char>) -> bool {
    match pattern_choice(s) {
        PatternChoice::BadPattern => false,
        PatternChoice::Pattern(i) => i == 8 ==> decimal_usize(s) is Some,
        PatternChoice::NoPattern => true,
    }
}

/// What reading the lexeme `s` gives: the token decided by the first pattern that
/// matches, or an error where none does.
pub open spec fn lexeme_result_ok(s: Seq<char>, res: Result<Token, TokenizerError>) -> bool {
    match pattern_choice(s) {
        PatternChoice::Pattern(i) => res matches Ok(t) && token_denotes(i, s, t),
        PatternChoice::NoPattern => res matches Err(e) && e.0@ == no_match_message(),
        PatternChoice::BadPattern => res is Err,
    }
}

/// The message of the error for a lexeme that no pattern matches.
pub open spec fn no_match_message() -> Seq<char> {
    "string does not match any regex in REGEX_TABLE"@
}

proof fn lemma_digits_value_prefix(d: Seq<char>, j: int)
    requires
        0 <= j <= d.len(),
    ensures
        digits_value(d.take(j)) <= digits_value(d),
    decreases d.len(),
{
    if j < d.len() {
        lemma_digits_value_prefix(d.drop_last(), j);
        assert(d.drop_last().take(j) =~= d.take(j));
    } else {
        assert(d.take(j) =~= d);
    }
}

/// Reads `s` as a `usize` the way `str::parse::<usize>` does.
pub fn parse_decimal(s: &str) -> (res: Option<usize>)
    ensures
        res == decimal_usize(s@),
{
    let len = s.unicode_len();
    let mut i: usize = 0;
    if len > 0 && s.get_char(0) == '+' {
        i = 1;
    }
    let start = i;
    let ghost d = without_plus(s@);
    assert(d =~= s@.skip(start as int));
    if i >= len {
        return None;
    }
    let mut value: usize = 0;
    while i < len
        invariant
            start <= i <= len,
            len == s@.len(),
            d =~= s@.skip(start as int),
            d == without_plus(s@),
            forall|k: int| 0 <= k < i - start ==> is_digit(#[trigger] d[k]),
            value == digits_value(d.take(i - start)),
        decreases len - i,
    {
        let c = s.get_char(i);
        assert(c == d[i - start]);
        if !('0' <= c && c <= '9') {
            assert(!is_digit(d[i - start]));
            return None;
        }
        let digit = (c as u32 - '0' as u32) as usize;
        assert(d.take(i - start + 1).drop_last() =~= d.take(i - start));
        let next = match value.checked_mul(10) {
            Some(v) => v.checked_add(digit),
            None => None,
        };
        match next {
            Some(v) => {
                value = v;
            },
            None => {
                proof {
                    lemma_digits_value_prefix(d, i - start + 1);
                    assert(d.take(i - start + 1).last() == c);
                    assert(digits_value(d.take(i - start + 1)) == value * 10 + digit);
                }
                return None;
            },
        }
        i = i + 1;
    }
    assert(d.take(i - start) =~= d);
    Some(value)
}

/// The token that pattern `i` of the table decides for the lexeme `s`: the text of a
/// data type, keyword or identifier is kept, and an integer literal is read as a
/// `usize`.
pub fn token_for_pattern(i: usize, s: &str) -> (res: Token)
    requires
        i < 40,
        i == 8 ==> decimal_usize(s@) is Some,
    ensures
        token_denotes(i as nat, s@, res),
{
    match i {
        0 => Token::DataType(s.to_owned()),
        1 => Token::Keyword(s.to_owned()),
        2 => Token::LeftBrace,
        3 => Token::RightBrace,
        4 => Token::LeftParen,
        5 => Token::RightParen,
        6 => Token::Semicolon,
        7 => Token::Identifier(s.to_owned()),
        8 => match parse_decimal(s) {
            Some(n) => Token::DecimalIntegerLiteral(n),
            None => {
                assert(false);
                Token::Semicolon
            },
        },
        9 => Token::SumAssign,
        10 => Token::DiffAssign,
        11 => Token::ProdAssign,
        12 => Token::QuotAssign,
        13 => Token::RemAssign,
        14 => Token::LShAssign,
        15 => Token::RShAssign,
        16 => Token::AndAssign,
        17 => Token::XOrAssign,
        18 => Token::OrAssign,
        19 => Token::Remainder,
        20 => Token::Plus,
        21 => Token::Minus,
        22 => Token::Times,
        23 => Token::Divide,
        24 => Token::LeftShift,
        25 => Token::RightShift,
        26 => Token::Le,
        27 => Token::Ge,
        28 => Token::Lt,
        29 => Token::Gt,
        30 => Token::Eq,
        31 => Token::Ne,
        32 => Token::LogicalAnd,
        33 => Token::LogicalOr,
        34 => Token::BitwiseAnd,
        35 => Token::BitwiseExclusiveOr,
        36 => Token::BitwiseOr,
        37 => Token::BitwiseComplement,
        38 => Token::LogicalNegation,
        _ => Token::SimpleAssign,
    }
}

/// Reads one lexeme as a token: the patterns of [`REGEX_TABLE`] are tried in order, each
/// searched for anywhere in `s`, and the first that matches decides the token. The text
/// of a data type, keyword or identifier is kept, and an integer literal is read as a
/// `usize`. It is an error when no pattern matches.
pub fn get_token_from_string(s: &str) -> (res: Result<Token, TokenizerError>)
    requires
        lexeme_supported(s@),
    ensures
        lexeme_result_ok(s@, res),
{
    let mut i: usize = 0;
    while i < PATTERN_COUNT
        invariant
            i <= 40,
            PATTERN_COUNT == 40,
            pattern_choice_from(s@, i as nat) == pattern_choice(s@),
            lexeme_supported(s@),
        decreases 40 - i,
    {
        let re = REGEX_TABLE[i];
        match regex_is_match(re, s) {
            Some(true) => {
                return Ok(token_for_pattern(i, s));
            },
            Some(false) => {},
            None => {
                assert(false);
            },
        }
        i = i + 1;
    }
    Err(TokenizerError("string does not match any regex in REGEX_TABLE".to_owned()))
}

/// Reads one lexeme as a token where [`get_token_from_string`] can: `None` exactly on
/// the lexemes on which it would stop the program (a pattern that does not compile, or
/// an integer literal that does not fit a `usize`).
pub fn try_token_from_string(s: &str) -> (res: Option<Result<Token, TokenizerError>>)
    ensures
        res is None <==> !lexeme_supported(s@),
        res matches Some(r) ==> lexeme_result_ok(s@, r),
{
    let mut i: usize = 0;
    while i < PATTERN_COUNT
        invariant
            i <= 40,
            PATTERN_COUNT == 40,
            pattern_choice_from(s@, i as nat) == pattern_choice(s@),
        decreases 40 - i,
    {
        let re = REGEX_TABLE[i];
        match regex_is_match(re, s) {
            Some(true) => {
                if i == 8 && parse_decimal(s).is_none() {
                    return None;
                }
                return Some(get_token_from_string(s));
            },
            Some(false) => {},
            None => {
                return None;
            },
        }
        i = i + 1;
    }
    Some(get_token_from_string(s))
}

/// Two tokens are the same token: the same kind, with the same text or value.
pub open spec fn same_token(a: Token, b: Token) -> bool {
    match (a, b) {
        (Token::DataType(x), Token::DataType(y)) => x@ == y@,
        (Token::Keyword(x), Token::Keyword(y)) => x@ == y@,
        (Token::Identifier(x), Token::Identifier(y)) => x@ == y@,
        (Token::DecimalIntegerLiteral(x), Token::DecimalIntegerLiteral(y)) => x == y,
        _ => a == b,
    }
}

/// Whether `a` and `b` are the same token: the same kind, with the same text or value.
pub fn tokens_equal(a: &Token, b: &Token) -> (res: bool)
    ensures
        res == same_token(*a, *b),
{
    match (a, b) {
        (Token::DataType(x), Token::DataType(y)) => *x == *y,
        (Token::Keyword(x), Token::Keyword(y)) => *x == *y,
        (Token::Identifier(x), Token::Identifier(y)) => *x == *y,
        (Token::DecimalIntegerLiteral(x), Token::DecimalIntegerLiteral(y)) => *x == *y,
        (Token::LeftBrace, Token::LeftBrace) => true,
        (Token::RightBrace, Token::RightBrace) => true,
        (Token::LeftParen, Token::LeftParen) => true,
        (Token::RightParen, Token::RightParen) => true,
        (Token::Semicolon, Token::Semicolon) => true,
        (Token::Plus, Token::Plus) => true,
        (Token::Minus, Token::Minus) => true,
        (Token::Times, Token::Times) => true,
        (Token::Divide, Token::Divide) => true,
        (Token::Remainder, Token::Remainder) => true,
        (Token::LeftShift, Token::LeftShift) => true,
        (Token::RightShift, Token::RightShift) => true,
        (Token::Lt, Token::Lt) => true,
        (Token::Gt, Token::Gt) => true,
        (Token::Le, Token::Le) => true,
        (Token::Ge, Token::Ge) => true,
        (Token::Eq, Token::Eq) => true,
        (Token::Ne, Token::Ne) => true,
        (Token::LogicalAnd, Token::LogicalAnd) => true,
        (Token::LogicalOr, Token::LogicalOr) => true,
        (Token::BitwiseAnd, Token::BitwiseAnd) => true,
        (Token::BitwiseExclusiveOr, Token::BitwiseExclusiveOr) => true,
        (Token::BitwiseOr, Token::BitwiseOr) => true,
        (Token::BitwiseComplement, Token::BitwiseComplement) => true,
        (Token::LogicalNegation, Token::LogicalNegation) => true,
        (Token::SimpleAssign, Token::SimpleAssign) => true,
        (Token::SumAssign, Token::SumAssign) => true,
        (Token::DiffAssign, Token::DiffAssign) => true,
        (Token::ProdAssign, Token::ProdAssign) => true,
        (Token::QuotAssign, Token::QuotAssign) => true,
        (Token::RemAssign, Token::RemAssign) => true,
        (Token::LShAssign, Token::LShAssign) => true,
        (Token::RShAssign, Token::RShAssign) => true,
        (Token::AndAssign, Token::AndAssign) => true,
        (Token::XOrAssign, Token::XOrAssign) => true,
        (Token::OrAssign, Token::OrAssign) => true,
        _ => false,
    }
}

/// What `{:?}` writes for a token: the variant's name, then its text or value in
/// parentheses.
pub open spec fn token_debug_text(t: Token) -> Seq<char> {
    match t {
        Token::DataType(s) => variant1("DataType"@, string_debug_text(s@)),
        Token::Keyword(s) => variant1("Keyword"@, string_debug_text(s@)),
        Token::Identifier(s) => variant1("Identifier"@, string_debug_text(s@)),
        Token::DecimalIntegerLiteral(n) => variant1("DecimalIntegerLiteral"@, decimal_text(n as nat)),
        Token::LeftBrace => "LeftBrace"@,
        Token::RightBrace => "RightBrace"@,
        Token::LeftParen => "LeftParen"@,
        Token::RightParen => "RightParen"@,
        Token::Semicolon => "Semicolon"@,
        Token::Plus => "Plus"@,
        Token::Minus => "Minus"@,
        Token::Times => "Times"@,
        Token::Divide => "Divide"@,
        Token::Remainder => "Remainder"@,
        Token::LeftShift => "LeftShift"@,
        Token::RightShift => "RightShift"@,
        Token::Lt => "Lt"@,
        Token::Gt => "Gt"@,
        Token::Le => "Le"@,
        Token::Ge => "Ge"@,
        Token::Eq => "Eq"@,
        Token::Ne => "Ne"@,
        Token::LogicalAnd => "LogicalAnd"@,
        Token::LogicalOr => "LogicalOr"@,
        Token::BitwiseAnd => "BitwiseAnd"@,
        Token::BitwiseExclusiveOr => "BitwiseExclusiveOr"@,
        Token::BitwiseOr => "BitwiseOr"@,
        Token::BitwiseComplement => "BitwiseComplement"@,
        Token::LogicalNegation => "LogicalNegation"@,
        Token::SimpleAssign => "SimpleAssign"@,
        Token::SumAssign => "SumAssign"@,
        Token::DiffAssign => "DiffAssign"@,
        Token::ProdAssign => "ProdAssign"@,
        Token::QuotAssign => "QuotAssign"@,
        Token::RemAssign => "RemAssign"@,
        Token::LShAssign => "LShAssign"@,
        Token::RShAssign => "RShAssign"@,
        Token::AndAssign => "AndAssign"@,
        Token::XOrAssign => "XOrAssign"@,
        Token::OrAssign => "OrAssign"@,
    }
}

/// What `{:?}` writes for an optional token.
pub open spec fn optional_token_debug_text(t: Option<Token>) -> Seq<char> {
    match t {
        None => "None"@,
        Some(t) => variant1("Some"@, token_debug_text(t)),
    }
}

fn wrapped(name: &str, field: String) -> (res: String)
    ensures
        res@ == variant1(name@, field@),
{
    let mut s = name.to_owned();
    s.append("(");
    s.append(field.as_str());
    s.append(")");
    s
}

/// The text `{:?}` writes for a token.
pub fn token_text(t: &Token) -> (res: String)
    ensures
        res@ == token_debug_text(*t),
{
    match t {
        Token::DataType(s) => wrapped("DataType", debug_string(s)),
        Token::Keyword(s) => wrapped("Keyword", debug_string(s)),
        Token::Identifier(s) => wrapped("Identifier", debug_string(s)),
        Token::DecimalIntegerLiteral(n) => wrapped("DecimalIntegerLiteral", decimal_string(*n)),
        Token::LeftBrace => "LeftBrace".to_owned(),
        Token::RightBrace => "RightBrace".to_owned(),
        Token::LeftParen => "LeftParen".to_owned(),
        Token::RightParen => "RightParen".to_owned(),
        Token::Semicolon => "Semicolon".to_owned(),
        Token::Plus => "Plus".to_owned(),
        Token::Minus => "Minus".to_owned(),
        Token::Times => "Times".to_owned(),
        Token::Divide => "Divide".to_owned(),
        Token::Remainder => "Remainder".to_owned(),
        Token::LeftShift => "LeftShift".to_owned(),
        Token::RightShift => "RightShift".to_owned(),
        Token::Lt => "Lt".to_owned(),
        Token::Gt => "Gt".to_owned(),
        Token::Le => "Le".to_owned(),
        Token::Ge => "Ge".to_owned(),
        Token::Eq => "Eq".to_owned(),
        Token::Ne => "Ne".to_owned(),
        Token::LogicalAnd => "LogicalAnd".to_owned(),
        Token::LogicalOr => "LogicalOr".to_owned(),
        Token::BitwiseAnd => "BitwiseAnd".to_owned(),
        Token::BitwiseExclusiveOr => "BitwiseExclusiveOr".to_owned(),
        Token::BitwiseOr => "BitwiseOr".to_owned(),
        Token::BitwiseComplement => "BitwiseComplement".to_owned(),
        Token::LogicalNegation => "LogicalNegation".to_owned(),
        Token::SimpleAssign => "SimpleAssign".to_owned(),
        Token::SumAssign => "SumAssign".to_owned(),
        Token::DiffAssign => "DiffAssign".to_owned(),
        Token::ProdAssign => "ProdAssign".to_owned(),
        Token::QuotAssign => "QuotAssign".to_owned(),
        Token::RemAssign => "RemAssign".to_owned(),
        Token::LShAssign => "LShAssign".to_owned(),
        Token::RShAssign => "RShAssign".to_owned(),
        Token::AndAssign => "AndAssign".to_owned(),
        Token::XOrAssign => "XOrAssign".to_owned(),
        Token::OrAssign => "OrAssign".to_owned(),
    }
}

/// The text `{:?}` writes for an optional token.
pub fn optional_token_text(t: Option<&Token>) -> (res: String)
    ensures
        res@ == optional_token_debug_text(
            match t {
                None => None,
                Some(x) => Some(*x),
            },
        ),
{
    match t {
        None => "None".to_owned(),
        Some(x) => wrapped("Some", token_text(x)),
    }
}

impl Clone for Token {
    fn clone(&self) -> (res: Self)
        ensures
            res == *self,
    {
        match self {
            Token::DataType(d) => Token::DataType(d.clone()),
            Token::Keyword(k) => Token::Keyword(k.clone()),
            Token::LeftBrace => Token::LeftBrace,
            Token::RightBrace => Token::RightBrace,
            Token::LeftParen => Token::LeftParen,
            Token::RightParen => Token::RightParen,
            Token::Semicolon => Token::Semicolon,
            Token::Identifier(x) => Token::Identifier(x.clone()),
            Token::DecimalIntegerLiteral(n) => Token::DecimalIntegerLiteral(*n),
            Token::Plus => Token::Plus,
            Token::Minus => Token::Minus,
            Token::Times => Token::Times,
            Token::Divide => Token::Divide,
            Token::Remainder => Token::Remainder,
            Token::LeftShift => Token::LeftShift,
            Token::RightShift => Token::RightShift,
            Token::Lt => Token::Lt,
            Token::Gt => Token::Gt,
            Token::Le => Token::Le,
            Token::Ge => Token::Ge,
            Token::Eq => Token::Eq,
            Token::Ne => Token::Ne,
            Token::LogicalAnd => Token::LogicalAnd,
            Token::LogicalOr => Token::LogicalOr,
            Token::BitwiseAnd => Token::BitwiseAnd,
            Token::BitwiseExclusiveOr => Token::BitwiseExclusiveOr,
            Token::BitwiseOr => Token::BitwiseOr,
            Token::BitwiseComplement => Token::BitwiseComplement,
            Token::LogicalNegation => Token::LogicalNegation,
            Token::SimpleAssign => Token::SimpleAssign,
            Token::SumAssign => Token::SumAssign,
            Token::DiffAssign => Token::DiffAssign,
            Token::ProdAssign => Token::ProdAssign,
            Token::QuotAssign => Token::QuotAssign,
            Token::RemAssign => Token::RemAssign,
            Token::LShAssign => Token::LShAssign,
            Token::RShAssign => Token::RShAssign,
            Token::AndAssign => Token::AndAssign,
            Token::XOrAssign => Token::XOrAssign,
            Token::OrAssign => Token::OrAssign,
        }
    }
}

} // verus!
