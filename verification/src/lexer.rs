use vstd::prelude::*;

use crate::errors::TokenizerError;
use crate::tokens::{
    get_token_from_string, lexeme_result_ok, no_match_message, lexeme_supported, pattern_choice, table_pattern,
    token_denotes, try_token_from_string, PatternChoice, Token, PATTERN_COUNT, REGEX_TABLE,
};
use regex::Regex;

verus! {

/// What compiling `pattern` with the regex crate and listing the successive
/// non-overlapping matches in `haystack` gives: the text of each match, in order, or
/// `None` where the pattern does not compile.
pub uninterp spec fn regex_find_all(pattern: Seq<char>, haystack: Seq<char>) -> Option<
    Seq<Seq<char>>,
>;

/// Trusted: compiles `pattern` with `regex::Regex::new` and, where that succeeds, collects
/// the text of every match that `Regex::find_iter` yields on `haystack`. The contract
/// claims only that the outcome is a function of the two strings (named
/// [`regex_find_all`]); which matches the regex crate finds is left to it.
#[verifier::external_body]
fn regex_find_matches(pattern: &str, haystack: &str) -> (res: Option<Vec<String>>)
    ensures
        match res {
            None => regex_find_all(pattern@, haystack@) is None,
            Some(v) => regex_find_all(pattern@, haystack@) == Some(
                v@.map_values(|m: String| m@),
            ),
        },
{
    match Regex::new(pattern) {
        Ok(re) => Some(re.find_iter(haystack).map(|m| m.as_str().to_string()).collect()),
        Err(_) => None,
    }
}

/// The first `n` patterns of the table, joined by `|`.
pub open spec fn joined_patterns(n: nat) -> Seq<char>
    decreases n,
{
    if n == 0 {
        seq![]
    } else if n == 1 {
        table_pattern(0)
    } else {
        joined_patterns((n - 1) as nat) + "|"@ + table_pattern(n - 1)
    }
}

/// The pattern that finds every lexeme: all patterns of the table, in order, as
/// alternatives.
pub open spec fn lexeme_pattern() -> Seq<char> {
    joined_patterns(40)
}

/// How reading the lexemes `ms` from index `i` on ends.
pub enum ScanOutcome {
    /// Every lexeme reads as a token.
    Complete,
    /// A lexeme that no pattern matches is met first.
    Rejected,
    /// A lexeme on which reading stops the program is met first.
    Halted,
}

pub open spec fn scan_from(ms: Seq<Seq<char>>, i: int) -> ScanOutcome
    decreases ms.len() - i,
{
    if i >= ms.len() || i < 0 {
        ScanOutcome::Complete
    } else if !lexeme_supported(ms[i]) {
        ScanOutcome::Halted
    } else if pattern_choice(ms[i]) is NoPattern {
        ScanOutcome::Rejected
    } else {
        scan_from(ms, i + 1)
    }
}

/// The token `t` is the one read from the lexeme `s`.
pub open spec fn lexeme_token(s: Seq<char>, t: Token) -> bool {
    match pattern_choice(s) {
        PatternChoice::Pattern(i) => token_denotes(i, s, t),
        _ => false,
    }
}

/// Splits a source text into tokens.
pub struct Tokenizer {
    contents: String,
}

/// The lexemes of a source text, as the lexeme pattern finds them.
pub open spec fn lexemes(source: Seq<char>) -> Option<Seq<Seq<char>>> {
    regex_find_all(lexeme_pattern(), source)
}

/// The source texts that can be tokenized without stopping the program: the lexeme
/// pattern compiles and no lexeme on which reading stops the program comes before the
/// first rejected one.
pub open spec fn tokenizable(source: Seq<char>) -> bool {
    &&& lexemes(source) is Some
    &&& !(scan_from(lexemes(source)->0, 0) is Halted)
}

/// What reading the lexemes `ms` gives: an error exactly when a lexeme that no pattern
/// matches is met, and otherwise one token per lexeme, in order.
pub open spec fn lexemes_read(ms: Seq<Seq<char>>, res: Result<Vec<Token>, TokenizerError>) -> bool {
    &&& res is Err <==> scan_from(ms, 0) is Rejected
    &&& res matches Err(e) ==> e.0@ == no_match_message()
    &&& res matches Ok(v) ==> {
        &&& v@.len() == ms.len()
        &&& forall|i: int| 0 <= i < ms.len() ==> lexeme_token(ms[i], #[trigger] v@[i])
    }
}

/// What tokenizing `source` gives: its lexemes read as tokens.
pub open spec fn tokenize_result_ok(source: Seq<char>, res: Result<Vec<Token>, TokenizerError>) -> bool {
    lexemes_read(lexemes(source)->0, res)
}

/// The texts of a sequence of strings.
pub open spec fn texts(v: Seq<String>) -> Seq<Seq<char>> {
    v.map_values(|m: String| m@)
}

/// Reads each lexeme as a token with [`get_token_from_string`], in order; the first
/// error met is returned.
pub fn tokens_from_lexemes(ms: &Vec<String>) -> (res: Result<Vec<Token>, TokenizerError>)
    requires
        !(scan_from(texts(ms@), 0) is Halted),
    ensures
        lexemes_read(texts(ms@), res),
{
    let ghost msv = texts(ms@);
    let mut results: Vec<Token> = Vec::new();
    let mut i: usize = 0;
    while i < ms.len()
        invariant
            i <= ms.len(),
            msv == texts(ms@),
            scan_from(msv, i as int) == scan_from(msv, 0),
            !(scan_from(msv, 0) is Halted),
            results@.len() == i,
            forall|j: int| 0 <= j < i ==> lexeme_token(msv[j], #[trigger] results@[j]),
        decreases ms.len() - i,
    {
        let m = ms[i].as_str();
        assert(m@ == msv[i as int]);
        let tok = match get_token_from_string(m) {
            Ok(t) => t,
            Err(e) => {
                return Err(e);
            },
        };
        proof {
            lemma_scan_step(msv, i as int);
        }
        results.push(tok);
        i = i + 1;
    }
    Ok(results)
}

/// Builds the lexeme pattern.
fn lexeme_pattern_string() -> (res: String)
    ensures
        res@ == lexeme_pattern(),
{
    let mut res = String::new();
    res.append(REGEX_TABLE[0]);
    let mut i: usize = 1;
    while i < PATTERN_COUNT
        invariant
            1 <= i <= 40,
            PATTERN_COUNT == 40,
            res@ == joined_patterns(i as nat),
        decreases 40 - i,
    {
        res.append("|");
        res.append(REGEX_TABLE[i]);
        i = i + 1;
    }
    res
}

proof fn lemma_scan_step(ms: Seq<Seq<char>>, i: int)
    requires
        0 <= i < ms.len(),
        lexeme_supported(ms[i]),
        !(pattern_choice(ms[i]) is NoPattern),
    ensures
        scan_from(ms, i) == scan_from(ms, i + 1),
{
}

impl Tokenizer {
    /// A tokenizer for the given source text.
    pub fn new(contents: String) -> (res: Tokenizer)
        ensures
            res.source() == contents@,
    {
        Tokenizer { contents }
    }

    /// The source text.
    pub closed spec fn source(&self) -> Seq<char> {
        self.contents@
    }

    /// Splits the source text into tokens: every match of the lexeme pattern, in order,
    /// read by [`get_token_from_string`]; the first error met is returned.
    pub fn tokenize(&self) -> (res: Result<Vec<Token>, TokenizerError>)
        requires
            tokenizable(self.source()),
        ensures
            tokenize_result_ok(self.source(), res),
    {
        let pattern = lexeme_pattern_string();
        let found = regex_find_matches(pattern.as_str(), self.contents.as_str());
        let ms = match found {
            Some(m) => m,
            None => {
                assert(false);
                return Err(TokenizerError("the lexeme pattern does not compile".to_owned()));
            },
        };
        assert(texts(ms@) == lexemes(self.source())->0);
        tokens_from_lexemes(&ms)
    }

    /// Splits the source text into tokens where [`Tokenizer::tokenize`] can: `None`
    /// exactly when it would stop the program.
    pub fn try_tokenize(&self) -> (res: Option<Result<Vec<Token>, TokenizerError>>)
        ensures
            res is None <==> !tokenizable(self.source()),
            res matches Some(r) ==> tokenize_result_ok(self.source(), r),
    {
        let pattern = lexeme_pattern_string();
        let found = regex_find_matches(pattern.as_str(), self.contents.as_str());
        let ms = match found {
            Some(m) => m,
            None => {
                return None;
            },
        };
        let ghost msv = texts(ms@);
        let mut i: usize = 0;
        while i < ms.len()
            invariant
                i <= ms.len(),
                msv == texts(ms@),
                lexemes(self.source()) == Some(msv),
                scan_from(msv, i as int) == scan_from(msv, 0),
            decreases ms.len() - i,
        {
            let m = ms[i].as_str();
            assert(m@ == msv[i as int]);
            match try_token_from_string(m) {
                None => {
                    return None;
                },
                Some(Err(_)) => {
                    assert(scan_from(msv, i as int) is Rejected);
                    return Some(self.tokenize());
                },
                Some(Ok(_)) => {},
            }
            proof {
                lemma_scan_step(msv, i as int);
            }
            i = i + 1;
        }
        Some(self.tokenize())
    }
}

} // verus!
