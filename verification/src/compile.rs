use vstd::prelude::*;

use crate::ast::subtrees_of;
use crate::codegen::{program_text, Generator};
use crate::laws::{function_headers, law_parsed_programs_generate};
use crate::errors::{GeneratorError, ParserError, TokenizerError};
use crate::lexer::{lexemes, scan_from, tokenizable, tokenize_result_ok, ScanOutcome, Tokenizer};
use crate::parser::{spec_program, Parser};
use crate::tokens::Token;

verus! {

/// The index of the last `.` among the first `n` characters of `name`.
pub open spec fn last_dot_before(name: Seq<char>, n: int) -> Option<int>
    decreases n,
{
    if n <= 0 {
        None
    } else if name[n - 1] == '.' {
        Some(n - 1)
    } else {
        last_dot_before(name, n - 1)
    }
}

/// A file name without its extension: the text before its last `.`, or `None` where it
/// has no `.`.
pub open spec fn stem_of(name: Seq<char>) -> Option<Seq<char>> {
    match last_dot_before(name, name.len() as int) {
        Some(i) => Some(name.take(i)),
        None => None,
    }
}

/// The name of the file that holds the assembly or the program for a source file named
/// `filename`: the text before its last `.`; `None` where it has no `.`.
pub fn file_stem(filename: &str) -> (res: Option<String>)
    ensures
        match res {
            Some(s) => stem_of(filename@) == Some(s@),
            None => stem_of(filename@) is None,
        },
{
    let n = filename.unicode_len();
    let mut k: usize = n;
    while k > 0
        invariant
            k <= n,
            n == filename@.len(),
            last_dot_before(filename@, n as int) == last_dot_before(filename@, k as int),
        decreases k,
    {
        if filename.get_char(k - 1) == '.' {
            let stem = filename.substring_char(0, k - 1);
            return Some(stem.to_owned());
        }
        k = k - 1;
    }
    None
}

/// An error met while compiling a source text.
#[derive(Debug)]
pub enum CompileError {
    Tokenize(TokenizerError),
    Parse(ParserError),
    Generate(GeneratorError),
}

/// What compiling the tokens `ts` gives: a parse error where they do not form a program,
/// and otherwise its assembly, which is the global label of each of its functions, in
/// order (the generator passes over the statements that the parser makes).
pub open spec fn compiled(ts: Seq<Token>, res: Result<String, CompileError>) -> bool {
    match spec_program(ts, 0).0 {
        Err(m) => res matches Err(CompileError::Parse(e)) && e.0@ == m,
        Ok(tree) => res matches Ok(s) && s@ == function_headers(
            subtrees_of(tree),
            subtrees_of(tree).len() as int,
        ),
    }
}

/// Compiles tokens: parses them into a program and generates its assembly.
pub fn compile_tokens(tokens: Vec<Token>) -> (res: Result<String, CompileError>)
    ensures
        compiled(tokens@, res),
{
    let ghost ts = tokens@;
    let mut parser = Parser::new(tokens);
    let tree = match parser.parse() {
        Ok(t) => t,
        Err(e) => {
            return Err(CompileError::Parse(e));
        },
    };
    let ghost tv = tree@;
    let mut generator = Generator::new(tree);
    let ghost g0 = generator;
    let r = generator.generate();
    proof {
        let ls = generator.labels_drawn();
        assert(ls.skip(0) =~= ls);
        law_parsed_programs_generate(ts, ls);
        assert(g0.asm_text() + program_text(tv, ls) =~= program_text(tv, ls));
    }
    match r {
        Ok(s) => Ok(s),
        Err(e) => Err(CompileError::Generate(e)),
    }
}

/// Compiles a source text into assembly: tokenizes it, parses the tokens into a program
/// and generates its assembly. `None` exactly where tokenizing would stop the program.
pub fn compile_source(contents: String) -> (res: Option<Result<String, CompileError>>)
    ensures
        res is None <==> !tokenizable(contents@),
        res matches Some(r) ==> {
            &&& (r matches Err(CompileError::Tokenize(_))) <==> scan_from(
                lexemes(contents@)->0,
                0,
            ) is Rejected
            &&& !(scan_from(lexemes(contents@)->0, 0) is Rejected) ==> exists|ts: Vec<Token>|
                tokenize_result_ok(contents@, Ok(ts)) && #[trigger] compiled(ts@, r)
        },
{
    let tokenizer = Tokenizer::new(contents);
    let tokens = match tokenizer.try_tokenize() {
        None => {
            return None;
        },
        Some(Err(e)) => {
            return Some(Err(CompileError::Tokenize(e)));
        },
        Some(Ok(ts)) => ts,
    };
    let ghost tv = tokens;
    let r = compile_tokens(tokens);
    assert(tokenize_result_ok(tokenizer.source(), Ok(tv)) && compiled(tv@, r));
    Some(r)
}

} // verus!
