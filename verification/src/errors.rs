use vstd::prelude::*;

verus! {

/// An error of the lexer.
#[derive(Debug)]
pub struct LexerError(pub String);

/// An error met while turning the source text into tokens.
#[derive(Debug)]
pub struct TokenizerError(pub String);

/// An error met while turning tokens into a syntax tree.
#[derive(Debug)]
pub struct ParserError(pub String);

/// An error met while turning a syntax tree into assembly.
#[derive(Debug)]
pub struct GeneratorError(pub String);

impl LexerError {
    /// The message the error carries.
    pub fn message(&self) -> (res: String)
        ensures
            res@ == self.0@,
    {
        self.0.clone()
    }
}

impl TokenizerError {
    /// The message the error carries.
    pub fn message(&self) -> (res: String)
        ensures
            res@ == self.0@,
    {
        self.0.clone()
    }
}

impl ParserError {
    /// The message the error carries.
    pub fn message(&self) -> (res: String)
        ensures
            res@ == self.0@,
    {
        self.0.clone()
    }
}

impl GeneratorError {
    /// The message the error carries.
    pub fn message(&self) -> (res: String)
        ensures
            res@ == self.0@,
    {
        self.0.clone()
    }
}

} // verus!
