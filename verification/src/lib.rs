pub mod ast;
pub mod errors;
pub mod tokens;
pub mod lexer;
pub mod parser;
pub mod codegen;
pub mod compile;
pub mod laws;
pub mod meaning;
