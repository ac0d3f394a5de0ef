use compiler::ast::{ASTNode, ASTNodeKind};
use compiler::compile::{compile_source, compile_tokens, file_stem, CompileError};
use compiler::errors::{GeneratorError, LexerError, ParserError, TokenizerError};
use compiler::lexer::Tokenizer;
use compiler::parser::Parser;

#[test]
fn stem_drops_the_last_extension() {
    assert_eq!(file_stem("prog.c"), Some("prog".to_string()));
    assert_eq!(file_stem("./tests/a.b.c"), Some("./tests/a.b".to_string()));
    assert_eq!(file_stem(".c"), Some("".to_string()));
    assert_eq!(file_stem("prog."), Some("prog".to_string()));
}

#[test]
fn stem_needs_a_dot() {
    assert_eq!(file_stem("prog"), None);
    assert_eq!(file_stem(""), None);
}

#[test]
fn compile_small_program() {
    let out = compile_source("int main() {\n    return 2;\n}\n".to_string()).unwrap().unwrap();
    assert_eq!(out, ".globl _main\n_main:\n");
}

#[test]
fn compile_two_functions() {
    let out = compile_source("int a() { return 1 && 2; } int b() { int x = 3; x += 1; return x; }".to_string())
        .unwrap()
        .unwrap();
    assert_eq!(out, ".globl _a\n_a:\n.globl _b\n_b:\n");
}

#[test]
fn compile_reports_parse_errors() {
    let r = compile_source("int main() { return 2 }".to_string()).unwrap();
    assert!(matches!(r, Err(CompileError::Parse(_))));
}

#[test]
fn compile_refuses_huge_literal() {
    assert!(compile_source("int main() { return 99999999999999999999999; }".to_string()).is_none());
}

#[test]
fn compile_empty_source() {
    assert_eq!(compile_source(String::new()).unwrap().unwrap(), "");
}

#[test]
fn compile_tokens_matches_the_stages() {
    let source = "int main() { return -(1 + 2) * 3; }".to_string();
    let tokens = Tokenizer::new(source.clone()).tokenize().unwrap();
    let mut p = Parser::new(tokens.clone());
    let tree = p.parse().unwrap();
    let mut g = compiler::codegen::Generator::new(tree);
    let expected = g.generate().unwrap();
    assert_eq!(compile_tokens(tokens).unwrap(), expected);
}

#[test]
fn every_parsed_program_generates_its_headers() {
    for source in [
        "int main() { return 1 || 0; }",
        "int f() { int a = 1; a += 2; return ~a; } int g() { }",
        "",
    ] {
        let tokens = Tokenizer::new(source.to_string()).tokenize().unwrap();
        let tree = Parser::new(tokens).parse().unwrap();
        let mut headers = String::new();
        for f in tree.get_subtrees() {
            if let ASTNodeKind::FunctionDeclaration(_, id) = f.get_kind() {
                headers.push_str(&format!(".globl _{}\n_{}:\n", id, id));
            }
        }
        let mut g = compiler::codegen::Generator::new(tree);
        assert_eq!(g.generate().unwrap(), headers);
    }
}

#[test]
fn push_child_appends() {
    let mut n = ASTNode::new(ASTNodeKind::Program, None);
    assert!(n.get_subtrees().is_empty());
    n.push_child(ASTNode::new(ASTNodeKind::Return, None));
    n.push_child(ASTNode::new(ASTNodeKind::PrimaryExp, None));
    let cs = n.get_subtrees();
    assert_eq!(cs.len(), 2);
    assert_eq!(*cs[0].get_kind(), ASTNodeKind::Return);
    assert_eq!(*cs[1].get_kind(), ASTNodeKind::PrimaryExp);
    assert_eq!(*n.get_kind(), ASTNodeKind::Program);
}

#[test]
fn new_with_content_copies_children() {
    let n = ASTNode::new(
        ASTNodeKind::AddSubOp('+'),
        Some(vec![ASTNode::new(ASTNodeKind::Constant("1".to_string()), None)]),
    );
    assert_eq!(n.get_subtrees().len(), 1);
    assert_eq!(*n.get_subtrees()[0].get_kind(), ASTNodeKind::Constant("1".to_string()));
    let c = n.clone();
    assert_eq!(*c.get_kind(), ASTNodeKind::AddSubOp('+'));
    assert_eq!(c.get_subtrees().len(), 1);
}

#[test]
fn parse_uses_every_token() {
    let tokens = Tokenizer::new("int main() { return 2; }".to_string()).tokenize().unwrap();
    let mut p = Parser::new(tokens);
    assert!(p.parse().is_ok());
    assert!(p.parse().unwrap().get_subtrees().is_empty());
}

#[test]
fn error_messages() {
    assert_eq!(LexerError("a".to_string()).message(), "a");
    assert_eq!(TokenizerError("b".to_string()).message(), "b");
    assert_eq!(ParserError("c".to_string()).message(), "c");
    assert_eq!(GeneratorError("d".to_string()).message(), "d");
}
