use compiler::ast::{ASTNode, ASTNodeKind, AssignType};
use compiler::lexer::Tokenizer;
use compiler::parser::Parser;
use compiler::tokens::Token;

fn tokens(source: &str) -> Vec<Token> {
    Tokenizer::new(source.to_string()).try_tokenize().unwrap().unwrap()
}

fn render(n: &ASTNode) -> String {
    let mut s = format!("{:?}", n.get_kind());
    let cs = n.get_subtrees();
    if !cs.is_empty() {
        let parts: Vec<String> = cs.iter().map(|c| render(c)).collect();
        s.push('[');
        s.push_str(&parts.join(", "));
        s.push(']');
    }
    s
}

fn parse_source(source: &str) -> Result<ASTNode, compiler::errors::ParserError> {
    Parser::new(tokens(source)).parse()
}

fn body(source: &str) -> String {
    let tree = parse_source(source).unwrap();
    let f = &tree.get_subtrees()[0];
    let parts: Vec<String> = f.get_subtrees().iter().map(|c| render(c)).collect();
    parts.join("; ")
}

#[test]
fn parse_return_constant() {
    let tree = parse_source("int main() { return 2; }").unwrap();
    assert_eq!(
        render(&tree),
        "Program[FunctionDeclaration(\"int\", \"main\")[Return[PrimaryExp[Constant(\"2\")]]]]"
    );
}

#[test]
fn no_tokens_is_an_empty_program() {
    let tree = Parser::new(vec![]).parse().unwrap();
    assert_eq!(*tree.get_kind(), ASTNodeKind::Program);
    assert!(tree.get_subtrees().is_empty());
}

#[test]
fn function_with_empty_body() {
    let tree = parse_source("int f() { }").unwrap();
    assert_eq!(render(&tree), "Program[FunctionDeclaration(\"int\", \"f\")]");
}

#[test]
fn two_functions_in_order() {
    let tree = parse_source("int a() { return 1; } int b() { return 2; }").unwrap();
    let fs = tree.get_subtrees();
    assert_eq!(fs.len(), 2);
    assert_eq!(*fs[0].get_kind(), ASTNodeKind::FunctionDeclaration("int".to_string(), "a".to_string()));
    assert_eq!(*fs[1].get_kind(), ASTNodeKind::FunctionDeclaration("int".to_string(), "b".to_string()));
}

#[test]
fn subtraction_is_left_associative() {
    assert_eq!(
        body("int main() { return 1 - 2 - 3; }"),
        "Return[AddSubOp('-')[AddSubOp('-')[PrimaryExp[Constant(\"1\")], PrimaryExp[Constant(\"2\")]], PrimaryExp[Constant(\"3\")]]]"
    );
}

#[test]
fn multiplication_binds_tighter() {
    assert_eq!(
        body("int main() { return 1 + 2 * 3; }"),
        "Return[AddSubOp('+')[PrimaryExp[Constant(\"1\")], MultDivOp('*')[PrimaryExp[Constant(\"2\")], PrimaryExp[Constant(\"3\")]]]]"
    );
}

#[test]
fn parentheses_group() {
    assert_eq!(
        body("int main() { return (1 + 2) * 3; }"),
        "Return[MultDivOp('*')[AddSubOp('+')[PrimaryExp[Constant(\"1\")], PrimaryExp[Constant(\"2\")]], PrimaryExp[Constant(\"3\")]]]"
    );
}

#[test]
fn parse_unary_operators() {
    assert_eq!(
        body("int main() { return -~!4; }"),
        "Return[PrimaryExp[UnOp('-')[PrimaryExp[UnOp('~')[PrimaryExp[UnOp('!')[PrimaryExp[Constant(\"4\")]]]]]]]]"
    );
}

#[test]
fn precedence_of_comparisons_and_logic() {
    assert_eq!(
        body("int main() { return 1 < 2 == 3 && 4 || 5; }"),
        "Return[LOrOp[LAndOp[EqOp(Eq)[CmpOp(Lt)[PrimaryExp[Constant(\"1\")], PrimaryExp[Constant(\"2\")]], PrimaryExp[Constant(\"3\")]], PrimaryExp[Constant(\"4\")]], PrimaryExp[Constant(\"5\")]]]"
    );
}

#[test]
fn bitwise_and_shift_levels() {
    assert_eq!(
        body("int main() { return 1 | 2 ^ 3 & 4 >> 5; }"),
        "Return[BOrOp[PrimaryExp[Constant(\"1\")], BXOrOp[PrimaryExp[Constant(\"2\")], BAndOp[PrimaryExp[Constant(\"3\")], ShiftOp(Right)[PrimaryExp[Constant(\"4\")], PrimaryExp[Constant(\"5\")]]]]]]"
    );
}

#[test]
fn declarations() {
    assert_eq!(
        body("int main() { int a; int b = 3; }"),
        "Declaration(\"int\")[Variable(\"a\")]; Declaration(\"int\")[Assignment(Simple)[Variable(\"b\"), PrimaryExp[Constant(\"3\")]]]"
    );
}

#[test]
fn statement_assignments() {
    assert_eq!(
        body("int main() { a = 1; b += 2; }"),
        "Assignment(Simple)[Variable(\"a\"), PrimaryExp[Constant(\"1\")]]; Assignment(Sum)[Variable(\"b\"), PrimaryExp[Constant(\"2\")]]"
    );
}

#[test]
fn quotient_assignment_statement_reads_as_difference() {
    let tree = parse_source("int main() { a /= 2; }").unwrap();
    let f = &tree.get_subtrees()[0];
    assert_eq!(*f.get_subtrees()[0].get_kind(), ASTNodeKind::Assignment(AssignType::Diff));
}

#[test]
fn assignment_inside_expression() {
    assert_eq!(
        body("int main() { return a = b *= 2; }"),
        "Return[Assignment(Simple)[Variable(\"a\"), Assignment(Prod)[Variable(\"b\"), PrimaryExp[Constant(\"2\")]]]]"
    );
    assert_eq!(
        body("int main() { return a /= 2; }"),
        "Return[Assignment(Quot)[Variable(\"a\"), PrimaryExp[Constant(\"2\")]]]"
    );
}

#[test]
fn variable_in_expression() {
    assert_eq!(
        body("int main() { return a + 1; }"),
        "Return[AddSubOp('+')[Variable(\"a\"), PrimaryExp[Constant(\"1\")]]]"
    );
}

#[test]
fn missing_semicolon_is_an_error() {
    assert!(parse_source("int main() { return 2 }").is_err());
}

#[test]
fn missing_closing_brace_is_an_error() {
    assert!(parse_source("int main() { return 2;").is_err());
}

#[test]
fn function_needs_data_type_and_name() {
    assert!(parse_source("main() { return 2; }").is_err());
    assert!(parse_source("int () { return 2; }").is_err());
}

#[test]
fn return_needs_an_expression() {
    assert!(parse_source("int main() { return; }").is_err());
}

#[test]
fn bad_statement_start_is_an_error() {
    assert!(parse_source("int main() { 2; }").is_err());
    assert!(parse_source("int main() { a 2; }").is_err());
}
