use compiler::ast::{kind_text, ASTNode, ASTNodeKind, AssignType, CmpType, EqType, ShiftType};
use compiler::codegen::Generator;
use compiler::lexer::{tokens_from_lexemes, Tokenizer};
use compiler::parser::Parser;
use compiler::tokens::{optional_token_text, token_for_pattern, token_text, tokens_equal, Token};

fn reference_pretty(n: &ASTNode, spaces: u8) -> String {
    let mut s = String::new();
    for _ in 0..spaces {
        s.push(' ');
    }
    s.push_str(&format!("{:?}", n.get_kind()));
    s.push('\n');
    for c in n.get_subtrees() {
        s.push_str(&reference_pretty(&c, spaces + 4));
        s.push('\n');
    }
    s
}

fn parse(source: &str) -> ASTNode {
    let tokens = Tokenizer::new(source.to_string()).tokenize().unwrap();
    Parser::new(tokens).parse().unwrap()
}

#[test]
fn pretty_small_tree() {
    let tree = parse("int main() { return 2; }");
    assert_eq!(
        tree.pretty(),
        "\nProgram\n    FunctionDeclaration(\"int\", \"main\")\n        Return\n            PrimaryExp\n                Constant(\"2\")\n\n\n\n\n"
    );
}

#[test]
fn pretty_matches_debug_layout() {
    let tree = parse("int f() { int a = 1; a += -~2 * (3 << 4); return a || 1 != 2; } int g() { }");
    assert_eq!(tree.pretty(), format!("\n{}", reference_pretty(&tree, 0)));
}

#[test]
fn pretty_leaf() {
    let n = ASTNode::new(ASTNodeKind::Return, None);
    assert_eq!(n.pretty(), "\nReturn\n");
}

#[test]
fn kind_text_is_debug_text() {
    let kinds = vec![
        ASTNodeKind::Program,
        ASTNodeKind::FunctionDeclaration("int".to_string(), "ma\"in".to_string()),
        ASTNodeKind::Statement("s\n".to_string()),
        ASTNodeKind::Return,
        ASTNodeKind::Declaration("int".to_string()),
        ASTNodeKind::Assignment(AssignType::RShift),
        ASTNodeKind::Variable("x".to_string()),
        ASTNodeKind::PrimaryExp,
        ASTNodeKind::Constant("12".to_string()),
        ASTNodeKind::UnOp('\''),
        ASTNodeKind::MultDivOp('*'),
        ASTNodeKind::AddSubOp('-'),
        ASTNodeKind::ShiftOp(ShiftType::Left),
        ASTNodeKind::CmpOp(CmpType::Ge),
        ASTNodeKind::EqOp(EqType::Ne),
        ASTNodeKind::BAndOp,
        ASTNodeKind::BXOrOp,
        ASTNodeKind::BOrOp,
        ASTNodeKind::LAndOp,
        ASTNodeKind::LOrOp,
    ];
    for k in kinds {
        assert_eq!(kind_text(&k), format!("{:?}", k));
    }
}

#[test]
fn token_text_is_debug_text() {
    let tokens = vec![
        Token::DataType("int".to_string()),
        Token::Keyword("return".to_string()),
        Token::Identifier("x\\y".to_string()),
        Token::DecimalIntegerLiteral(42),
        Token::LeftBrace,
        Token::BitwiseExclusiveOr,
        Token::OrAssign,
    ];
    for t in &tokens {
        assert_eq!(token_text(t), format!("{:?}", t));
        assert_eq!(optional_token_text(Some(t)), format!("{:?}", Some(t)));
    }
    assert_eq!(optional_token_text(None), "None");
}

#[test]
fn tokens_equal_compares_kind_and_text() {
    assert!(tokens_equal(&Token::Semicolon, &Token::Semicolon));
    assert!(!tokens_equal(&Token::Semicolon, &Token::LeftParen));
    assert!(tokens_equal(&Token::Identifier("a".to_string()), &Token::Identifier("a".to_string())));
    assert!(!tokens_equal(&Token::Identifier("a".to_string()), &Token::Identifier("b".to_string())));
    assert!(!tokens_equal(&Token::Identifier("a".to_string()), &Token::Keyword("a".to_string())));
    assert!(tokens_equal(&Token::DecimalIntegerLiteral(3), &Token::DecimalIntegerLiteral(3)));
    assert!(!tokens_equal(&Token::DecimalIntegerLiteral(3), &Token::DecimalIntegerLiteral(4)));
}

#[test]
fn token_for_pattern_cases() {
    assert_eq!(token_for_pattern(0, "printf"), Token::DataType("printf".to_string()));
    assert_eq!(token_for_pattern(1, "return"), Token::Keyword("return".to_string()));
    assert_eq!(token_for_pattern(7, "x1"), Token::Identifier("x1".to_string()));
    assert_eq!(token_for_pattern(8, "+12"), Token::DecimalIntegerLiteral(12));
    assert_eq!(token_for_pattern(9, "+="), Token::SumAssign);
    assert_eq!(token_for_pattern(24, "<<"), Token::LeftShift);
    assert_eq!(token_for_pattern(39, "="), Token::SimpleAssign);
}

#[test]
fn tokens_from_lexemes_cases() {
    let ms = vec!["int".to_string(), "x".to_string(), "=".to_string(), "7".to_string(), ";".to_string()];
    assert_eq!(
        tokens_from_lexemes(&ms).unwrap(),
        vec![
            Token::DataType("int".to_string()),
            Token::Identifier("x".to_string()),
            Token::SimpleAssign,
            Token::DecimalIntegerLiteral(7),
            Token::Semicolon,
        ]
    );
    assert!(tokens_from_lexemes(&vec!["x".to_string(), "@".to_string()]).is_err());
    assert_eq!(tokens_from_lexemes(&vec![]).unwrap(), vec![]);
}

#[test]
fn invalid_arithmetic_operator_message() {
    let mut p = ASTNode::new(ASTNodeKind::PrimaryExp, None);
    p.push_child(ASTNode::new(ASTNodeKind::Constant("1".to_string()), None));
    let op = ASTNode::new(ASTNodeKind::AddSubOp('%'), Some(vec![p.clone(), p]));
    let ret = ASTNode::new(ASTNodeKind::Return, Some(vec![op]));
    let mut g = Generator::new(ASTNode::new(ASTNodeKind::Program, None));
    let e = g.generate_statement(&ret).unwrap_err();
    assert_eq!(e.message(), "invalid arithmetic operator %");
}

fn parse_error(source: &str) -> String {
    let tokens = Tokenizer::new(source.to_string()).tokenize().unwrap();
    match Parser::new(tokens).parse() {
        Ok(_) => panic!("the source parsed"),
        Err(e) => e.message(),
    }
}

#[test]
fn expect_token_messages() {
    assert_eq!(
        parse_error("int main() { return 2 }"),
        "failed while expecting token Semicolon; was RightBrace"
    );
    assert_eq!(parse_error("int main() { return 2"), "no tokens left when trying to expect tokens");
    assert_eq!(
        parse_error("int main( { }"),
        "failed while expecting token RightParen; was LeftBrace"
    );
}

#[test]
fn statement_messages() {
    assert_eq!(
        parse_error("int main() { 2; }"),
        "in parse_statement(): Some(DecimalIntegerLiteral(2)) is not Keyword or Datatype!"
    );
    assert_eq!(
        parse_error("int main() {"),
        "in parse_statement(): None is not Keyword or Datatype!"
    );
    assert_eq!(
        parse_error("int main() { a 2; }"),
        "next_token not = when assigning variable, Some(DecimalIntegerLiteral(2))"
    );
    assert_eq!(parse_error("int main() { a"), "next_token not = when assigning variable, None");
}

#[test]
fn primary_and_unary_messages() {
    assert_eq!(
        parse_error("int main() { return ; }"),
        "failed while parsing unary: Semicolon is not valid token\n[RightBrace]"
    );
    assert_eq!(parse_error("int main() { return"), "failed while parsing primary: None is not valid token");
}

#[test]
fn declaration_messages() {
    assert_eq!(parse_error("int main() { int a 2; }"), "next_token not = or ;");
    assert_eq!(parse_error("int main() { int 2; }"), "failed while parsing statement: token mismatch");
    assert_eq!(parse_error("int main() { xreturn 1; }"), "failed while parsing statement: keyword not return");
    assert_eq!(parse_error("x main() { }"), "failed while parsing function");
}

#[test]
fn generator_messages() {
    let mut g = Generator::new(ASTNode::new(ASTNodeKind::Return, None));
    assert_eq!(g.generate().unwrap_err().message(), "starting node is not Program node");

    let mut program = ASTNode::new(ASTNodeKind::Program, None);
    let mut f = ASTNode::new(ASTNodeKind::FunctionDeclaration("int".to_string(), "main".to_string()), None);
    f.push_child(ASTNode::new(ASTNodeKind::Statement("s".to_string()), None));
    program.push_child(f);
    let mut g = Generator::new(program);
    assert_eq!(
        g.generate().unwrap_err().message(),
        "ASTNode passed to statement node was not of statement type"
    );

    let mut p = ASTNode::new(ASTNodeKind::PrimaryExp, None);
    p.push_child(ASTNode::new(ASTNodeKind::Constant("1".to_string()), None));
    let one_operand = ASTNode::new(ASTNodeKind::AddSubOp('+'), Some(vec![p.clone()]));
    let ret = ASTNode::new(ASTNodeKind::Return, Some(vec![one_operand]));
    let mut g = Generator::new(ASTNode::new(ASTNodeKind::Program, None));
    assert_eq!(
        g.generate_statement(&ret).unwrap_err().message(),
        "arithmetic operator ASTNode does not have two children"
    );

    let bad_primary = ASTNode::new(ASTNodeKind::PrimaryExp, Some(vec![ASTNode::new(ASTNodeKind::Return, None)]));
    let ret = ASTNode::new(ASTNodeKind::Return, Some(vec![bad_primary]));
    assert_eq!(
        g.generate_statement(&ret).unwrap_err().message(),
        "token in primary children was not constant or unary operator"
    );

    let mut u = ASTNode::new(ASTNodeKind::PrimaryExp, None);
    u.push_child(ASTNode::new(ASTNodeKind::UnOp('+'), Some(vec![p])));
    let ret = ASTNode::new(ASTNodeKind::Return, Some(vec![u]));
    assert_eq!(g.generate_statement(&ret).unwrap_err().message(), "failed when generating unary");
}

#[test]
fn tokenizer_message() {
    let e = compiler::tokens::get_token_from_string("@").unwrap_err();
    assert_eq!(e.message(), "string does not match any regex in REGEX_TABLE");
    let e = tokens_from_lexemes(&vec!["@".to_string()]).unwrap_err();
    assert_eq!(e.message(), "string does not match any regex in REGEX_TABLE");
}

#[test]
fn height_checks() {
    let leaf = ASTNode::new(ASTNodeKind::Return, None);
    assert!(leaf.height_at_most(0));
    let tree = parse("int main() { return 2; }");
    assert!(tree.height_at_most(4));
    assert!(!tree.height_at_most(3));
    assert!(tree.height_at_most(63));
    let mut deep = ASTNode::new(ASTNodeKind::Return, None);
    for _ in 0..64 {
        deep = ASTNode::new(ASTNodeKind::PrimaryExp, Some(vec![deep]));
    }
    assert!(!deep.height_at_most(63));
    assert!(deep.height_at_most(64));
}
