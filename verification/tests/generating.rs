use compiler::ast::{ASTNode, ASTNodeKind, CmpType, EqType, ShiftType};
use compiler::codegen::Generator;

fn constant(v: &str) -> ASTNode {
    let mut p = ASTNode::new(ASTNodeKind::PrimaryExp, None);
    p.push_child(ASTNode::new(ASTNodeKind::Constant(v.to_string()), None));
    p
}

fn binary(kind: ASTNodeKind, lhs: ASTNode, rhs: ASTNode) -> ASTNode {
    ASTNode::new(kind, Some(vec![lhs, rhs]))
}

fn ret(child: ASTNode) -> ASTNode {
    ASTNode::new(ASTNodeKind::Return, Some(vec![child]))
}

fn statement(child: ASTNode) -> Result<String, compiler::errors::GeneratorError> {
    let mut g = Generator::new(ASTNode::new(ASTNodeKind::Program, None));
    g.generate_statement(&ret(child))
}

fn is_label_line(line: &str) -> bool {
    line.len() == 22
        && line.starts_with('_')
        && line[1..].chars().all(|c| c == '_' || c == '-' || c.is_ascii_alphanumeric())
}

#[test]
fn return_constant() {
    assert_eq!(statement(constant("2")).unwrap(), "mov w0, #2\nret");
}

#[test]
fn arithmetic_operators() {
    let cases = [('+', "add"), ('-', "sub")];
    for (op, ins) in cases {
        let e = binary(ASTNodeKind::AddSubOp(op), constant("1"), constant("2"));
        assert_eq!(statement(e).unwrap(), format!("mov w0, #1\nmov w1, #2\n{} w0, w0, w1\nret", ins));
    }
    let cases = [('*', "mul"), ('/', "udiv")];
    for (op, ins) in cases {
        let e = binary(ASTNodeKind::MultDivOp(op), constant("6"), constant("3"));
        assert_eq!(statement(e).unwrap(), format!("mov w0, #6\nmov w1, #3\n{} w0, w0, w1\nret", ins));
    }
}

#[test]
fn unknown_arithmetic_operator_is_an_error() {
    let e = binary(ASTNodeKind::AddSubOp('%'), constant("1"), constant("2"));
    assert!(statement(e).is_err());
}

#[test]
fn bitwise_operators() {
    let cases = [(ASTNodeKind::BAndOp, "and"), (ASTNodeKind::BOrOp, "orr"), (ASTNodeKind::BXOrOp, "eor")];
    for (kind, ins) in cases {
        let e = binary(kind, constant("5"), constant("3"));
        assert_eq!(statement(e).unwrap(), format!("mov w0, #5\nmov w1, #3\n{} w0, w0, w1\nret", ins));
    }
}

#[test]
fn comparisons() {
    let cases = [
        (ASTNodeKind::EqOp(EqType::Eq), "eq"),
        (ASTNodeKind::EqOp(EqType::Ne), "ne"),
        (ASTNodeKind::CmpOp(CmpType::Ge), "ge"),
        (ASTNodeKind::CmpOp(CmpType::Le), "le"),
        (ASTNodeKind::CmpOp(CmpType::Gt), "gt"),
        (ASTNodeKind::CmpOp(CmpType::Lt), "lt"),
    ];
    for (kind, cond) in cases {
        let e = binary(kind, constant("1"), constant("2"));
        assert_eq!(
            statement(e).unwrap(),
            format!("mov w0, #1\nmov w1, #2\ncmp w0, w1\ncset w0, {}\nret", cond)
        );
    }
}

#[test]
fn shifts() {
    let e = binary(ASTNodeKind::ShiftOp(ShiftType::Left), constant("1"), constant("4"));
    assert_eq!(statement(e).unwrap(), "mov w0, #1\nmov w1, #4\nlsl w0, w0, w1\nret");
    let e = binary(ASTNodeKind::ShiftOp(ShiftType::Right), constant("16"), constant("2"));
    assert_eq!(statement(e).unwrap(), "mov w0, #16\nmov w1, #2\nlsr w0, w0, w1\nret");
}

#[test]
fn logical_and_draws_two_labels() {
    let e = binary(ASTNodeKind::LAndOp, constant("1"), constant("0"));
    let out = statement(e).unwrap();
    let lines: Vec<&str> = out.lines().collect();
    assert_eq!(lines.len(), 11);
    assert_eq!(lines[0], "mov w0, #1");
    assert_eq!(lines[1], "mov w1, #0");
    assert_eq!(lines[2], "cmp w0, #0");
    assert!(lines[3].starts_with("b.ne _"));
    let start = &lines[3][5..];
    assert!(is_label_line(start));
    assert_eq!(lines[4], "mov w0, #0");
    assert!(lines[5].starts_with("jmp _"));
    let end = &lines[5][4..];
    assert!(is_label_line(end));
    assert_eq!(lines[6], start);
    assert_eq!(lines[7], "cmp w1, #0");
    assert_eq!(lines[8], "cset w0, ne");
    assert_eq!(lines[9], end);
    assert_eq!(lines[10], "ret");
}

#[test]
fn logical_or_draws_two_labels() {
    let e = binary(ASTNodeKind::LOrOp, constant("0"), constant("1"));
    let out = statement(e).unwrap();
    let lines: Vec<&str> = out.lines().collect();
    assert_eq!(lines.len(), 11);
    assert!(lines[3].starts_with("b.eq _"));
    assert_eq!(lines[4], "mov w0, #1");
    assert_eq!(lines[6], &lines[3][5..]);
    assert_eq!(lines[9], &lines[5][4..]);
    assert!(is_label_line(lines[6]));
    assert!(is_label_line(lines[9]));
}

#[test]
fn unary_operators() {
    let unary = |op: char| {
        let mut p = ASTNode::new(ASTNodeKind::PrimaryExp, None);
        p.push_child(ASTNode::new(ASTNodeKind::UnOp(op), Some(vec![constant("3")])));
        p
    };
    assert_eq!(statement(unary('-')).unwrap(), "mov w0, #3\nneg w0, w0\nret");
    assert_eq!(statement(unary('~')).unwrap(), "mov w0, #3\nmvn w0, w0\nret");
    assert_eq!(statement(unary('!')).unwrap(), "mov w0, #3\ncmp w0, #0\ncset w0, eq\nret");
    assert!(statement(unary('+')).is_err());
}

#[test]
fn nested_right_operand_goes_first() {
    // 1 - (2 + 3): the right operand is computed into w1 before w0 is loaded.
    let inner = binary(ASTNodeKind::AddSubOp('+'), constant("2"), constant("3"));
    let e = binary(ASTNodeKind::AddSubOp('-'), constant("1"), inner);
    assert_eq!(
        statement(e).unwrap(),
        "mov w0, #2\nmov w1, #3\nadd w1, w0, w1\n\nmov w0, #1\nsub w0, w0, w1\nret"
    );
}

#[test]
fn nested_left_operand() {
    // (1 + 2) - 3
    let inner = binary(ASTNodeKind::AddSubOp('+'), constant("1"), constant("2"));
    let e = binary(ASTNodeKind::AddSubOp('-'), inner, constant("3"));
    assert_eq!(
        statement(e).unwrap(),
        "mov w0, #1\nmov w1, #2\nadd w0, w0, w1\n\nmov w1, #3\nsub w0, w0, w1\nret"
    );
}

#[test]
fn operator_with_one_operand_is_an_error() {
    let e = ASTNode::new(ASTNodeKind::AddSubOp('+'), Some(vec![constant("1")]));
    assert!(statement(e).is_err());
}

#[test]
fn statement_must_be_a_return() {
    let mut g = Generator::new(ASTNode::new(ASTNodeKind::Program, None));
    let node = ASTNode::new(ASTNodeKind::Declaration("int".to_string()), None);
    assert!(g.generate_statement(&node).is_err());
}

#[test]
fn generate_needs_a_program() {
    let mut g = Generator::new(ASTNode::new(ASTNodeKind::Return, None));
    assert!(g.generate().is_err());
}

#[test]
fn generate_writes_function_headers() {
    let mut program = ASTNode::new(ASTNodeKind::Program, None);
    let mut f = ASTNode::new(ASTNodeKind::FunctionDeclaration("int".to_string(), "main".to_string()), None);
    f.push_child(ret(constant("2")));
    program.push_child(f);
    program.push_child(ASTNode::new(ASTNodeKind::FunctionDeclaration("int".to_string(), "g".to_string()), None));
    let mut g = Generator::new(program);
    assert_eq!(g.generate().unwrap(), ".globl _main\n_main:\n.globl _g\n_g:\n");
}

#[test]
fn generate_statement_children_of_a_function() {
    // A child of kind `Statement` is handed to the statement generator, which wants a
    // `return` node and so refuses it.
    let mut program = ASTNode::new(ASTNodeKind::Program, None);
    let mut f = ASTNode::new(ASTNodeKind::FunctionDeclaration("int".to_string(), "main".to_string()), None);
    f.push_child(ASTNode::new(ASTNodeKind::Statement("s".to_string()), None));
    program.push_child(f);
    let mut g = Generator::new(program);
    assert!(g.generate().is_err());
}

#[test]
fn generate_twice_appends_again() {
    let mut program = ASTNode::new(ASTNodeKind::Program, None);
    program.push_child(ASTNode::new(ASTNodeKind::FunctionDeclaration("int".to_string(), "f".to_string()), None));
    let mut g = Generator::new(program);
    assert_eq!(g.generate().unwrap(), ".globl _f\n_f:\n");
    assert_eq!(g.generate().unwrap(), ".globl _f\n_f:\n.globl _f\n_f:\n");
}

#[test]
fn empty_program_generates_nothing() {
    let mut g = Generator::new(ASTNode::new(ASTNodeKind::Program, None));
    assert_eq!(g.generate().unwrap(), "");
}
