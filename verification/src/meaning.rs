use vstd::prelude::*;

use crate::ast::{leaf, node_with, NodeView, assign_type_text, cmp_type_text, eq_type_text, shift_type_text, AssignType, CmpType, EqType, KindView, ShiftType};
use crate::compile::{last_dot_before, stem_of};
use crate::codegen::{logical_asm, operator_shape, operator_text, unary_op_known, unary_suffix, GenShape};
use crate::parser::{
    binary_operator, expression_assign_type, spec_binary, spec_chain, spec_operand, spec_primary,
    statement_assign_type, unary_operator,
};
use crate::tokens::{decimal_text, digits_value, same_token, table_pattern, token_debug_text, token_denotes, Token};

verus! {

/// The C source text that a token without fields stands for.
pub open spec fn token_source_text(t: Token) -> Option<Seq<char>> {
    match t {
        Token::LeftBrace => Some("{"@),
        Token::RightBrace => Some("}"@),
        Token::LeftParen => Some("("@),
        Token::RightParen => Some(")"@),
        Token::Semicolon => Some(";"@),
        Token::SumAssign => Some("+="@),
        Token::DiffAssign => Some("-="@),
        Token::ProdAssign => Some("*="@),
        Token::QuotAssign => Some("/="@),
        Token::RemAssign => Some("%="@),
        Token::LShAssign => Some("<<="@),
        Token::RShAssign => Some(">>="@),
        Token::AndAssign => Some("&="@),
        Token::XOrAssign => Some("^="@),
        Token::OrAssign => Some("|="@),
        Token::Remainder => Some("%"@),
        Token::Plus => Some("+"@),
        Token::Minus => Some("-"@),
        Token::Times => Some("*"@),
        Token::Divide => Some("/"@),
        Token::LeftShift => Some("<<"@),
        Token::RightShift => Some(">>"@),
        Token::Le => Some("<="@),
        Token::Ge => Some(">="@),
        Token::Lt => Some("<"@),
        Token::Gt => Some(">"@),
        Token::Eq => Some("=="@),
        Token::Ne => Some("!="@),
        Token::LogicalAnd => Some("&&"@),
        Token::LogicalOr => Some("||"@),
        Token::BitwiseAnd => Some("&"@),
        Token::BitwiseExclusiveOr => Some("^"@),
        Token::BitwiseOr => Some("|"@),
        Token::BitwiseComplement => Some("~"@),
        Token::LogicalNegation => Some("!"@),
        Token::SimpleAssign => Some("="@),
        _ => None,
    }
}

/// A regular expression with each `\` escape removed: the text it matches when it
/// holds no other special character.
pub open spec fn unescape(p: Seq<char>) -> Seq<char>
    decreases p.len(),
{
    if p.len() == 0 {
        seq![]
    } else if p[0] == '\\' && p.len() >= 2 {
        seq![p[1]] + unescape(p.skip(2))
    } else {
        seq![p[0]] + unescape(p.skip(1))
    }
}

/// The pattern of the table that reads a lexeme as a token without fields spells out
/// the C text of that token: each pattern stands for the token it is named for.
pub proof fn law_pattern_spells_token(i: nat, s: Seq<char>, t: Token)
    requires
        token_denotes(i, s, t),
        token_source_text(t) is Some,
    ensures
        i < 40,
        unescape(table_pattern(i as int)) == token_source_text(t)->0,
{
    reveal_with_fuel(unescape, 5);
    match t {
        Token::LeftBrace => {
            reveal_strlit("\\{");
            reveal_strlit("{");
            assert(unescape(table_pattern(2)) =~= "{"@);
        },
        Token::RightBrace => {
            reveal_strlit("\\}");
            reveal_strlit("}");
            assert(unescape(table_pattern(3)) =~= "}"@);
        },
        Token::LeftParen => {
            reveal_strlit("\\(");
            reveal_strlit("(");
            assert(unescape(table_pattern(4)) =~= "("@);
        },
        Token::RightParen => {
            reveal_strlit("\\)");
            reveal_strlit(")");
            assert(unescape(table_pattern(5)) =~= ")"@);
        },
        Token::Semicolon => {
            reveal_strlit(";");
            reveal_strlit(";");
            assert(unescape(table_pattern(6)) =~= ";"@);
        },
        Token::SumAssign => {
            reveal_strlit("\\+=");
            reveal_strlit("+=");
            assert(unescape(table_pattern(9)) =~= "+="@);
        },
        Token::DiffAssign => {
            reveal_strlit("\\-=");
            reveal_strlit("-=");
            assert(unescape(table_pattern(10)) =~= "-="@);
        },
        Token::ProdAssign => {
            reveal_strlit("\\*=");
            reveal_strlit("*=");
            assert(unescape(table_pattern(11)) =~= "*="@);
        },
        Token::QuotAssign => {
            reveal_strlit("\\/=");
            reveal_strlit("/=");
            assert(unescape(table_pattern(12)) =~= "/="@);
        },
        Token::RemAssign => {
            reveal_strlit("\\%=");
            reveal_strlit("%=");
            assert(unescape(table_pattern(13)) =~= "%="@);
        },
        Token::LShAssign => {
            reveal_strlit("\\<<=");
            reveal_strlit("<<=");
            assert(unescape(table_pattern(14)) =~= "<<="@);
        },
        Token::RShAssign => {
            reveal_strlit("\\>>=");
            reveal_strlit(">>=");
            assert(unescape(table_pattern(15)) =~= ">>="@);
        },
        Token::AndAssign => {
            reveal_strlit("\\&=");
            reveal_strlit("&=");
            assert(unescape(table_pattern(16)) =~= "&="@);
        },
        Token::XOrAssign => {
            reveal_strlit("\\^=");
            reveal_strlit("^=");
            assert(unescape(table_pattern(17)) =~= "^="@);
        },
        Token::OrAssign => {
            reveal_strlit("\\|=");
            reveal_strlit("|=");
            assert(unescape(table_pattern(18)) =~= "|="@);
        },
        Token::Remainder => {
            reveal_strlit("%");
            reveal_strlit("%");
            assert(unescape(table_pattern(19)) =~= "%"@);
        },
        Token::Plus => {
            reveal_strlit("\\+");
            reveal_strlit("+");
            assert(unescape(table_pattern(20)) =~= "+"@);
        },
        Token::Minus => {
            reveal_strlit("-");
            reveal_strlit("-");
            assert(unescape(table_pattern(21)) =~= "-"@);
        },
        Token::Times => {
            reveal_strlit("\\*");
            reveal_strlit("*");
            assert(unescape(table_pattern(22)) =~= "*"@);
        },
        Token::Divide => {
            reveal_strlit("/");
            reveal_strlit("/");
            assert(unescape(table_pattern(23)) =~= "/"@);
        },
        Token::LeftShift => {
            reveal_strlit("<<");
            reveal_strlit("<<");
            assert(unescape(table_pattern(24)) =~= "<<"@);
        },
        Token::RightShift => {
            reveal_strlit(">>");
            reveal_strlit(">>");
            assert(unescape(table_pattern(25)) =~= ">>"@);
        },
        Token::Le => {
            reveal_strlit("<=");
            reveal_strlit("<=");
            assert(unescape(table_pattern(26)) =~= "<="@);
        },
        Token::Ge => {
            reveal_strlit(">=");
            reveal_strlit(">=");
            assert(unescape(table_pattern(27)) =~= ">="@);
        },
        Token::Lt => {
            reveal_strlit("<");
            reveal_strlit("<");
            assert(unescape(table_pattern(28)) =~= "<"@);
        },
        Token::Gt => {
            reveal_strlit(">");
            reveal_strlit(">");
            assert(unescape(table_pattern(29)) =~= ">"@);
        },
        Token::Eq => {
            reveal_strlit("==");
            reveal_strlit("==");
            assert(unescape(table_pattern(30)) =~= "=="@);
        },
        Token::Ne => {
            reveal_strlit("!=");
            reveal_strlit("!=");
            assert(unescape(table_pattern(31)) =~= "!="@);
        },
        Token::LogicalAnd => {
            reveal_strlit("&&");
            reveal_strlit("&&");
            assert(unescape(table_pattern(32)) =~= "&&"@);
        },
        Token::LogicalOr => {
            reveal_strlit("\\|\\|");
            reveal_strlit("||");
            assert(unescape(table_pattern(33)) =~= "||"@);
        },
        Token::BitwiseAnd => {
            reveal_strlit("&");
            reveal_strlit("&");
            assert(unescape(table_pattern(34)) =~= "&"@);
        },
        Token::BitwiseExclusiveOr => {
            reveal_strlit("\\^");
            reveal_strlit("^");
            assert(unescape(table_pattern(35)) =~= "^"@);
        },
        Token::BitwiseOr => {
            reveal_strlit("\\|");
            reveal_strlit("|");
            assert(unescape(table_pattern(36)) =~= "|"@);
        },
        Token::BitwiseComplement => {
            reveal_strlit("~");
            reveal_strlit("~");
            assert(unescape(table_pattern(37)) =~= "~"@);
        },
        Token::LogicalNegation => {
            reveal_strlit("!");
            reveal_strlit("!");
            assert(unescape(table_pattern(38)) =~= "!"@);
        },
        Token::SimpleAssign => {
            reveal_strlit("=");
            reveal_strlit("=");
            assert(unescape(table_pattern(39)) =~= "="@);
        },
        _ => {},
    }
}

/// Two tokens without fields that the same pattern reads are of the same kind, and two
/// patterns never read the same kind of token.
pub proof fn law_patterns_distinct(i: nat, j: nat, s1: Seq<char>, s2: Seq<char>, t1: Token, t2: Token)
    requires
        token_denotes(i, s1, t1),
        token_denotes(j, s2, t2),
        token_source_text(t1) is Some,
        token_source_text(t2) is Some,
    ensures
        (i == j) <==> (t1 == t2),
{
}

/// The C text of a binary operator node kind; `None` for a kind that is no C binary
/// operator.
pub open spec fn operator_source_text(k: KindView) -> Option<Seq<char>> {
    match k {
        KindView::MultDivOp(c) => if c == '*' || c == '/' { Some(seq![c]) } else { None },
        KindView::AddSubOp(c) => if c == '+' || c == '-' { Some(seq![c]) } else { None },
        KindView::ShiftOp(ShiftType::Left) => Some("<<"@),
        KindView::ShiftOp(ShiftType::Right) => Some(">>"@),
        KindView::CmpOp(CmpType::Ge) => Some(">="@),
        KindView::CmpOp(CmpType::Le) => Some("<="@),
        KindView::CmpOp(CmpType::Gt) => Some(">"@),
        KindView::CmpOp(CmpType::Lt) => Some("<"@),
        KindView::EqOp(EqType::Eq) => Some("=="@),
        KindView::EqOp(EqType::Ne) => Some("!="@),
        KindView::BAndOp => Some("&"@),
        KindView::BXOrOp => Some("^"@),
        KindView::BOrOp => Some("|"@),
        KindView::LAndOp => Some("&&"@),
        KindView::LOrOp => Some("||"@),
        _ => None,
    }
}

/// The C precedence of a binary operator kind, from the tightest (0: `*`, `/`) to the
/// loosest (9: `||`): multiplicative, additive, shift, relational, equality, `&`, `^`,
/// `|`, `&&`, `||`.
pub open spec fn c_precedence(k: KindView) -> int {
    match k {
        KindView::MultDivOp(_) => 0,
        KindView::AddSubOp(_) => 1,
        KindView::ShiftOp(_) => 2,
        KindView::CmpOp(_) => 3,
        KindView::EqOp(_) => 4,
        KindView::BAndOp => 5,
        KindView::BXOrOp => 6,
        KindView::BOrOp => 7,
        KindView::LAndOp => 8,
        KindView::LOrOp => 9,
        _ => -1,
    }
}

/// The parser's operator levels follow C: a token that is an operator of some level
/// makes a node for the C operator it spells, and that level is the operator's C
/// precedence (so `+` binds tighter than `<<`, which binds tighter than `<`, and so on).
pub proof fn law_operator_levels_follow_c(level: nat, t: Token)
    ensures
        binary_operator(level, t) matches Some(k) ==> {
            &&& c_precedence(k) == level
            &&& operator_source_text(k) is Some
            &&& operator_source_text(k) == token_source_text(t)
        },
{
    reveal_strlit("*");
    reveal_strlit("/");
    reveal_strlit("+");
    reveal_strlit("-");
    if let Some(k) = binary_operator(level, t) {
        match t {
            Token::Times => assert(seq!['*'] =~= "*"@),
            Token::Divide => assert(seq!['/'] =~= "/"@),
            Token::Plus => assert(seq!['+'] =~= "+"@),
            Token::Minus => assert(seq!['-'] =~= "-"@),
            _ => {},
        }
    }
}

/// A unary operator token makes a unary node for the character it spells.
pub proof fn law_unary_operators_follow_c(t: Token)
    ensures
        unary_operator(t) matches Some(c) ==> token_source_text(t) == Some(seq![c]),
{
    reveal_strlit("-");
    reveal_strlit("~");
    reveal_strlit("!");
    match t {
        Token::Minus => assert(seq!['-'] =~= "-"@),
        Token::BitwiseComplement => assert(seq!['~'] =~= "~"@),
        Token::LogicalNegation => assert(seq!['!'] =~= "!"@),
        _ => {},
    }
}

/// The C text of an assignment operator.
pub open spec fn assign_source_text(a: AssignType) -> Seq<char> {
    match a {
        AssignType::Simple => "="@,
        AssignType::Sum => "+="@,
        AssignType::Diff => "-="@,
        AssignType::Prod => "*="@,
        AssignType::Quot => "/="@,
        AssignType::Rem => "%="@,
        AssignType::LShift => "<<="@,
        AssignType::RShift => ">>="@,
        AssignType::BAnd => "&="@,
        AssignType::BXOr => "^="@,
        AssignType::BOr => "|="@,
    }
}

/// Inside an expression an assignment token makes an assignment node of the C
/// operator it spells.
pub proof fn law_expression_assignments_follow_c(t: Token)
    ensures
        expression_assign_type(t) matches Some(a) ==> token_source_text(t) == Some(assign_source_text(a)),
{
}

/// At the start of a statement an assignment token makes an assignment node of the C
/// operator it spells, except `/=`, which is read as `-=`; every other token reads
/// there as it does inside an expression.
pub proof fn law_statement_assignments_follow_c(t: Token)
    ensures
        statement_assign_type(t) matches Some(a) ==> (token_source_text(t) == Some(assign_source_text(a))
            || (t is QuotAssign && a == AssignType::Diff)),
        !(t is QuotAssign) ==> statement_assign_type(t) == expression_assign_type(t),
        t is QuotAssign ==> statement_assign_type(t) == Some(AssignType::Diff),
{
}

/// Whether an ARM condition code holds after comparing the value `x` with zero.
pub open spec fn zero_compare_holds(cond: Seq<char>, x: int) -> bool {
    if cond == "eq"@ {
        x == 0
    } else if cond == "ne"@ {
        x != 0
    } else {
        false
    }
}

/// The value of `lhs && rhs` or `lhs || rhs` in C: 1 for true, 0 for false.
pub open spec fn c_logical_value(k: KindView, lhs: int, rhs: int) -> int {
    match k {
        KindView::LAndOp => if lhs != 0 && rhs != 0 { 1 } else { 0 },
        KindView::LOrOp => if lhs != 0 || rhs != 0 { 1 } else { 0 },
        _ => 0,
    }
}

/// The shape of the code for a logical operator: compare the left operand (`w0`) with
/// zero and branch on `branch` to the test of the right operand; otherwise set the
/// result to the immediate `imm` and jump to the end; the right-operand test sets the
/// result to whether `cond` holds for `w1` against zero.
pub open spec fn logical_code(
    reg: Seq<char>,
    start: Seq<char>,
    end: Seq<char>,
    branch: Seq<char>,
    imm: Seq<char>,
    cond: Seq<char>,
) -> Seq<char> {
    "cmp w0, #0\nb."@ + branch + " _"@ + start + "\nmov "@ + reg + ", #"@ + imm + "\njmp _"@ + end
        + "\n_"@ + start + "\ncmp w1, #0\ncset "@ + reg + ", "@ + cond + "\n_"@ + end
}

/// What the code of shape [`logical_code`] leaves in the result register for the
/// operand values `lhs` and `rhs`.
pub open spec fn logical_code_value(branch: Seq<char>, imm: Seq<char>, cond: Seq<char>, lhs: int, rhs: int) -> int {
    if zero_compare_holds(branch, lhs) {
        if zero_compare_holds(cond, rhs) {
            1
        } else {
            0
        }
    } else {
        digits_value(imm) as int
    }
}

/// The code for `&&` and `||` computes their C value: it has the shape of
/// [`logical_code`], and for every pair of operand values what it leaves in the result
/// register is 1 when the C expression is true and 0 when it is false (the right
/// operand is looked at only where the left one does not decide).
pub proof fn law_logical_code_computes_c(k: KindView, reg: Seq<char>, start: Seq<char>, end: Seq<char>)
    requires
        k is LAndOp || k is LOrOp,
    ensures
        exists|branch: Seq<char>, imm: Seq<char>, cond: Seq<char>| {
            &&& #[trigger] logical_code(reg, start, end, branch, imm, cond) == logical_asm(k, reg, start, end)->0
            &&& logical_asm(k, reg, start, end) is Some
            &&& forall|lhs: int, rhs: int|
                #[trigger] logical_code_value(branch, imm, cond, lhs, rhs) == c_logical_value(k, lhs, rhs)
        },
{
    reveal_strlit("cmp w0, #0\nb.ne _");
    reveal_strlit("cmp w0, #0\nb.eq _");
    reveal_strlit("cmp w0, #0\nb.");
    reveal_strlit(" _");
    reveal_strlit("\nmov ");
    reveal_strlit(", #0\njmp _");
    reveal_strlit(", #1\njmp _");
    reveal_strlit(", #");
    reveal_strlit("\njmp _");
    reveal_strlit("\n_");
    reveal_strlit("\ncmp w1, #0\ncset ");
    reveal_strlit(", ne\n_");
    reveal_strlit(", ");
    reveal_strlit("\n_");
    reveal_strlit("eq");
    reveal_strlit("ne");
    reveal_strlit("0");
    reveal_strlit("1");
    let cond = "ne"@;
    let (branch, imm) = if k is LAndOp {
        ("ne"@, "0"@)
    } else {
        ("eq"@, "1"@)
    };
    assert(logical_code(reg, start, end, branch, imm, cond) =~= logical_asm(k, reg, start, end)->0);
    assert(!("ne"@ =~= "eq"@)) by {
        assert("ne"@[0] != "eq"@[0]);
    }
    assert(digits_value(seq!['0']) == 0) by {
        assert(seq!['0'].drop_last() =~= Seq::<char>::empty());
        assert(digits_value(Seq::<char>::empty()) == 0);
        assert(seq!['0'].last() == '0');
        assert(digits_value(seq!['0']) == digits_value(seq!['0'].drop_last()) * 10 + ('0' as int - '0' as int));
    }
    assert(digits_value(seq!['1']) == 1) by {
        assert(seq!['1'].drop_last() =~= Seq::<char>::empty());
        assert(digits_value(Seq::<char>::empty()) == 0);
        assert(seq!['1'].last() == '1');
        assert(digits_value(seq!['1']) == digits_value(seq!['1'].drop_last()) * 10 + ('1' as int - '0' as int));
    }
    assert("0"@ =~= seq!['0']);
    assert("1"@ =~= seq!['1']);
    assert forall|lhs: int, rhs: int|
        #[trigger] logical_code_value(branch, imm, cond, lhs, rhs) == c_logical_value(k, lhs, rhs) by {}
}

/// A comparison or equality node is shown under the name of the token that makes it:
/// `<=` makes `CmpOp(Le)` from the token `Le`, `==` makes `EqOp(Eq)` from `Eq`, and so
/// on; a shift node is shown as its token's name without `Shift`.
pub proof fn law_operator_names_follow_tokens(level: nat, t: Token)
    ensures
        binary_operator(level, t) matches Some(KindView::CmpOp(c)) ==> cmp_type_text(c) == token_debug_text(t),
        binary_operator(level, t) matches Some(KindView::EqOp(e)) ==> eq_type_text(e) == token_debug_text(t),
        binary_operator(level, t) matches Some(KindView::ShiftOp(d)) ==> shift_type_text(d) + "Shift"@
            == token_debug_text(t),
{
    reveal_strlit("Left");
    reveal_strlit("Right");
    reveal_strlit("Shift");
    reveal_strlit("LeftShift");
    reveal_strlit("RightShift");
    assert("Left"@ + "Shift"@ =~= "LeftShift"@);
    assert("Right"@ + "Shift"@ =~= "RightShift"@);
}

/// Distinct kinds have distinct names.
pub proof fn law_kind_names_distinct(a1: AssignType, a2: AssignType, c1: CmpType, c2: CmpType, e1: EqType, e2: EqType, d1: ShiftType, d2: ShiftType)
    ensures
        assign_type_text(a1) == assign_type_text(a2) ==> a1 == a2,
        cmp_type_text(c1) == cmp_type_text(c2) ==> c1 == c2,
        eq_type_text(e1) == eq_type_text(e2) ==> e1 == e2,
        shift_type_text(d1) == shift_type_text(d2) ==> d1 == d2,
{
    reveal_strlit("Simple");
    reveal_strlit("Sum");
    reveal_strlit("Diff");
    reveal_strlit("Prod");
    reveal_strlit("Quot");
    reveal_strlit("Rem");
    reveal_strlit("LShift");
    reveal_strlit("RShift");
    reveal_strlit("BAnd");
    reveal_strlit("BXOr");
    reveal_strlit("BOr");
    reveal_strlit("Ge");
    reveal_strlit("Le");
    reveal_strlit("Gt");
    reveal_strlit("Lt");
    reveal_strlit("Eq");
    reveal_strlit("Ne");
    reveal_strlit("Left");
    reveal_strlit("Right");
    if assign_type_text(a1) == assign_type_text(a2) && a1 != a2 {
        let x = assign_type_text(a1);
        let y = assign_type_text(a2);
        assert(x.len() != y.len() || x[0] != y[0] || x[1] != y[1] || x[2] != y[2]);
    }
    if cmp_type_text(c1) == cmp_type_text(c2) && c1 != c2 {
        let x = cmp_type_text(c1);
        let y = cmp_type_text(c2);
        assert(x[0] != y[0] || x[1] != y[1]);
    }
    if eq_type_text(e1) == eq_type_text(e2) && e1 != e2 {
        assert(eq_type_text(e1)[0] != eq_type_text(e2)[0]);
    }
    if shift_type_text(d1) == shift_type_text(d2) && d1 != d2 {
        assert(shift_type_text(d1)[0] != shift_type_text(d2)[0]);
    }
}

/// An operation on two values.
pub enum BinaryOperation {
    Add,
    Sub,
    Mul,
    Div,
    And,
    Or,
    Xor,
    ShiftLeft,
    ShiftRight,
}

/// The operation that an ARM instruction `<m> rd, rn, rm` performs on `rn` and `rm`.
pub open spec fn arm_operation(m: Seq<char>) -> Option<BinaryOperation> {
    if m == "add"@ {
        Some(BinaryOperation::Add)
    } else if m == "sub"@ {
        Some(BinaryOperation::Sub)
    } else if m == "mul"@ {
        Some(BinaryOperation::Mul)
    } else if m == "udiv"@ {
        Some(BinaryOperation::Div)
    } else if m == "and"@ {
        Some(BinaryOperation::And)
    } else if m == "orr"@ {
        Some(BinaryOperation::Or)
    } else if m == "eor"@ {
        Some(BinaryOperation::Xor)
    } else if m == "lsl"@ {
        Some(BinaryOperation::ShiftLeft)
    } else if m == "lsr"@ {
        Some(BinaryOperation::ShiftRight)
    } else {
        None
    }
}

/// The operation that a C binary operator node performs on its operands.
pub open spec fn c_operation(k: KindView) -> Option<BinaryOperation> {
    match k {
        KindView::AddSubOp(c) => if c == '+' {
            Some(BinaryOperation::Add)
        } else if c == '-' {
            Some(BinaryOperation::Sub)
        } else {
            None
        },
        KindView::MultDivOp(c) => if c == '*' {
            Some(BinaryOperation::Mul)
        } else if c == '/' {
            Some(BinaryOperation::Div)
        } else {
            None
        },
        KindView::BAndOp => Some(BinaryOperation::And),
        KindView::BOrOp => Some(BinaryOperation::Or),
        KindView::BXOrOp => Some(BinaryOperation::Xor),
        KindView::ShiftOp(ShiftType::Left) => Some(BinaryOperation::ShiftLeft),
        KindView::ShiftOp(ShiftType::Right) => Some(BinaryOperation::ShiftRight),
        _ => None,
    }
}

/// `<m> reg, w0, w1`: the instruction that computes operation `m` of `w0` and `w1` into
/// `reg`.
pub open spec fn three_register_instruction(m: Seq<char>, reg: Seq<char>) -> Seq<char> {
    m + " "@ + reg + ", w0, w1"@
}

/// For the arithmetic, bitwise and shift operators, the generator emits one ARM
/// instruction that performs the same operation as the C operator, on the left
/// operand in `w0` and the right operand in `w1`.
pub proof fn law_operator_instruction_computes_c(k: KindView, reg: Seq<char>, ls: Seq<Seq<char>>)
    requires
        c_operation(k) is Some,
    ensures
        operator_shape(k) == GenShape::Done(0),
        exists|m: Seq<char>|
            #[trigger] three_register_instruction(m, reg) == operator_text(k, reg, ls) && arm_operation(m)
                == c_operation(k),
{
    reveal_strlit("add");
    reveal_strlit("sub");
    reveal_strlit("mul");
    reveal_strlit("udiv");
    reveal_strlit("and");
    reveal_strlit("orr");
    reveal_strlit("eor");
    reveal_strlit("lsl");
    reveal_strlit("lsr");
    reveal_strlit("add ");
    reveal_strlit("sub ");
    reveal_strlit("mul ");
    reveal_strlit("udiv ");
    reveal_strlit("and ");
    reveal_strlit("orr ");
    reveal_strlit("eor ");
    reveal_strlit("lsl ");
    reveal_strlit("lsr ");
    reveal_strlit(" ");
    let m: Seq<char> = match k {
        KindView::AddSubOp(c) => if c == '+' { "add"@ } else { "sub"@ },
        KindView::MultDivOp(c) => if c == '*' { "mul"@ } else { "udiv"@ },
        KindView::BAndOp => "and"@,
        KindView::BOrOp => "orr"@,
        KindView::BXOrOp => "eor"@,
        KindView::ShiftOp(ShiftType::Left) => "lsl"@,
        _ => "lsr"@,
    };
    assert("add"@ != "sub"@) by {
        assert("add"@[0] != "sub"@[0]);
    }
    assert("add"@ != "mul"@) by {
        assert("add"@[0] != "mul"@[0]);
    }
    assert("add"@ != "udiv"@) by {
        assert("add"@[0] != "udiv"@[0]);
    }
    assert("add"@ != "and"@) by {
        assert("add"@[1] != "and"@[1]);
    }
    assert("add"@ != "orr"@) by {
        assert("add"@[0] != "orr"@[0]);
    }
    assert("add"@ != "eor"@) by {
        assert("add"@[0] != "eor"@[0]);
    }
    assert("add"@ != "lsl"@) by {
        assert("add"@[0] != "lsl"@[0]);
    }
    assert("add"@ != "lsr"@) by {
        assert("add"@[0] != "lsr"@[0]);
    }
    assert("sub"@ != "mul"@) by {
        assert("sub"@[0] != "mul"@[0]);
    }
    assert("sub"@ != "udiv"@) by {
        assert("sub"@[0] != "udiv"@[0]);
    }
    assert("sub"@ != "and"@) by {
        assert("sub"@[0] != "and"@[0]);
    }
    assert("sub"@ != "orr"@) by {
        assert("sub"@[0] != "orr"@[0]);
    }
    assert("sub"@ != "eor"@) by {
        assert("sub"@[0] != "eor"@[0]);
    }
    assert("sub"@ != "lsl"@) by {
        assert("sub"@[0] != "lsl"@[0]);
    }
    assert("sub"@ != "lsr"@) by {
        assert("sub"@[0] != "lsr"@[0]);
    }
    assert("mul"@ != "udiv"@) by {
        assert("mul"@[0] != "udiv"@[0]);
    }
    assert("mul"@ != "and"@) by {
        assert("mul"@[0] != "and"@[0]);
    }
    assert("mul"@ != "orr"@) by {
        assert("mul"@[0] != "orr"@[0]);
    }
    assert("mul"@ != "eor"@) by {
        assert("mul"@[0] != "eor"@[0]);
    }
    assert("mul"@ != "lsl"@) by {
        assert("mul"@[0] != "lsl"@[0]);
    }
    assert("mul"@ != "lsr"@) by {
        assert("mul"@[0] != "lsr"@[0]);
    }
    assert("udiv"@ != "and"@) by {
        assert("udiv"@[0] != "and"@[0]);
    }
    assert("udiv"@ != "orr"@) by {
        assert("udiv"@[0] != "orr"@[0]);
    }
    assert("udiv"@ != "eor"@) by {
        assert("udiv"@[0] != "eor"@[0]);
    }
    assert("udiv"@ != "lsl"@) by {
        assert("udiv"@[0] != "lsl"@[0]);
    }
    assert("udiv"@ != "lsr"@) by {
        assert("udiv"@[0] != "lsr"@[0]);
    }
    assert("and"@ != "orr"@) by {
        assert("and"@[0] != "orr"@[0]);
    }
    assert("and"@ != "eor"@) by {
        assert("and"@[0] != "eor"@[0]);
    }
    assert("and"@ != "lsl"@) by {
        assert("and"@[0] != "lsl"@[0]);
    }
    assert("and"@ != "lsr"@) by {
        assert("and"@[0] != "lsr"@[0]);
    }
    assert("orr"@ != "eor"@) by {
        assert("orr"@[0] != "eor"@[0]);
    }
    assert("orr"@ != "lsl"@) by {
        assert("orr"@[0] != "lsl"@[0]);
    }
    assert("orr"@ != "lsr"@) by {
        assert("orr"@[0] != "lsr"@[0]);
    }
    assert("eor"@ != "lsl"@) by {
        assert("eor"@[0] != "lsl"@[0]);
    }
    assert("eor"@ != "lsr"@) by {
        assert("eor"@[0] != "lsr"@[0]);
    }
    assert("lsl"@ != "lsr"@) by {
        assert("lsl"@[2] != "lsr"@[2]);
    }
    assert(three_register_instruction(m, reg) =~= operator_text(k, reg, ls));
}

/// Whether the ARM condition `cond` holds after `cmp x, y`.
pub open spec fn arm_condition_holds(cond: Seq<char>, x: int, y: int) -> bool {
    if cond == "eq"@ {
        x == y
    } else if cond == "ne"@ {
        x != y
    } else if cond == "ge"@ {
        x >= y
    } else if cond == "gt"@ {
        x > y
    } else if cond == "le"@ {
        x <= y
    } else if cond == "lt"@ {
        x < y
    } else {
        false
    }
}

/// Whether the C comparison of node kind `k` holds of `x` and `y`.
pub open spec fn c_comparison_holds(k: KindView, x: int, y: int) -> bool {
    match k {
        KindView::EqOp(EqType::Eq) => x == y,
        KindView::EqOp(EqType::Ne) => x != y,
        KindView::CmpOp(CmpType::Ge) => x >= y,
        KindView::CmpOp(CmpType::Gt) => x > y,
        KindView::CmpOp(CmpType::Le) => x <= y,
        KindView::CmpOp(CmpType::Lt) => x < y,
        _ => false,
    }
}

/// `cmp w0, w1` then `cset reg, <cond>`.
pub open spec fn comparison_code(cond: Seq<char>, reg: Seq<char>) -> Seq<char> {
    "cmp w0, w1\ncset "@ + reg + ", "@ + cond
}

/// For the comparison and equality operators, the generator compares `w0` with `w1`
/// and sets the result register exactly when the C comparison holds of the left and
/// the right operand.
pub proof fn law_comparison_code_computes_c(k: KindView, reg: Seq<char>, ls: Seq<Seq<char>>)
    requires
        k is CmpOp || k is EqOp,
    ensures
        operator_shape(k) == GenShape::Done(0),
        exists|cond: Seq<char>|
            {
                &&& #[trigger] comparison_code(cond, reg) == operator_text(k, reg, ls)
                &&& forall|x: int, y: int| arm_condition_holds(cond, x, y) == c_comparison_holds(k, x, y)
            },
{
    reveal_strlit("cmp w0, w1\ncset ");
    reveal_strlit(", eq");
    reveal_strlit(", ne");
    reveal_strlit(", ge");
    reveal_strlit(", gt");
    reveal_strlit(", le");
    reveal_strlit(", lt");
    reveal_strlit(", ");
    reveal_strlit("eq");
    reveal_strlit("ne");
    reveal_strlit("ge");
    reveal_strlit("gt");
    reveal_strlit("le");
    reveal_strlit("lt");
    let cond: Seq<char> = match k {
        KindView::EqOp(EqType::Eq) => "eq"@,
        KindView::EqOp(EqType::Ne) => "ne"@,
        KindView::CmpOp(CmpType::Ge) => "ge"@,
        KindView::CmpOp(CmpType::Gt) => "gt"@,
        KindView::CmpOp(CmpType::Le) => "le"@,
        _ => "lt"@,
    };
    assert(comparison_code(cond, reg) =~= operator_text(k, reg, ls));
    assert forall|x: int, y: int| arm_condition_holds(cond, x, y) == c_comparison_holds(k, x, y) by {
        assert("eq"@[0] != "ne"@[0]);
        assert("eq"@[0] != "ge"@[0]);
        assert("eq"@[0] != "gt"@[0]);
        assert("eq"@[0] != "le"@[0]);
        assert("eq"@[0] != "lt"@[0]);
        assert("ne"@[0] != "ge"@[0]);
        assert("ne"@[0] != "gt"@[0]);
        assert("ne"@[0] != "le"@[0]);
        assert("ne"@[0] != "lt"@[0]);
        assert("ge"@[1] != "gt"@[1]);
        assert("ge"@[0] != "le"@[0]);
        assert("ge"@[0] != "lt"@[0]);
        assert("gt"@[0] != "le"@[0]);
        assert("gt"@[0] != "lt"@[0]);
        assert("le"@[1] != "lt"@[1]);
    }
}

/// What an ARM instruction `<m> reg, reg` leaves in `reg` for the value `x`.
pub open spec fn arm_unary_value(m: Seq<char>, x: int) -> Option<int> {
    if m == "neg"@ {
        Some(-x)
    } else if m == "mvn"@ {
        Some(-x - 1)
    } else {
        None
    }
}

/// The value of the C unary operator `op` applied to `x` (bitwise complement on two's
/// complement values, logical negation as 1 or 0).
pub open spec fn c_unary_value(op: char, x: int) -> int {
    if op == '-' {
        -x
    } else if op == '~' {
        -x - 1
    } else if x == 0 {
        1
    } else {
        0
    }
}

/// `<m> reg, reg`.
pub open spec fn unary_instruction(m: Seq<char>, reg: Seq<char>) -> Seq<char> {
    m + " "@ + reg + ", "@ + reg + "\n"@
}

/// `cmp reg, #0` then `cset reg, <cond>`.
pub open spec fn zero_test_code(cond: Seq<char>, reg: Seq<char>) -> Seq<char> {
    "cmp "@ + reg + ", #0\ncset "@ + reg + ", "@ + cond + "\n"@
}

/// The code after the operand of a unary operator computes the C operator: `-` and `~`
/// become one instruction whose value is the C value, and `!` a test against zero that
/// sets the register exactly when the operand is 0.
pub proof fn law_unary_code_computes_c(op: char, reg: Seq<char>)
    requires
        unary_op_known(op),
    ensures
        op != '!' ==> exists|m: Seq<char>|
            #[trigger] unary_instruction(m, reg) == unary_suffix(op, reg) && (forall|x: int|
                arm_unary_value(m, x) == Some(c_unary_value(op, x))),
        op == '!' ==> exists|cond: Seq<char>|
            #[trigger] zero_test_code(cond, reg) == unary_suffix(op, reg) && (forall|x: int|
                (if arm_condition_holds(cond, x, 0) { 1int } else { 0int }) == c_unary_value(op, x)),
{
    reveal_strlit("neg ");
    reveal_strlit("mvn ");
    reveal_strlit("neg");
    reveal_strlit("mvn");
    reveal_strlit(" ");
    reveal_strlit(", ");
    reveal_strlit("\n");
    reveal_strlit("cmp ");
    reveal_strlit(", #0\ncset ");
    reveal_strlit(", eq\n");
    reveal_strlit("eq");
    if op == '-' {
        assert(unary_instruction("neg"@, reg) =~= unary_suffix(op, reg));
    } else if op == '~' {
        assert("mvn"@ != "neg"@) by {
            assert("mvn"@[0] != "neg"@[0]);
        }
        assert(unary_instruction("mvn"@, reg) =~= unary_suffix(op, reg));
    } else {
        assert(zero_test_code("eq"@, reg) =~= unary_suffix(op, reg));
    }
}

/// A number that tells apart the texts of at most three characters.
spec fn text_code(x: Seq<char>) -> int {
    let b: int = 2097152;
    let c0: int = if x.len() > 0 { x[0] as int } else { 0 };
    let c1: int = if x.len() > 1 { x[1] as int } else { 0 };
    let c2: int = if x.len() > 2 { x[2] as int } else { 0 };
    x.len() + 4 * (c0 + b * (c1 + b * c2))
}

proof fn lemma_operator_text_complete(t: Token, k: KindView)
    requires
        operator_source_text(k) is Some,
        operator_source_text(k) == token_source_text(t),
    ensures
        0 <= c_precedence(k) <= 9,
        binary_operator(c_precedence(k) as nat, t) == Some(k),
{
    reveal_strlit("{");
    assert("{"@ =~= seq!['{']);
    reveal_strlit("}");
    assert("}"@ =~= seq!['}']);
    reveal_strlit("(");
    assert("("@ =~= seq!['(']);
    reveal_strlit(")");
    assert(")"@ =~= seq![')']);
    reveal_strlit(";");
    assert(";"@ =~= seq![';']);
    reveal_strlit("+=");
    assert("+="@ =~= seq!['+', '=']);
    reveal_strlit("-=");
    assert("-="@ =~= seq!['-', '=']);
    reveal_strlit("*=");
    assert("*="@ =~= seq!['*', '=']);
    reveal_strlit("/=");
    assert("/="@ =~= seq!['/', '=']);
    reveal_strlit("%=");
    assert("%="@ =~= seq!['%', '=']);
    reveal_strlit("<<=");
    assert("<<="@ =~= seq!['<', '<', '=']);
    reveal_strlit(">>=");
    assert(">>="@ =~= seq!['>', '>', '=']);
    reveal_strlit("&=");
    assert("&="@ =~= seq!['&', '=']);
    reveal_strlit("^=");
    assert("^="@ =~= seq!['^', '=']);
    reveal_strlit("|=");
    assert("|="@ =~= seq!['|', '=']);
    reveal_strlit("%");
    assert("%"@ =~= seq!['%']);
    reveal_strlit("+");
    assert("+"@ =~= seq!['+']);
    reveal_strlit("-");
    assert("-"@ =~= seq!['-']);
    reveal_strlit("*");
    assert("*"@ =~= seq!['*']);
    reveal_strlit("/");
    assert("/"@ =~= seq!['/']);
    reveal_strlit("<<");
    assert("<<"@ =~= seq!['<', '<']);
    reveal_strlit(">>");
    assert(">>"@ =~= seq!['>', '>']);
    reveal_strlit("<=");
    assert("<="@ =~= seq!['<', '=']);
    reveal_strlit(">=");
    assert(">="@ =~= seq!['>', '=']);
    reveal_strlit("<");
    assert("<"@ =~= seq!['<']);
    reveal_strlit(">");
    assert(">"@ =~= seq!['>']);
    reveal_strlit("==");
    assert("=="@ =~= seq!['=', '=']);
    reveal_strlit("!=");
    assert("!="@ =~= seq!['!', '=']);
    reveal_strlit("&&");
    assert("&&"@ =~= seq!['&', '&']);
    reveal_strlit("||");
    assert("||"@ =~= seq!['|', '|']);
    reveal_strlit("&");
    assert("&"@ =~= seq!['&']);
    reveal_strlit("^");
    assert("^"@ =~= seq!['^']);
    reveal_strlit("|");
    assert("|"@ =~= seq!['|']);
    reveal_strlit("~");
    assert("~"@ =~= seq!['~']);
    reveal_strlit("!");
    assert("!"@ =~= seq!['!']);
    reveal_strlit("=");
    assert("="@ =~= seq!['=']);
    assert(text_code(operator_source_text(k)->0) == text_code(token_source_text(t)->0));
    match t {
        Token::LeftBrace => {
            assert(text_code(token_source_text(t)->0) == 493);
            match k {
                KindView::MultDivOp(c) => {
                    if c == '*' {
                        assert(text_code(seq![c]) == 169);
                    } else {
                        assert(text_code(seq![c]) == 189);
                    }
                },
                KindView::AddSubOp(c) => {
                    if c == '+' {
                        assert(text_code(seq![c]) == 173);
                    } else {
                        assert(text_code(seq![c]) == 181);
                    }
                },
                KindView::ShiftOp(ShiftType::Left) => {
                    assert(text_code(operator_source_text(k)->0) == 503316722);
                },
                KindView::ShiftOp(ShiftType::Right) => {
                    assert(text_code(operator_source_text(k)->0) == 520093946);
                },
                KindView::CmpOp(CmpType::Ge) => {
                    assert(text_code(operator_source_text(k)->0) == 511705338);
                },
                KindView::CmpOp(CmpType::Le) => {
                    assert(text_code(operator_source_text(k)->0) == 511705330);
                },
                KindView::CmpOp(CmpType::Gt) => {
                    assert(text_code(operator_source_text(k)->0) == 249);
                },
                KindView::CmpOp(CmpType::Lt) => {
                    assert(text_code(operator_source_text(k)->0) == 241);
                },
                KindView::EqOp(EqType::Eq) => {
                    assert(text_code(operator_source_text(k)->0) == 511705334);
                },
                KindView::EqOp(EqType::Ne) => {
                    assert(text_code(operator_source_text(k)->0) == 511705222);
                },
                KindView::BAndOp => {
                    assert(text_code(operator_source_text(k)->0) == 153);
                },
                KindView::BXOrOp => {
                    assert(text_code(operator_source_text(k)->0) == 377);
                },
                KindView::BOrOp => {
                    assert(text_code(operator_source_text(k)->0) == 497);
                },
                KindView::LAndOp => {
                    assert(text_code(operator_source_text(k)->0) == 318767258);
                },
                KindView::LOrOp => {
                    assert(text_code(operator_source_text(k)->0) == 1040187890);
                },
                _ => {},
            }
        },
        Token::RightBrace => {
            assert(text_code(token_source_text(t)->0) == 501);
            match k {
                KindView::MultDivOp(c) => {
                    if c == '*' {
                        assert(text_code(seq![c]) == 169);
                    } else {
                        assert(text_code(seq![c]) == 189);
                    }
                },
                KindView::AddSubOp(c) => {
                    if c == '+' {
                        assert(text_code(seq![c]) == 173);
                    } else {
                        assert(text_code(seq![c]) == 181);
                    }
                },
                KindView::ShiftOp(ShiftType::Left) => {
                    assert(text_code(operator_source_text(k)->0) == 503316722);
                },
                KindView::ShiftOp(ShiftType::Right) => {
                    assert(text_code(operator_source_text(k)->0) == 520093946);
                },
                KindView::CmpOp(CmpType::Ge) => {
                    assert(text_code(operator_source_text(k)->0) == 511705338);
                },
                KindView::CmpOp(CmpType::Le) => {
                    assert(text_code(operator_source_text(k)->0) == 511705330);
                },
                KindView::CmpOp(CmpType::Gt) => {
                    assert(text_code(operator_source_text(k)->0) == 249);
                },
                KindView::CmpOp(CmpType::Lt) => {
                    assert(text_code(operator_source_text(k)->0) == 241);
                },
                KindView::EqOp(EqType::Eq) => {
                    assert(text_code(operator_source_text(k)->0) == 511705334);
                },
                KindView::EqOp(EqType::Ne) => {
                    assert(text_code(operator_source_text(k)->0) == 511705222);
                },
                KindView::BAndOp => {
                    assert(text_code(operator_source_text(k)->0) == 153);
                },
                KindView::BXOrOp => {
                    assert(text_code(operator_source_text(k)->0) == 377);
                },
                KindView::BOrOp => {
                    assert(text_code(operator_source_text(k)->0) == 497);
                },
                KindView::LAndOp => {
                    assert(text_code(operator_source_text(k)->0) == 318767258);
                },
                KindView::LOrOp => {
                    assert(text_code(operator_source_text(k)->0) == 1040187890);
                },
                _ => {},
            }
        },
        Token::LeftParen => {
            assert(text_code(token_source_text(t)->0) == 161);
            match k {
                KindView::MultDivOp(c) => {
                    if c == '*' {
                        assert(text_code(seq![c]) == 169);
                    } else {
                        assert(text_code(seq![c]) == 189);
                    }
                },
                KindView::AddSubOp(c) => {
                    if c == '+' {
                        assert(text_code(seq![c]) == 173);
                    } else {
                        assert(text_code(seq![c]) == 181);
                    }
                },
                KindView::ShiftOp(ShiftType::Left) => {
                    assert(text_code(operator_source_text(k)->0) == 503316722);
                },
                KindView::ShiftOp(ShiftType::Right) => {
                    assert(text_code(operator_source_text(k)->0) == 520093946);
                },
                KindView::CmpOp(CmpType::Ge) => {
                    assert(text_code(operator_source_text(k)->0) == 511705338);
                },
                KindView::CmpOp(CmpType::Le) => {
                    assert(text_code(operator_source_text(k)->0) == 511705330);
                },
                KindView::CmpOp(CmpType::Gt) => {
                    assert(text_code(operator_source_text(k)->0) == 249);
                },
                KindView::CmpOp(CmpType::Lt) => {
                    assert(text_code(operator_source_text(k)->0) == 241);
                },
                KindView::EqOp(EqType::Eq) => {
                    assert(text_code(operator_source_text(k)->0) == 511705334);
                },
                KindView::EqOp(EqType::Ne) => {
                    assert(text_code(operator_source_text(k)->0) == 511705222);
                },
                KindView::BAndOp => {
                    assert(text_code(operator_source_text(k)->0) == 153);
                },
                KindView::BXOrOp => {
                    assert(text_code(operator_source_text(k)->0) == 377);
                },
                KindView::BOrOp => {
                    assert(text_code(operator_source_text(k)->0) == 497);
                },
                KindView::LAndOp => {
                    assert(text_code(operator_source_text(k)->0) == 318767258);
                },
                KindView::LOrOp => {
                    assert(text_code(operator_source_text(k)->0) == 1040187890);
                },
                _ => {},
            }
        },
        Token::RightParen => {
            assert(text_code(token_source_text(t)->0) == 165);
            match k {
                KindView::MultDivOp(c) => {
                    if c == '*' {
                        assert(text_code(seq![c]) == 169);
                    } else {
                        assert(text_code(seq![c]) == 189);
                    }
                },
                KindView::AddSubOp(c) => {
                    if c == '+' {
                        assert(text_code(seq![c]) == 173);
                    } else {
                        assert(text_code(seq![c]) == 181);
                    }
                },
                KindView::ShiftOp(ShiftType::Left) => {
                    assert(text_code(operator_source_text(k)->0) == 503316722);
                },
                KindView::ShiftOp(ShiftType::Right) => {
                    assert(text_code(operator_source_text(k)->0) == 520093946);
                },
                KindView::CmpOp(CmpType::Ge) => {
                    assert(text_code(operator_source_text(k)->0) == 511705338);
                },
                KindView::CmpOp(CmpType::Le) => {
                    assert(text_code(operator_source_text(k)->0) == 511705330);
                },
                KindView::CmpOp(CmpType::Gt) => {
                    assert(text_code(operator_source_text(k)->0) == 249);
                },
                KindView::CmpOp(CmpType::Lt) => {
                    assert(text_code(operator_source_text(k)->0) == 241);
                },
                KindView::EqOp(EqType::Eq) => {
                    assert(text_code(operator_source_text(k)->0) == 511705334);
                },
                KindView::EqOp(EqType::Ne) => {
                    assert(text_code(operator_source_text(k)->0) == 511705222);
                },
                KindView::BAndOp => {
                    assert(text_code(operator_source_text(k)->0) == 153);
                },
                KindView::BXOrOp => {
                    assert(text_code(operator_source_text(k)->0) == 377);
                },
                KindView::BOrOp => {
                    assert(text_code(operator_source_text(k)->0) == 497);
                },
                KindView::LAndOp => {
                    assert(text_code(operator_source_text(k)->0) == 318767258);
                },
                KindView::LOrOp => {
                    assert(text_code(operator_source_text(k)->0) == 1040187890);
                },
                _ => {},
            }
        },
        Token::Semicolon => {
            assert(text_code(token_source_text(t)->0) == 237);
            match k {
                KindView::MultDivOp(c) => {
                    if c == '*' {
                        assert(text_code(seq![c]) == 169);
                    } else {
                        assert(text_code(seq![c]) == 189);
                    }
                },
                KindView::AddSubOp(c) => {
                    if c == '+' {
                        assert(text_code(seq![c]) == 173);
                    } else {
                        assert(text_code(seq![c]) == 181);
                    }
                },
                KindView::ShiftOp(ShiftType::Left) => {
                    assert(text_code(operator_source_text(k)->0) == 503316722);
                },
                KindView::ShiftOp(ShiftType::Right) => {
                    assert(text_code(operator_source_text(k)->0) == 520093946);
                },
                KindView::CmpOp(CmpType::Ge) => {
                    assert(text_code(operator_source_text(k)->0) == 511705338);
                },
                KindView::CmpOp(CmpType::Le) => {
                    assert(text_code(operator_source_text(k)->0) == 511705330);
                },
                KindView::CmpOp(CmpType::Gt) => {
                    assert(text_code(operator_source_text(k)->0) == 249);
                },
                KindView::CmpOp(CmpType::Lt) => {
                    assert(text_code(operator_source_text(k)->0) == 241);
                },
                KindView::EqOp(EqType::Eq) => {
                    assert(text_code(operator_source_text(k)->0) == 511705334);
                },
                KindView::EqOp(EqType::Ne) => {
                    assert(text_code(operator_source_text(k)->0) == 511705222);
                },
                KindView::BAndOp => {
                    assert(text_code(operator_source_text(k)->0) == 153);
                },
                KindView::BXOrOp => {
                    assert(text_code(operator_source_text(k)->0) == 377);
                },
                KindView::BOrOp => {
                    assert(text_code(operator_source_text(k)->0) == 497);
                },
                KindView::LAndOp => {
                    assert(text_code(operator_source_text(k)->0) == 318767258);
                },
                KindView::LOrOp => {
                    assert(text_code(operator_source_text(k)->0) == 1040187890);
                },
                _ => {},
            }
        },
        Token::SumAssign => {
            assert(text_code(token_source_text(t)->0) == 511705262);
            match k {
                KindView::MultDivOp(c) => {
                    if c == '*' {
                        assert(text_code(seq![c]) == 169);
                    } else {
                        assert(text_code(seq![c]) == 189);
                    }
                },
                KindView::AddSubOp(c) => {
                    if c == '+' {
                        assert(text_code(seq![c]) == 173);
                    } else {
                        assert(text_code(seq![c]) == 181);
                    }
                },
                KindView::ShiftOp(ShiftType::Left) => {
                    assert(text_code(operator_source_text(k)->0) == 503316722);
                },
                KindView::ShiftOp(ShiftType::Right) => {
                    assert(text_code(operator_source_text(k)->0) == 520093946);
                },
                KindView::CmpOp(CmpType::Ge) => {
                    assert(text_code(operator_source_text(k)->0) == 511705338);
                },
                KindView::CmpOp(CmpType::Le) => {
                    assert(text_code(operator_source_text(k)->0) == 511705330);
                },
                KindView::CmpOp(CmpType::Gt) => {
                    assert(text_code(operator_source_text(k)->0) == 249);
                },
                KindView::CmpOp(CmpType::Lt) => {
                    assert(text_code(operator_source_text(k)->0) == 241);
                },
                KindView::EqOp(EqType::Eq) => {
                    assert(text_code(operator_source_text(k)->0) == 511705334);
                },
                KindView::EqOp(EqType::Ne) => {
                    assert(text_code(operator_source_text(k)->0) == 511705222);
                },
                KindView::BAndOp => {
                    assert(text_code(operator_source_text(k)->0) == 153);
                },
                KindView::BXOrOp => {
                    assert(text_code(operator_source_text(k)->0) == 377);
                },
                KindView::BOrOp => {
                    assert(text_code(operator_source_text(k)->0) == 497);
                },
                KindView::LAndOp => {
                    assert(text_code(operator_source_text(k)->0) == 318767258);
                },
                KindView::LOrOp => {
                    assert(text_code(operator_source_text(k)->0) == 1040187890);
                },
                _ => {},
            }
        },
        Token::DiffAssign => {
            assert(text_code(token_source_text(t)->0) == 511705270);
            match k {
                KindView::MultDivOp(c) => {
                    if c == '*' {
                        assert(text_code(seq![c]) == 169);
                    } else {
                        assert(text_code(seq![c]) == 189);
                    }
                },
                KindView::AddSubOp(c) => {
                    if c == '+' {
                        assert(text_code(seq![c]) == 173);
                    } else {
                        assert(text_code(seq![c]) == 181);
                    }
                },
                KindView::ShiftOp(ShiftType::Left) => {
                    assert(text_code(operator_source_text(k)->0) == 503316722);
                },
                KindView::ShiftOp(ShiftType::Right) => {
                    assert(text_code(operator_source_text(k)->0) == 520093946);
                },
                KindView::CmpOp(CmpType::Ge) => {
                    assert(text_code(operator_source_text(k)->0) == 511705338);
                },
                KindView::CmpOp(CmpType::Le) => {
                    assert(text_code(operator_source_text(k)->0) == 511705330);
                },
                KindView::CmpOp(CmpType::Gt) => {
                    assert(text_code(operator_source_text(k)->0) == 249);
                },
                KindView::CmpOp(CmpType::Lt) => {
                    assert(text_code(operator_source_text(k)->0) == 241);
                },
                KindView::EqOp(EqType::Eq) => {
                    assert(text_code(operator_source_text(k)->0) == 511705334);
                },
                KindView::EqOp(EqType::Ne) => {
                    assert(text_code(operator_source_text(k)->0) == 511705222);
                },
                KindView::BAndOp => {
                    assert(text_code(operator_source_text(k)->0) == 153);
                },
                KindView::BXOrOp => {
                    assert(text_code(operator_source_text(k)->0) == 377);
                },
                KindView::BOrOp => {
                    assert(text_code(operator_source_text(k)->0) == 497);
                },
                KindView::LAndOp => {
                    assert(text_code(operator_source_text(k)->0) == 318767258);
                },
                KindView::LOrOp => {
                    assert(text_code(operator_source_text(k)->0) == 1040187890);
                },
                _ => {},
            }
        },
        Token::ProdAssign => {
            assert(text_code(token_source_text(t)->0) == 511705258);
            match k {
                KindView::MultDivOp(c) => {
                    if c == '*' {
                        assert(text_code(seq![c]) == 169);
                    } else {
                        assert(text_code(seq![c]) == 189);
                    }
                },
                KindView::AddSubOp(c) => {
                    if c == '+' {
                        assert(text_code(seq![c]) == 173);
                    } else {
                        assert(text_code(seq![c]) == 181);
                    }
                },
                KindView::ShiftOp(ShiftType::Left) => {
                    assert(text_code(operator_source_text(k)->0) == 503316722);
                },
                KindView::ShiftOp(ShiftType::Right) => {
                    assert(text_code(operator_source_text(k)->0) == 520093946);
                },
                KindView::CmpOp(CmpType::Ge) => {
                    assert(text_code(operator_source_text(k)->0) == 511705338);
                },
                KindView::CmpOp(CmpType::Le) => {
                    assert(text_code(operator_source_text(k)->0) == 511705330);
                },
                KindView::CmpOp(CmpType::Gt) => {
                    assert(text_code(operator_source_text(k)->0) == 249);
                },
                KindView::CmpOp(CmpType::Lt) => {
                    assert(text_code(operator_source_text(k)->0) == 241);
                },
                KindView::EqOp(EqType::Eq) => {
                    assert(text_code(operator_source_text(k)->0) == 511705334);
                },
                KindView::EqOp(EqType::Ne) => {
                    assert(text_code(operator_source_text(k)->0) == 511705222);
                },
                KindView::BAndOp => {
                    assert(text_code(operator_source_text(k)->0) == 153);
                },
                KindView::BXOrOp => {
                    assert(text_code(operator_source_text(k)->0) == 377);
                },
                KindView::BOrOp => {
                    assert(text_code(operator_source_text(k)->0) == 497);
                },
                KindView::LAndOp => {
                    assert(text_code(operator_source_text(k)->0) == 318767258);
                },
                KindView::LOrOp => {
                    assert(text_code(operator_source_text(k)->0) == 1040187890);
                },
                _ => {},
            }
        },
        Token::QuotAssign => {
            assert(text_code(token_source_text(t)->0) == 511705278);
            match k {
                KindView::MultDivOp(c) => {
                    if c == '*' {
                        assert(text_code(seq![c]) == 169);
                    } else {
                        assert(text_code(seq![c]) == 189);
                    }
                },
                KindView::AddSubOp(c) => {
                    if c == '+' {
                        assert(text_code(seq![c]) == 173);
                    } else {
                        assert(text_code(seq![c]) == 181);
                    }
                },
                KindView::ShiftOp(ShiftType::Left) => {
                    assert(text_code(operator_source_text(k)->0) == 503316722);
                },
                KindView::ShiftOp(ShiftType::Right) => {
                    assert(text_code(operator_source_text(k)->0) == 520093946);
                },
                KindView::CmpOp(CmpType::Ge) => {
                    assert(text_code(operator_source_text(k)->0) == 511705338);
                },
                KindView::CmpOp(CmpType::Le) => {
                    assert(text_code(operator_source_text(k)->0) == 511705330);
                },
                KindView::CmpOp(CmpType::Gt) => {
                    assert(text_code(operator_source_text(k)->0) == 249);
                },
                KindView::CmpOp(CmpType::Lt) => {
                    assert(text_code(operator_source_text(k)->0) == 241);
                },
                KindView::EqOp(EqType::Eq) => {
                    assert(text_code(operator_source_text(k)->0) == 511705334);
                },
                KindView::EqOp(EqType::Ne) => {
                    assert(text_code(operator_source_text(k)->0) == 511705222);
                },
                KindView::BAndOp => {
                    assert(text_code(operator_source_text(k)->0) == 153);
                },
                KindView::BXOrOp => {
                    assert(text_code(operator_source_text(k)->0) == 377);
                },
                KindView::BOrOp => {
                    assert(text_code(operator_source_text(k)->0) == 497);
                },
                KindView::LAndOp => {
                    assert(text_code(operator_source_text(k)->0) == 318767258);
                },
                KindView::LOrOp => {
                    assert(text_code(operator_source_text(k)->0) == 1040187890);
                },
                _ => {},
            }
        },
        Token::RemAssign => {
            assert(text_code(token_source_text(t)->0) == 511705238);
            match k {
                KindView::MultDivOp(c) => {
                    if c == '*' {
                        assert(text_code(seq![c]) == 169);
                    } else {
                        assert(text_code(seq![c]) == 189);
                    }
                },
                KindView::AddSubOp(c) => {
                    if c == '+' {
                        assert(text_code(seq![c]) == 173);
                    } else {
                        assert(text_code(seq![c]) == 181);
                    }
                },
                KindView::ShiftOp(ShiftType::Left) => {
                    assert(text_code(operator_source_text(k)->0) == 503316722);
                },
                KindView::ShiftOp(ShiftType::Right) => {
                    assert(text_code(operator_source_text(k)->0) == 520093946);
                },
                KindView::CmpOp(CmpType::Ge) => {
                    assert(text_code(operator_source_text(k)->0) == 511705338);
                },
                KindView::CmpOp(CmpType::Le) => {
                    assert(text_code(operator_source_text(k)->0) == 511705330);
                },
                KindView::CmpOp(CmpType::Gt) => {
                    assert(text_code(operator_source_text(k)->0) == 249);
                },
                KindView::CmpOp(CmpType::Lt) => {
                    assert(text_code(operator_source_text(k)->0) == 241);
                },
                KindView::EqOp(EqType::Eq) => {
                    assert(text_code(operator_source_text(k)->0) == 511705334);
                },
                KindView::EqOp(EqType::Ne) => {
                    assert(text_code(operator_source_text(k)->0) == 511705222);
                },
                KindView::BAndOp => {
                    assert(text_code(operator_source_text(k)->0) == 153);
                },
                KindView::BXOrOp => {
                    assert(text_code(operator_source_text(k)->0) == 377);
                },
                KindView::BOrOp => {
                    assert(text_code(operator_source_text(k)->0) == 497);
                },
                KindView::LAndOp => {
                    assert(text_code(operator_source_text(k)->0) == 318767258);
                },
                KindView::LOrOp => {
                    assert(text_code(operator_source_text(k)->0) == 1040187890);
                },
                _ => {},
            }
        },
        Token::LShAssign => {
            assert(text_code(token_source_text(t)->0) == 1073123852026099);
            match k {
                KindView::MultDivOp(c) => {
                    if c == '*' {
                        assert(text_code(seq![c]) == 169);
                    } else {
                        assert(text_code(seq![c]) == 189);
                    }
                },
                KindView::AddSubOp(c) => {
                    if c == '+' {
                        assert(text_code(seq![c]) == 173);
                    } else {
                        assert(text_code(seq![c]) == 181);
                    }
                },
                KindView::ShiftOp(ShiftType::Left) => {
                    assert(text_code(operator_source_text(k)->0) == 503316722);
                },
                KindView::ShiftOp(ShiftType::Right) => {
                    assert(text_code(operator_source_text(k)->0) == 520093946);
                },
                KindView::CmpOp(CmpType::Ge) => {
                    assert(text_code(operator_source_text(k)->0) == 511705338);
                },
                KindView::CmpOp(CmpType::Le) => {
                    assert(text_code(operator_source_text(k)->0) == 511705330);
                },
                KindView::CmpOp(CmpType::Gt) => {
                    assert(text_code(operator_source_text(k)->0) == 249);
                },
                KindView::CmpOp(CmpType::Lt) => {
                    assert(text_code(operator_source_text(k)->0) == 241);
                },
                KindView::EqOp(EqType::Eq) => {
                    assert(text_code(operator_source_text(k)->0) == 511705334);
                },
                KindView::EqOp(EqType::Ne) => {
                    assert(text_code(operator_source_text(k)->0) == 511705222);
                },
                KindView::BAndOp => {
                    assert(text_code(operator_source_text(k)->0) == 153);
                },
                KindView::BXOrOp => {
                    assert(text_code(operator_source_text(k)->0) == 377);
                },
                KindView::BOrOp => {
                    assert(text_code(operator_source_text(k)->0) == 497);
                },
                KindView::LAndOp => {
                    assert(text_code(operator_source_text(k)->0) == 318767258);
                },
                KindView::LOrOp => {
                    assert(text_code(operator_source_text(k)->0) == 1040187890);
                },
                _ => {},
            }
        },
        Token::RShAssign => {
            assert(text_code(token_source_text(t)->0) == 1073123868803323);
            match k {
                KindView::MultDivOp(c) => {
                    if c == '*' {
                        assert(text_code(seq![c]) == 169);
                    } else {
                        assert(text_code(seq![c]) == 189);
                    }
                },
                KindView::AddSubOp(c) => {
                    if c == '+' {
                        assert(text_code(seq![c]) == 173);
                    } else {
                        assert(text_code(seq![c]) == 181);
                    }
                },
                KindView::ShiftOp(ShiftType::Left) => {
                    assert(text_code(operator_source_text(k)->0) == 503316722);
                },
                KindView::ShiftOp(ShiftType::Right) => {
                    assert(text_code(operator_source_text(k)->0) == 520093946);
                },
                KindView::CmpOp(CmpType::Ge) => {
                    assert(text_code(operator_source_text(k)->0) == 511705338);
                },
                KindView::CmpOp(CmpType::Le) => {
                    assert(text_code(operator_source_text(k)->0) == 511705330);
                },
                KindView::CmpOp(CmpType::Gt) => {
                    assert(text_code(operator_source_text(k)->0) == 249);
                },
                KindView::CmpOp(CmpType::Lt) => {
                    assert(text_code(operator_source_text(k)->0) == 241);
                },
                KindView::EqOp(EqType::Eq) => {
                    assert(text_code(operator_source_text(k)->0) == 511705334);
                },
                KindView::EqOp(EqType::Ne) => {
                    assert(text_code(operator_source_text(k)->0) == 511705222);
                },
                KindView::BAndOp => {
                    assert(text_code(operator_source_text(k)->0) == 153);
                },
                KindView::BXOrOp => {
                    assert(text_code(operator_source_text(k)->0) == 377);
                },
                KindView::BOrOp => {
                    assert(text_code(operator_source_text(k)->0) == 497);
                },
                KindView::LAndOp => {
                    assert(text_code(operator_source_text(k)->0) == 318767258);
                },
                KindView::LOrOp => {
                    assert(text_code(operator_source_text(k)->0) == 1040187890);
                },
                _ => {},
            }
        },
        Token::AndAssign => {
            assert(text_code(token_source_text(t)->0) == 511705242);
            match k {
                KindView::MultDivOp(c) => {
                    if c == '*' {
                        assert(text_code(seq![c]) == 169);
                    } else {
                        assert(text_code(seq![c]) == 189);
                    }
                },
                KindView::AddSubOp(c) => {
                    if c == '+' {
                        assert(text_code(seq![c]) == 173);
                    } else {
                        assert(text_code(seq![c]) == 181);
                    }
                },
                KindView::ShiftOp(ShiftType::Left) => {
                    assert(text_code(operator_source_text(k)->0) == 503316722);
                },
                KindView::ShiftOp(ShiftType::Right) => {
                    assert(text_code(operator_source_text(k)->0) == 520093946);
                },
                KindView::CmpOp(CmpType::Ge) => {
                    assert(text_code(operator_source_text(k)->0) == 511705338);
                },
                KindView::CmpOp(CmpType::Le) => {
                    assert(text_code(operator_source_text(k)->0) == 511705330);
                },
                KindView::CmpOp(CmpType::Gt) => {
                    assert(text_code(operator_source_text(k)->0) == 249);
                },
                KindView::CmpOp(CmpType::Lt) => {
                    assert(text_code(operator_source_text(k)->0) == 241);
                },
                KindView::EqOp(EqType::Eq) => {
                    assert(text_code(operator_source_text(k)->0) == 511705334);
                },
                KindView::EqOp(EqType::Ne) => {
                    assert(text_code(operator_source_text(k)->0) == 511705222);
                },
                KindView::BAndOp => {
                    assert(text_code(operator_source_text(k)->0) == 153);
                },
                KindView::BXOrOp => {
                    assert(text_code(operator_source_text(k)->0) == 377);
                },
                KindView::BOrOp => {
                    assert(text_code(operator_source_text(k)->0) == 497);
                },
                KindView::LAndOp => {
                    assert(text_code(operator_source_text(k)->0) == 318767258);
                },
                KindView::LOrOp => {
                    assert(text_code(operator_source_text(k)->0) == 1040187890);
                },
                _ => {},
            }
        },
        Token::XOrAssign => {
            assert(text_code(token_source_text(t)->0) == 511705466);
            match k {
                KindView::MultDivOp(c) => {
                    if c == '*' {
                        assert(text_code(seq![c]) == 169);
                    } else {
                        assert(text_code(seq![c]) == 189);
                    }
                },
                KindView::AddSubOp(c) => {
                    if c == '+' {
                        assert(text_code(seq![c]) == 173);
                    } else {
                        assert(text_code(seq![c]) == 181);
                    }
                },
                KindView::ShiftOp(ShiftType::Left) => {
                    assert(text_code(operator_source_text(k)->0) == 503316722);
                },
                KindView::ShiftOp(ShiftType::Right) => {
                    assert(text_code(operator_source_text(k)->0) == 520093946);
                },
                KindView::CmpOp(CmpType::Ge) => {
                    assert(text_code(operator_source_text(k)->0) == 511705338);
                },
                KindView::CmpOp(CmpType::Le) => {
                    assert(text_code(operator_source_text(k)->0) == 511705330);
                },
                KindView::CmpOp(CmpType::Gt) => {
                    assert(text_code(operator_source_text(k)->0) == 249);
                },
                KindView::CmpOp(CmpType::Lt) => {
                    assert(text_code(operator_source_text(k)->0) == 241);
                },
                KindView::EqOp(EqType::Eq) => {
                    assert(text_code(operator_source_text(k)->0) == 511705334);
                },
                KindView::EqOp(EqType::Ne) => {
                    assert(text_code(operator_source_text(k)->0) == 511705222);
                },
                KindView::BAndOp => {
                    assert(text_code(operator_source_text(k)->0) == 153);
                },
                KindView::BXOrOp => {
                    assert(text_code(operator_source_text(k)->0) == 377);
                },
                KindView::BOrOp => {
                    assert(text_code(operator_source_text(k)->0) == 497);
                },
                KindView::LAndOp => {
                    assert(text_code(operator_source_text(k)->0) == 318767258);
                },
                KindView::LOrOp => {
                    assert(text_code(operator_source_text(k)->0) == 1040187890);
                },
                _ => {},
            }
        },
        Token::OrAssign => {
            assert(text_code(token_source_text(t)->0) == 511705586);
            match k {
                KindView::MultDivOp(c) => {
                    if c == '*' {
                        assert(text_code(seq![c]) == 169);
                    } else {
                        assert(text_code(seq![c]) == 189);
                    }
                },
                KindView::AddSubOp(c) => {
                    if c == '+' {
                        assert(text_code(seq![c]) == 173);
                    } else {
                        assert(text_code(seq![c]) == 181);
                    }
                },
                KindView::ShiftOp(ShiftType::Left) => {
                    assert(text_code(operator_source_text(k)->0) == 503316722);
                },
                KindView::ShiftOp(ShiftType::Right) => {
                    assert(text_code(operator_source_text(k)->0) == 520093946);
                },
                KindView::CmpOp(CmpType::Ge) => {
                    assert(text_code(operator_source_text(k)->0) == 511705338);
                },
                KindView::CmpOp(CmpType::Le) => {
                    assert(text_code(operator_source_text(k)->0) == 511705330);
                },
                KindView::CmpOp(CmpType::Gt) => {
                    assert(text_code(operator_source_text(k)->0) == 249);
                },
                KindView::CmpOp(CmpType::Lt) => {
                    assert(text_code(operator_source_text(k)->0) == 241);
                },
                KindView::EqOp(EqType::Eq) => {
                    assert(text_code(operator_source_text(k)->0) == 511705334);
                },
                KindView::EqOp(EqType::Ne) => {
                    assert(text_code(operator_source_text(k)->0) == 511705222);
                },
                KindView::BAndOp => {
                    assert(text_code(operator_source_text(k)->0) == 153);
                },
                KindView::BXOrOp => {
                    assert(text_code(operator_source_text(k)->0) == 377);
                },
                KindView::BOrOp => {
                    assert(text_code(operator_source_text(k)->0) == 497);
                },
                KindView::LAndOp => {
                    assert(text_code(operator_source_text(k)->0) == 318767258);
                },
                KindView::LOrOp => {
                    assert(text_code(operator_source_text(k)->0) == 1040187890);
                },
                _ => {},
            }
        },
        Token::Remainder => {
            assert(text_code(token_source_text(t)->0) == 149);
            match k {
                KindView::MultDivOp(c) => {
                    if c == '*' {
                        assert(text_code(seq![c]) == 169);
                    } else {
                        assert(text_code(seq![c]) == 189);
                    }
                },
                KindView::AddSubOp(c) => {
                    if c == '+' {
                        assert(text_code(seq![c]) == 173);
                    } else {
                        assert(text_code(seq![c]) == 181);
                    }
                },
                KindView::ShiftOp(ShiftType::Left) => {
                    assert(text_code(operator_source_text(k)->0) == 503316722);
                },
                KindView::ShiftOp(ShiftType::Right) => {
                    assert(text_code(operator_source_text(k)->0) == 520093946);
                },
                KindView::CmpOp(CmpType::Ge) => {
                    assert(text_code(operator_source_text(k)->0) == 511705338);
                },
                KindView::CmpOp(CmpType::Le) => {
                    assert(text_code(operator_source_text(k)->0) == 511705330);
                },
                KindView::CmpOp(CmpType::Gt) => {
                    assert(text_code(operator_source_text(k)->0) == 249);
                },
                KindView::CmpOp(CmpType::Lt) => {
                    assert(text_code(operator_source_text(k)->0) == 241);
                },
                KindView::EqOp(EqType::Eq) => {
                    assert(text_code(operator_source_text(k)->0) == 511705334);
                },
                KindView::EqOp(EqType::Ne) => {
                    assert(text_code(operator_source_text(k)->0) == 511705222);
                },
                KindView::BAndOp => {
                    assert(text_code(operator_source_text(k)->0) == 153);
                },
                KindView::BXOrOp => {
                    assert(text_code(operator_source_text(k)->0) == 377);
                },
                KindView::BOrOp => {
                    assert(text_code(operator_source_text(k)->0) == 497);
                },
                KindView::LAndOp => {
                    assert(text_code(operator_source_text(k)->0) == 318767258);
                },
                KindView::LOrOp => {
                    assert(text_code(operator_source_text(k)->0) == 1040187890);
                },
                _ => {},
            }
        },
        Token::Plus => {
            assert(text_code(token_source_text(t)->0) == 173);
            match k {
                KindView::MultDivOp(c) => {
                    if c == '*' {
                        assert(text_code(seq![c]) == 169);
                    } else {
                        assert(text_code(seq![c]) == 189);
                    }
                },
                KindView::AddSubOp(c) => {
                    if c == '+' {
                        assert(text_code(seq![c]) == 173);
                    } else {
                        assert(text_code(seq![c]) == 181);
                    }
                },
                KindView::ShiftOp(ShiftType::Left) => {
                    assert(text_code(operator_source_text(k)->0) == 503316722);
                },
                KindView::ShiftOp(ShiftType::Right) => {
                    assert(text_code(operator_source_text(k)->0) == 520093946);
                },
                KindView::CmpOp(CmpType::Ge) => {
                    assert(text_code(operator_source_text(k)->0) == 511705338);
                },
                KindView::CmpOp(CmpType::Le) => {
                    assert(text_code(operator_source_text(k)->0) == 511705330);
                },
                KindView::CmpOp(CmpType::Gt) => {
                    assert(text_code(operator_source_text(k)->0) == 249);
                },
                KindView::CmpOp(CmpType::Lt) => {
                    assert(text_code(operator_source_text(k)->0) == 241);
                },
                KindView::EqOp(EqType::Eq) => {
                    assert(text_code(operator_source_text(k)->0) == 511705334);
                },
                KindView::EqOp(EqType::Ne) => {
                    assert(text_code(operator_source_text(k)->0) == 511705222);
                },
                KindView::BAndOp => {
                    assert(text_code(operator_source_text(k)->0) == 153);
                },
                KindView::BXOrOp => {
                    assert(text_code(operator_source_text(k)->0) == 377);
                },
                KindView::BOrOp => {
                    assert(text_code(operator_source_text(k)->0) == 497);
                },
                KindView::LAndOp => {
                    assert(text_code(operator_source_text(k)->0) == 318767258);
                },
                KindView::LOrOp => {
                    assert(text_code(operator_source_text(k)->0) == 1040187890);
                },
                _ => {},
            }
        },
        Token::Minus => {
            assert(text_code(token_source_text(t)->0) == 181);
            match k {
                KindView::MultDivOp(c) => {
                    if c == '*' {
                        assert(text_code(seq![c]) == 169);
                    } else {
                        assert(text_code(seq![c]) == 189);
                    }
                },
                KindView::AddSubOp(c) => {
                    if c == '+' {
                        assert(text_code(seq![c]) == 173);
                    } else {
                        assert(text_code(seq![c]) == 181);
                    }
                },
                KindView::ShiftOp(ShiftType::Left) => {
                    assert(text_code(operator_source_text(k)->0) == 503316722);
                },
                KindView::ShiftOp(ShiftType::Right) => {
                    assert(text_code(operator_source_text(k)->0) == 520093946);
                },
                KindView::CmpOp(CmpType::Ge) => {
                    assert(text_code(operator_source_text(k)->0) == 511705338);
                },
                KindView::CmpOp(CmpType::Le) => {
                    assert(text_code(operator_source_text(k)->0) == 511705330);
                },
                KindView::CmpOp(CmpType::Gt) => {
                    assert(text_code(operator_source_text(k)->0) == 249);
                },
                KindView::CmpOp(CmpType::Lt) => {
                    assert(text_code(operator_source_text(k)->0) == 241);
                },
                KindView::EqOp(EqType::Eq) => {
                    assert(text_code(operator_source_text(k)->0) == 511705334);
                },
                KindView::EqOp(EqType::Ne) => {
                    assert(text_code(operator_source_text(k)->0) == 511705222);
                },
                KindView::BAndOp => {
                    assert(text_code(operator_source_text(k)->0) == 153);
                },
                KindView::BXOrOp => {
                    assert(text_code(operator_source_text(k)->0) == 377);
                },
                KindView::BOrOp => {
                    assert(text_code(operator_source_text(k)->0) == 497);
                },
                KindView::LAndOp => {
                    assert(text_code(operator_source_text(k)->0) == 318767258);
                },
                KindView::LOrOp => {
                    assert(text_code(operator_source_text(k)->0) == 1040187890);
                },
                _ => {},
            }
        },
        Token::Times => {
            assert(text_code(token_source_text(t)->0) == 169);
            match k {
                KindView::MultDivOp(c) => {
                    if c == '*' {
                        assert(text_code(seq![c]) == 169);
                    } else {
                        assert(text_code(seq![c]) == 189);
                    }
                },
                KindView::AddSubOp(c) => {
                    if c == '+' {
                        assert(text_code(seq![c]) == 173);
                    } else {
                        assert(text_code(seq![c]) == 181);
                    }
                },
                KindView::ShiftOp(ShiftType::Left) => {
                    assert(text_code(operator_source_text(k)->0) == 503316722);
                },
                KindView::ShiftOp(ShiftType::Right) => {
                    assert(text_code(operator_source_text(k)->0) == 520093946);
                },
                KindView::CmpOp(CmpType::Ge) => {
                    assert(text_code(operator_source_text(k)->0) == 511705338);
                },
                KindView::CmpOp(CmpType::Le) => {
                    assert(text_code(operator_source_text(k)->0) == 511705330);
                },
                KindView::CmpOp(CmpType::Gt) => {
                    assert(text_code(operator_source_text(k)->0) == 249);
                },
                KindView::CmpOp(CmpType::Lt) => {
                    assert(text_code(operator_source_text(k)->0) == 241);
                },
                KindView::EqOp(EqType::Eq) => {
                    assert(text_code(operator_source_text(k)->0) == 511705334);
                },
                KindView::EqOp(EqType::Ne) => {
                    assert(text_code(operator_source_text(k)->0) == 511705222);
                },
                KindView::BAndOp => {
                    assert(text_code(operator_source_text(k)->0) == 153);
                },
                KindView::BXOrOp => {
                    assert(text_code(operator_source_text(k)->0) == 377);
                },
                KindView::BOrOp => {
                    assert(text_code(operator_source_text(k)->0) == 497);
                },
                KindView::LAndOp => {
                    assert(text_code(operator_source_text(k)->0) == 318767258);
                },
                KindView::LOrOp => {
                    assert(text_code(operator_source_text(k)->0) == 1040187890);
                },
                _ => {},
            }
        },
        Token::Divide => {
            assert(text_code(token_source_text(t)->0) == 189);
            match k {
                KindView::MultDivOp(c) => {
                    if c == '*' {
                        assert(text_code(seq![c]) == 169);
                    } else {
                        assert(text_code(seq![c]) == 189);
                    }
                },
                KindView::AddSubOp(c) => {
                    if c == '+' {
                        assert(text_code(seq![c]) == 173);
                    } else {
                        assert(text_code(seq![c]) == 181);
                    }
                },
                KindView::ShiftOp(ShiftType::Left) => {
                    assert(text_code(operator_source_text(k)->0) == 503316722);
                },
                KindView::ShiftOp(ShiftType::Right) => {
                    assert(text_code(operator_source_text(k)->0) == 520093946);
                },
                KindView::CmpOp(CmpType::Ge) => {
                    assert(text_code(operator_source_text(k)->0) == 511705338);
                },
                KindView::CmpOp(CmpType::Le) => {
                    assert(text_code(operator_source_text(k)->0) == 511705330);
                },
                KindView::CmpOp(CmpType::Gt) => {
                    assert(text_code(operator_source_text(k)->0) == 249);
                },
                KindView::CmpOp(CmpType::Lt) => {
                    assert(text_code(operator_source_text(k)->0) == 241);
                },
                KindView::EqOp(EqType::Eq) => {
                    assert(text_code(operator_source_text(k)->0) == 511705334);
                },
                KindView::EqOp(EqType::Ne) => {
                    assert(text_code(operator_source_text(k)->0) == 511705222);
                },
                KindView::BAndOp => {
                    assert(text_code(operator_source_text(k)->0) == 153);
                },
                KindView::BXOrOp => {
                    assert(text_code(operator_source_text(k)->0) == 377);
                },
                KindView::BOrOp => {
                    assert(text_code(operator_source_text(k)->0) == 497);
                },
                KindView::LAndOp => {
                    assert(text_code(operator_source_text(k)->0) == 318767258);
                },
                KindView::LOrOp => {
                    assert(text_code(operator_source_text(k)->0) == 1040187890);
                },
                _ => {},
            }
        },
        Token::LeftShift => {
            assert(text_code(token_source_text(t)->0) == 503316722);
            match k {
                KindView::MultDivOp(c) => {
                    if c == '*' {
                        assert(text_code(seq![c]) == 169);
                    } else {
                        assert(text_code(seq![c]) == 189);
                    }
                },
                KindView::AddSubOp(c) => {
                    if c == '+' {
                        assert(text_code(seq![c]) == 173);
                    } else {
                        assert(text_code(seq![c]) == 181);
                    }
                },
                KindView::ShiftOp(ShiftType::Left) => {
                    assert(text_code(operator_source_text(k)->0) == 503316722);
                },
                KindView::ShiftOp(ShiftType::Right) => {
                    assert(text_code(operator_source_text(k)->0) == 520093946);
                },
                KindView::CmpOp(CmpType::Ge) => {
                    assert(text_code(operator_source_text(k)->0) == 511705338);
                },
                KindView::CmpOp(CmpType::Le) => {
                    assert(text_code(operator_source_text(k)->0) == 511705330);
                },
                KindView::CmpOp(CmpType::Gt) => {
                    assert(text_code(operator_source_text(k)->0) == 249);
                },
                KindView::CmpOp(CmpType::Lt) => {
                    assert(text_code(operator_source_text(k)->0) == 241);
                },
                KindView::EqOp(EqType::Eq) => {
                    assert(text_code(operator_source_text(k)->0) == 511705334);
                },
                KindView::EqOp(EqType::Ne) => {
                    assert(text_code(operator_source_text(k)->0) == 511705222);
                },
                KindView::BAndOp => {
                    assert(text_code(operator_source_text(k)->0) == 153);
                },
                KindView::BXOrOp => {
                    assert(text_code(operator_source_text(k)->0) == 377);
                },
                KindView::BOrOp => {
                    assert(text_code(operator_source_text(k)->0) == 497);
                },
                KindView::LAndOp => {
                    assert(text_code(operator_source_text(k)->0) == 318767258);
                },
                KindView::LOrOp => {
                    assert(text_code(operator_source_text(k)->0) == 1040187890);
                },
                _ => {},
            }
        },
        Token::RightShift => {
            assert(text_code(token_source_text(t)->0) == 520093946);
            match k {
                KindView::MultDivOp(c) => {
                    if c == '*' {
                        assert(text_code(seq![c]) == 169);
                    } else {
                        assert(text_code(seq![c]) == 189);
                    }
                },
                KindView::AddSubOp(c) => {
                    if c == '+' {
                        assert(text_code(seq![c]) == 173);
                    } else {
                        assert(text_code(seq![c]) == 181);
                    }
                },
                KindView::ShiftOp(ShiftType::Left) => {
                    assert(text_code(operator_source_text(k)->0) == 503316722);
                },
                KindView::ShiftOp(ShiftType::Right) => {
                    assert(text_code(operator_source_text(k)->0) == 520093946);
                },
                KindView::CmpOp(CmpType::Ge) => {
                    assert(text_code(operator_source_text(k)->0) == 511705338);
                },
                KindView::CmpOp(CmpType::Le) => {
                    assert(text_code(operator_source_text(k)->0) == 511705330);
                },
                KindView::CmpOp(CmpType::Gt) => {
                    assert(text_code(operator_source_text(k)->0) == 249);
                },
                KindView::CmpOp(CmpType::Lt) => {
                    assert(text_code(operator_source_text(k)->0) == 241);
                },
                KindView::EqOp(EqType::Eq) => {
                    assert(text_code(operator_source_text(k)->0) == 511705334);
                },
                KindView::EqOp(EqType::Ne) => {
                    assert(text_code(operator_source_text(k)->0) == 511705222);
                },
                KindView::BAndOp => {
                    assert(text_code(operator_source_text(k)->0) == 153);
                },
                KindView::BXOrOp => {
                    assert(text_code(operator_source_text(k)->0) == 377);
                },
                KindView::BOrOp => {
                    assert(text_code(operator_source_text(k)->0) == 497);
                },
                KindView::LAndOp => {
                    assert(text_code(operator_source_text(k)->0) == 318767258);
                },
                KindView::LOrOp => {
                    assert(text_code(operator_source_text(k)->0) == 1040187890);
                },
                _ => {},
            }
        },
        Token::Le => {
            assert(text_code(token_source_text(t)->0) == 511705330);
            match k {
                KindView::MultDivOp(c) => {
                    if c == '*' {
                        assert(text_code(seq![c]) == 169);
                    } else {
                        assert(text_code(seq![c]) == 189);
                    }
                },
                KindView::AddSubOp(c) => {
                    if c == '+' {
                        assert(text_code(seq![c]) == 173);
                    } else {
                        assert(text_code(seq![c]) == 181);
                    }
                },
                KindView::ShiftOp(ShiftType::Left) => {
                    assert(text_code(operator_source_text(k)->0) == 503316722);
                },
                KindView::ShiftOp(ShiftType::Right) => {
                    assert(text_code(operator_source_text(k)->0) == 520093946);
                },
                KindView::CmpOp(CmpType::Ge) => {
                    assert(text_code(operator_source_text(k)->0) == 511705338);
                },
                KindView::CmpOp(CmpType::Le) => {
                    assert(text_code(operator_source_text(k)->0) == 511705330);
                },
                KindView::CmpOp(CmpType::Gt) => {
                    assert(text_code(operator_source_text(k)->0) == 249);
                },
                KindView::CmpOp(CmpType::Lt) => {
                    assert(text_code(operator_source_text(k)->0) == 241);
                },
                KindView::EqOp(EqType::Eq) => {
                    assert(text_code(operator_source_text(k)->0) == 511705334);
                },
                KindView::EqOp(EqType::Ne) => {
                    assert(text_code(operator_source_text(k)->0) == 511705222);
                },
                KindView::BAndOp => {
                    assert(text_code(operator_source_text(k)->0) == 153);
                },
                KindView::BXOrOp => {
                    assert(text_code(operator_source_text(k)->0) == 377);
                },
                KindView::BOrOp => {
                    assert(text_code(operator_source_text(k)->0) == 497);
                },
                KindView::LAndOp => {
                    assert(text_code(operator_source_text(k)->0) == 318767258);
                },
                KindView::LOrOp => {
                    assert(text_code(operator_source_text(k)->0) == 1040187890);
                },
                _ => {},
            }
        },
        Token::Ge => {
            assert(text_code(token_source_text(t)->0) == 511705338);
            match k {
                KindView::MultDivOp(c) => {
                    if c == '*' {
                        assert(text_code(seq![c]) == 169);
                    } else {
                        assert(text_code(seq![c]) == 189);
                    }
                },
                KindView::AddSubOp(c) => {
                    if c == '+' {
                        assert(text_code(seq![c]) == 173);
                    } else {
                        assert(text_code(seq![c]) == 181);
                    }
                },
                KindView::ShiftOp(ShiftType::Left) => {
                    assert(text_code(operator_source_text(k)->0) == 503316722);
                },
                KindView::ShiftOp(ShiftType::Right) => {
                    assert(text_code(operator_source_text(k)->0) == 520093946);
                },
                KindView::CmpOp(CmpType::Ge) => {
                    assert(text_code(operator_source_text(k)->0) == 511705338);
                },
                KindView::CmpOp(CmpType::Le) => {
                    assert(text_code(operator_source_text(k)->0) == 511705330);
                },
                KindView::CmpOp(CmpType::Gt) => {
                    assert(text_code(operator_source_text(k)->0) == 249);
                },
                KindView::CmpOp(CmpType::Lt) => {
                    assert(text_code(operator_source_text(k)->0) == 241);
                },
                KindView::EqOp(EqType::Eq) => {
                    assert(text_code(operator_source_text(k)->0) == 511705334);
                },
                KindView::EqOp(EqType::Ne) => {
                    assert(text_code(operator_source_text(k)->0) == 511705222);
                },
                KindView::BAndOp => {
                    assert(text_code(operator_source_text(k)->0) == 153);
                },
                KindView::BXOrOp => {
                    assert(text_code(operator_source_text(k)->0) == 377);
                },
                KindView::BOrOp => {
                    assert(text_code(operator_source_text(k)->0) == 497);
                },
                KindView::LAndOp => {
                    assert(text_code(operator_source_text(k)->0) == 318767258);
                },
                KindView::LOrOp => {
                    assert(text_code(operator_source_text(k)->0) == 1040187890);
                },
                _ => {},
            }
        },
        Token::Lt => {
            assert(text_code(token_source_text(t)->0) == 241);
            match k {
                KindView::MultDivOp(c) => {
                    if c == '*' {
                        assert(text_code(seq![c]) == 169);
                    } else {
                        assert(text_code(seq![c]) == 189);
                    }
                },
                KindView::AddSubOp(c) => {
                    if c == '+' {
                        assert(text_code(seq![c]) == 173);
                    } else {
                        assert(text_code(seq![c]) == 181);
                    }
                },
                KindView::ShiftOp(ShiftType::Left) => {
                    assert(text_code(operator_source_text(k)->0) == 503316722);
                },
                KindView::ShiftOp(ShiftType::Right) => {
                    assert(text_code(operator_source_text(k)->0) == 520093946);
                },
                KindView::CmpOp(CmpType::Ge) => {
                    assert(text_code(operator_source_text(k)->0) == 511705338);
                },
                KindView::CmpOp(CmpType::Le) => {
                    assert(text_code(operator_source_text(k)->0) == 511705330);
                },
                KindView::CmpOp(CmpType::Gt) => {
                    assert(text_code(operator_source_text(k)->0) == 249);
                },
                KindView::CmpOp(CmpType::Lt) => {
                    assert(text_code(operator_source_text(k)->0) == 241);
                },
                KindView::EqOp(EqType::Eq) => {
                    assert(text_code(operator_source_text(k)->0) == 511705334);
                },
                KindView::EqOp(EqType::Ne) => {
                    assert(text_code(operator_source_text(k)->0) == 511705222);
                },
                KindView::BAndOp => {
                    assert(text_code(operator_source_text(k)->0) == 153);
                },
                KindView::BXOrOp => {
                    assert(text_code(operator_source_text(k)->0) == 377);
                },
                KindView::BOrOp => {
                    assert(text_code(operator_source_text(k)->0) == 497);
                },
                KindView::LAndOp => {
                    assert(text_code(operator_source_text(k)->0) == 318767258);
                },
                KindView::LOrOp => {
                    assert(text_code(operator_source_text(k)->0) == 1040187890);
                },
                _ => {},
            }
        },
        Token::Gt => {
            assert(text_code(token_source_text(t)->0) == 249);
            match k {
                KindView::MultDivOp(c) => {
                    if c == '*' {
                        assert(text_code(seq![c]) == 169);
                    } else {
                        assert(text_code(seq![c]) == 189);
                    }
                },
                KindView::AddSubOp(c) => {
                    if c == '+' {
                        assert(text_code(seq![c]) == 173);
                    } else {
                        assert(text_code(seq![c]) == 181);
                    }
                },
                KindView::ShiftOp(ShiftType::Left) => {
                    assert(text_code(operator_source_text(k)->0) == 503316722);
                },
                KindView::ShiftOp(ShiftType::Right) => {
                    assert(text_code(operator_source_text(k)->0) == 520093946);
                },
                KindView::CmpOp(CmpType::Ge) => {
                    assert(text_code(operator_source_text(k)->0) == 511705338);
                },
                KindView::CmpOp(CmpType::Le) => {
                    assert(text_code(operator_source_text(k)->0) == 511705330);
                },
                KindView::CmpOp(CmpType::Gt) => {
                    assert(text_code(operator_source_text(k)->0) == 249);
                },
                KindView::CmpOp(CmpType::Lt) => {
                    assert(text_code(operator_source_text(k)->0) == 241);
                },
                KindView::EqOp(EqType::Eq) => {
                    assert(text_code(operator_source_text(k)->0) == 511705334);
                },
                KindView::EqOp(EqType::Ne) => {
                    assert(text_code(operator_source_text(k)->0) == 511705222);
                },
                KindView::BAndOp => {
                    assert(text_code(operator_source_text(k)->0) == 153);
                },
                KindView::BXOrOp => {
                    assert(text_code(operator_source_text(k)->0) == 377);
                },
                KindView::BOrOp => {
                    assert(text_code(operator_source_text(k)->0) == 497);
                },
                KindView::LAndOp => {
                    assert(text_code(operator_source_text(k)->0) == 318767258);
                },
                KindView::LOrOp => {
                    assert(text_code(operator_source_text(k)->0) == 1040187890);
                },
                _ => {},
            }
        },
        Token::Eq => {
            assert(text_code(token_source_text(t)->0) == 511705334);
            match k {
                KindView::MultDivOp(c) => {
                    if c == '*' {
                        assert(text_code(seq![c]) == 169);
                    } else {
                        assert(text_code(seq![c]) == 189);
                    }
                },
                KindView::AddSubOp(c) => {
                    if c == '+' {
                        assert(text_code(seq![c]) == 173);
                    } else {
                        assert(text_code(seq![c]) == 181);
                    }
                },
                KindView::ShiftOp(ShiftType::Left) => {
                    assert(text_code(operator_source_text(k)->0) == 503316722);
                },
                KindView::ShiftOp(ShiftType::Right) => {
                    assert(text_code(operator_source_text(k)->0) == 520093946);
                },
                KindView::CmpOp(CmpType::Ge) => {
                    assert(text_code(operator_source_text(k)->0) == 511705338);
                },
                KindView::CmpOp(CmpType::Le) => {
                    assert(text_code(operator_source_text(k)->0) == 511705330);
                },
                KindView::CmpOp(CmpType::Gt) => {
                    assert(text_code(operator_source_text(k)->0) == 249);
                },
                KindView::CmpOp(CmpType::Lt) => {
                    assert(text_code(operator_source_text(k)->0) == 241);
                },
                KindView::EqOp(EqType::Eq) => {
                    assert(text_code(operator_source_text(k)->0) == 511705334);
                },
                KindView::EqOp(EqType::Ne) => {
                    assert(text_code(operator_source_text(k)->0) == 511705222);
                },
                KindView::BAndOp => {
                    assert(text_code(operator_source_text(k)->0) == 153);
                },
                KindView::BXOrOp => {
                    assert(text_code(operator_source_text(k)->0) == 377);
                },
                KindView::BOrOp => {
                    assert(text_code(operator_source_text(k)->0) == 497);
                },
                KindView::LAndOp => {
                    assert(text_code(operator_source_text(k)->0) == 318767258);
                },
                KindView::LOrOp => {
                    assert(text_code(operator_source_text(k)->0) == 1040187890);
                },
                _ => {},
            }
        },
        Token::Ne => {
            assert(text_code(token_source_text(t)->0) == 511705222);
            match k {
                KindView::MultDivOp(c) => {
                    if c == '*' {
                        assert(text_code(seq![c]) == 169);
                    } else {
                        assert(text_code(seq![c]) == 189);
                    }
                },
                KindView::AddSubOp(c) => {
                    if c == '+' {
                        assert(text_code(seq![c]) == 173);
                    } else {
                        assert(text_code(seq![c]) == 181);
                    }
                },
                KindView::ShiftOp(ShiftType::Left) => {
                    assert(text_code(operator_source_text(k)->0) == 503316722);
                },
                KindView::ShiftOp(ShiftType::Right) => {
                    assert(text_code(operator_source_text(k)->0) == 520093946);
                },
                KindView::CmpOp(CmpType::Ge) => {
                    assert(text_code(operator_source_text(k)->0) == 511705338);
                },
                KindView::CmpOp(CmpType::Le) => {
                    assert(text_code(operator_source_text(k)->0) == 511705330);
                },
                KindView::CmpOp(CmpType::Gt) => {
                    assert(text_code(operator_source_text(k)->0) == 249);
                },
                KindView::CmpOp(CmpType::Lt) => {
                    assert(text_code(operator_source_text(k)->0) == 241);
                },
                KindView::EqOp(EqType::Eq) => {
                    assert(text_code(operator_source_text(k)->0) == 511705334);
                },
                KindView::EqOp(EqType::Ne) => {
                    assert(text_code(operator_source_text(k)->0) == 511705222);
                },
                KindView::BAndOp => {
                    assert(text_code(operator_source_text(k)->0) == 153);
                },
                KindView::BXOrOp => {
                    assert(text_code(operator_source_text(k)->0) == 377);
                },
                KindView::BOrOp => {
                    assert(text_code(operator_source_text(k)->0) == 497);
                },
                KindView::LAndOp => {
                    assert(text_code(operator_source_text(k)->0) == 318767258);
                },
                KindView::LOrOp => {
                    assert(text_code(operator_source_text(k)->0) == 1040187890);
                },
                _ => {},
            }
        },
        Token::LogicalAnd => {
            assert(text_code(token_source_text(t)->0) == 318767258);
            match k {
                KindView::MultDivOp(c) => {
                    if c == '*' {
                        assert(text_code(seq![c]) == 169);
                    } else {
                        assert(text_code(seq![c]) == 189);
                    }
                },
                KindView::AddSubOp(c) => {
                    if c == '+' {
                        assert(text_code(seq![c]) == 173);
                    } else {
                        assert(text_code(seq![c]) == 181);
                    }
                },
                KindView::ShiftOp(ShiftType::Left) => {
                    assert(text_code(operator_source_text(k)->0) == 503316722);
                },
                KindView::ShiftOp(ShiftType::Right) => {
                    assert(text_code(operator_source_text(k)->0) == 520093946);
                },
                KindView::CmpOp(CmpType::Ge) => {
                    assert(text_code(operator_source_text(k)->0) == 511705338);
                },
                KindView::CmpOp(CmpType::Le) => {
                    assert(text_code(operator_source_text(k)->0) == 511705330);
                },
                KindView::CmpOp(CmpType::Gt) => {
                    assert(text_code(operator_source_text(k)->0) == 249);
                },
                KindView::CmpOp(CmpType::Lt) => {
                    assert(text_code(operator_source_text(k)->0) == 241);
                },
                KindView::EqOp(EqType::Eq) => {
                    assert(text_code(operator_source_text(k)->0) == 511705334);
                },
                KindView::EqOp(EqType::Ne) => {
                    assert(text_code(operator_source_text(k)->0) == 511705222);
                },
                KindView::BAndOp => {
                    assert(text_code(operator_source_text(k)->0) == 153);
                },
                KindView::BXOrOp => {
                    assert(text_code(operator_source_text(k)->0) == 377);
                },
                KindView::BOrOp => {
                    assert(text_code(operator_source_text(k)->0) == 497);
                },
                KindView::LAndOp => {
                    assert(text_code(operator_source_text(k)->0) == 318767258);
                },
                KindView::LOrOp => {
                    assert(text_code(operator_source_text(k)->0) == 1040187890);
                },
                _ => {},
            }
        },
        Token::LogicalOr => {
            assert(text_code(token_source_text(t)->0) == 1040187890);
            match k {
                KindView::MultDivOp(c) => {
                    if c == '*' {
                        assert(text_code(seq![c]) == 169);
                    } else {
                        assert(text_code(seq![c]) == 189);
                    }
                },
                KindView::AddSubOp(c) => {
                    if c == '+' {
                        assert(text_code(seq![c]) == 173);
                    } else {
                        assert(text_code(seq![c]) == 181);
                    }
                },
                KindView::ShiftOp(ShiftType::Left) => {
                    assert(text_code(operator_source_text(k)->0) == 503316722);
                },
                KindView::ShiftOp(ShiftType::Right) => {
                    assert(text_code(operator_source_text(k)->0) == 520093946);
                },
                KindView::CmpOp(CmpType::Ge) => {
                    assert(text_code(operator_source_text(k)->0) == 511705338);
                },
                KindView::CmpOp(CmpType::Le) => {
                    assert(text_code(operator_source_text(k)->0) == 511705330);
                },
                KindView::CmpOp(CmpType::Gt) => {
                    assert(text_code(operator_source_text(k)->0) == 249);
                },
                KindView::CmpOp(CmpType::Lt) => {
                    assert(text_code(operator_source_text(k)->0) == 241);
                },
                KindView::EqOp(EqType::Eq) => {
                    assert(text_code(operator_source_text(k)->0) == 511705334);
                },
                KindView::EqOp(EqType::Ne) => {
                    assert(text_code(operator_source_text(k)->0) == 511705222);
                },
                KindView::BAndOp => {
                    assert(text_code(operator_source_text(k)->0) == 153);
                },
                KindView::BXOrOp => {
                    assert(text_code(operator_source_text(k)->0) == 377);
                },
                KindView::BOrOp => {
                    assert(text_code(operator_source_text(k)->0) == 497);
                },
                KindView::LAndOp => {
                    assert(text_code(operator_source_text(k)->0) == 318767258);
                },
                KindView::LOrOp => {
                    assert(text_code(operator_source_text(k)->0) == 1040187890);
                },
                _ => {},
            }
        },
        Token::BitwiseAnd => {
            assert(text_code(token_source_text(t)->0) == 153);
            match k {
                KindView::MultDivOp(c) => {
                    if c == '*' {
                        assert(text_code(seq![c]) == 169);
                    } else {
                        assert(text_code(seq![c]) == 189);
                    }
                },
                KindView::AddSubOp(c) => {
                    if c == '+' {
                        assert(text_code(seq![c]) == 173);
                    } else {
                        assert(text_code(seq![c]) == 181);
                    }
                },
                KindView::ShiftOp(ShiftType::Left) => {
                    assert(text_code(operator_source_text(k)->0) == 503316722);
                },
                KindView::ShiftOp(ShiftType::Right) => {
                    assert(text_code(operator_source_text(k)->0) == 520093946);
                },
                KindView::CmpOp(CmpType::Ge) => {
                    assert(text_code(operator_source_text(k)->0) == 511705338);
                },
                KindView::CmpOp(CmpType::Le) => {
                    assert(text_code(operator_source_text(k)->0) == 511705330);
                },
                KindView::CmpOp(CmpType::Gt) => {
                    assert(text_code(operator_source_text(k)->0) == 249);
                },
                KindView::CmpOp(CmpType::Lt) => {
                    assert(text_code(operator_source_text(k)->0) == 241);
                },
                KindView::EqOp(EqType::Eq) => {
                    assert(text_code(operator_source_text(k)->0) == 511705334);
                },
                KindView::EqOp(EqType::Ne) => {
                    assert(text_code(operator_source_text(k)->0) == 511705222);
                },
                KindView::BAndOp => {
                    assert(text_code(operator_source_text(k)->0) == 153);
                },
                KindView::BXOrOp => {
                    assert(text_code(operator_source_text(k)->0) == 377);
                },
                KindView::BOrOp => {
                    assert(text_code(operator_source_text(k)->0) == 497);
                },
                KindView::LAndOp => {
                    assert(text_code(operator_source_text(k)->0) == 318767258);
                },
                KindView::LOrOp => {
                    assert(text_code(operator_source_text(k)->0) == 1040187890);
                },
                _ => {},
            }
        },
        Token::BitwiseExclusiveOr => {
            assert(text_code(token_source_text(t)->0) == 377);
            match k {
                KindView::MultDivOp(c) => {
                    if c == '*' {
                        assert(text_code(seq![c]) == 169);
                    } else {
                        assert(text_code(seq![c]) == 189);
                    }
                },
                KindView::AddSubOp(c) => {
                    if c == '+' {
                        assert(text_code(seq![c]) == 173);
                    } else {
                        assert(text_code(seq![c]) == 181);
                    }
                },
                KindView::ShiftOp(ShiftType::Left) => {
                    assert(text_code(operator_source_text(k)->0) == 503316722);
                },
                KindView::ShiftOp(ShiftType::Right) => {
                    assert(text_code(operator_source_text(k)->0) == 520093946);
                },
                KindView::CmpOp(CmpType::Ge) => {
                    assert(text_code(operator_source_text(k)->0) == 511705338);
                },
                KindView::CmpOp(CmpType::Le) => {
                    assert(text_code(operator_source_text(k)->0) == 511705330);
                },
                KindView::CmpOp(CmpType::Gt) => {
                    assert(text_code(operator_source_text(k)->0) == 249);
                },
                KindView::CmpOp(CmpType::Lt) => {
                    assert(text_code(operator_source_text(k)->0) == 241);
                },
                KindView::EqOp(EqType::Eq) => {
                    assert(text_code(operator_source_text(k)->0) == 511705334);
                },
                KindView::EqOp(EqType::Ne) => {
                    assert(text_code(operator_source_text(k)->0) == 511705222);
                },
                KindView::BAndOp => {
                    assert(text_code(operator_source_text(k)->0) == 153);
                },
                KindView::BXOrOp => {
                    assert(text_code(operator_source_text(k)->0) == 377);
                },
                KindView::BOrOp => {
                    assert(text_code(operator_source_text(k)->0) == 497);
                },
                KindView::LAndOp => {
                    assert(text_code(operator_source_text(k)->0) == 318767258);
                },
                KindView::LOrOp => {
                    assert(text_code(operator_source_text(k)->0) == 1040187890);
                },
                _ => {},
            }
        },
        Token::BitwiseOr => {
            assert(text_code(token_source_text(t)->0) == 497);
            match k {
                KindView::MultDivOp(c) => {
                    if c == '*' {
                        assert(text_code(seq![c]) == 169);
                    } else {
                        assert(text_code(seq![c]) == 189);
                    }
                },
                KindView::AddSubOp(c) => {
                    if c == '+' {
                        assert(text_code(seq![c]) == 173);
                    } else {
                        assert(text_code(seq![c]) == 181);
                    }
                },
                KindView::ShiftOp(ShiftType::Left) => {
                    assert(text_code(operator_source_text(k)->0) == 503316722);
                },
                KindView::ShiftOp(ShiftType::Right) => {
                    assert(text_code(operator_source_text(k)->0) == 520093946);
                },
                KindView::CmpOp(CmpType::Ge) => {
                    assert(text_code(operator_source_text(k)->0) == 511705338);
                },
                KindView::CmpOp(CmpType::Le) => {
                    assert(text_code(operator_source_text(k)->0) == 511705330);
                },
                KindView::CmpOp(CmpType::Gt) => {
                    assert(text_code(operator_source_text(k)->0) == 249);
                },
                KindView::CmpOp(CmpType::Lt) => {
                    assert(text_code(operator_source_text(k)->0) == 241);
                },
                KindView::EqOp(EqType::Eq) => {
                    assert(text_code(operator_source_text(k)->0) == 511705334);
                },
                KindView::EqOp(EqType::Ne) => {
                    assert(text_code(operator_source_text(k)->0) == 511705222);
                },
                KindView::BAndOp => {
                    assert(text_code(operator_source_text(k)->0) == 153);
                },
                KindView::BXOrOp => {
                    assert(text_code(operator_source_text(k)->0) == 377);
                },
                KindView::BOrOp => {
                    assert(text_code(operator_source_text(k)->0) == 497);
                },
                KindView::LAndOp => {
                    assert(text_code(operator_source_text(k)->0) == 318767258);
                },
                KindView::LOrOp => {
                    assert(text_code(operator_source_text(k)->0) == 1040187890);
                },
                _ => {},
            }
        },
        Token::BitwiseComplement => {
            assert(text_code(token_source_text(t)->0) == 505);
            match k {
                KindView::MultDivOp(c) => {
                    if c == '*' {
                        assert(text_code(seq![c]) == 169);
                    } else {
                        assert(text_code(seq![c]) == 189);
                    }
                },
                KindView::AddSubOp(c) => {
                    if c == '+' {
                        assert(text_code(seq![c]) == 173);
                    } else {
                        assert(text_code(seq![c]) == 181);
                    }
                },
                KindView::ShiftOp(ShiftType::Left) => {
                    assert(text_code(operator_source_text(k)->0) == 503316722);
                },
                KindView::ShiftOp(ShiftType::Right) => {
                    assert(text_code(operator_source_text(k)->0) == 520093946);
                },
                KindView::CmpOp(CmpType::Ge) => {
                    assert(text_code(operator_source_text(k)->0) == 511705338);
                },
                KindView::CmpOp(CmpType::Le) => {
                    assert(text_code(operator_source_text(k)->0) == 511705330);
                },
                KindView::CmpOp(CmpType::Gt) => {
                    assert(text_code(operator_source_text(k)->0) == 249);
                },
                KindView::CmpOp(CmpType::Lt) => {
                    assert(text_code(operator_source_text(k)->0) == 241);
                },
                KindView::EqOp(EqType::Eq) => {
                    assert(text_code(operator_source_text(k)->0) == 511705334);
                },
                KindView::EqOp(EqType::Ne) => {
                    assert(text_code(operator_source_text(k)->0) == 511705222);
                },
                KindView::BAndOp => {
                    assert(text_code(operator_source_text(k)->0) == 153);
                },
                KindView::BXOrOp => {
                    assert(text_code(operator_source_text(k)->0) == 377);
                },
                KindView::BOrOp => {
                    assert(text_code(operator_source_text(k)->0) == 497);
                },
                KindView::LAndOp => {
                    assert(text_code(operator_source_text(k)->0) == 318767258);
                },
                KindView::LOrOp => {
                    assert(text_code(operator_source_text(k)->0) == 1040187890);
                },
                _ => {},
            }
        },
        Token::LogicalNegation => {
            assert(text_code(token_source_text(t)->0) == 133);
            match k {
                KindView::MultDivOp(c) => {
                    if c == '*' {
                        assert(text_code(seq![c]) == 169);
                    } else {
                        assert(text_code(seq![c]) == 189);
                    }
                },
                KindView::AddSubOp(c) => {
                    if c == '+' {
                        assert(text_code(seq![c]) == 173);
                    } else {
                        assert(text_code(seq![c]) == 181);
                    }
                },
                KindView::ShiftOp(ShiftType::Left) => {
                    assert(text_code(operator_source_text(k)->0) == 503316722);
                },
                KindView::ShiftOp(ShiftType::Right) => {
                    assert(text_code(operator_source_text(k)->0) == 520093946);
                },
                KindView::CmpOp(CmpType::Ge) => {
                    assert(text_code(operator_source_text(k)->0) == 511705338);
                },
                KindView::CmpOp(CmpType::Le) => {
                    assert(text_code(operator_source_text(k)->0) == 511705330);
                },
                KindView::CmpOp(CmpType::Gt) => {
                    assert(text_code(operator_source_text(k)->0) == 249);
                },
                KindView::CmpOp(CmpType::Lt) => {
                    assert(text_code(operator_source_text(k)->0) == 241);
                },
                KindView::EqOp(EqType::Eq) => {
                    assert(text_code(operator_source_text(k)->0) == 511705334);
                },
                KindView::EqOp(EqType::Ne) => {
                    assert(text_code(operator_source_text(k)->0) == 511705222);
                },
                KindView::BAndOp => {
                    assert(text_code(operator_source_text(k)->0) == 153);
                },
                KindView::BXOrOp => {
                    assert(text_code(operator_source_text(k)->0) == 377);
                },
                KindView::BOrOp => {
                    assert(text_code(operator_source_text(k)->0) == 497);
                },
                KindView::LAndOp => {
                    assert(text_code(operator_source_text(k)->0) == 318767258);
                },
                KindView::LOrOp => {
                    assert(text_code(operator_source_text(k)->0) == 1040187890);
                },
                _ => {},
            }
        },
        Token::SimpleAssign => {
            assert(text_code(token_source_text(t)->0) == 245);
            match k {
                KindView::MultDivOp(c) => {
                    if c == '*' {
                        assert(text_code(seq![c]) == 169);
                    } else {
                        assert(text_code(seq![c]) == 189);
                    }
                },
                KindView::AddSubOp(c) => {
                    if c == '+' {
                        assert(text_code(seq![c]) == 173);
                    } else {
                        assert(text_code(seq![c]) == 181);
                    }
                },
                KindView::ShiftOp(ShiftType::Left) => {
                    assert(text_code(operator_source_text(k)->0) == 503316722);
                },
                KindView::ShiftOp(ShiftType::Right) => {
                    assert(text_code(operator_source_text(k)->0) == 520093946);
                },
                KindView::CmpOp(CmpType::Ge) => {
                    assert(text_code(operator_source_text(k)->0) == 511705338);
                },
                KindView::CmpOp(CmpType::Le) => {
                    assert(text_code(operator_source_text(k)->0) == 511705330);
                },
                KindView::CmpOp(CmpType::Gt) => {
                    assert(text_code(operator_source_text(k)->0) == 249);
                },
                KindView::CmpOp(CmpType::Lt) => {
                    assert(text_code(operator_source_text(k)->0) == 241);
                },
                KindView::EqOp(EqType::Eq) => {
                    assert(text_code(operator_source_text(k)->0) == 511705334);
                },
                KindView::EqOp(EqType::Ne) => {
                    assert(text_code(operator_source_text(k)->0) == 511705222);
                },
                KindView::BAndOp => {
                    assert(text_code(operator_source_text(k)->0) == 153);
                },
                KindView::BXOrOp => {
                    assert(text_code(operator_source_text(k)->0) == 377);
                },
                KindView::BOrOp => {
                    assert(text_code(operator_source_text(k)->0) == 497);
                },
                KindView::LAndOp => {
                    assert(text_code(operator_source_text(k)->0) == 318767258);
                },
                KindView::LOrOp => {
                    assert(text_code(operator_source_text(k)->0) == 1040187890);
                },
                _ => {},
            }
        },
        _ => {},
    }
}
/// The primary expression node for the integer constant `n`.
pub open spec fn constant_node(n: usize) -> NodeView {
    node_with(KindView::PrimaryExp, seq![leaf(KindView::Constant(decimal_text(n as nat)))])
}

/// No operator of a level up to `l` stands at `q` (or `q` is past the end).
pub open spec fn no_operator_up_to(ts: Seq<Token>, q: int, l: nat) -> bool {
    q >= ts.len() || forall|m: nat| m <= l ==> #[trigger] binary_operator(m, ts[q]) is None
}

proof fn lemma_literal_operand(l: nat, ts: Seq<Token>, p: int, a: usize)
    requires
        0 <= p < ts.len(),
        ts[p] == Token::DecimalIntegerLiteral(a),
        no_operator_up_to(ts, p + 1, l),
    ensures
        spec_operand(l, ts, p) == (Ok::<NodeView, Seq<char>>(constant_node(a)), 1nat),
        spec_binary(l, ts, p) == (Ok::<NodeView, Seq<char>>(constant_node(a)), 1nat),
    decreases l,
{
    if l > 0 {
        lemma_literal_operand((l - 1) as nat, ts, p, a);
    } else {
        assert(spec_primary(ts, p) == (Ok::<NodeView, Seq<char>>(constant_node(a)), 1nat));
    }
    assert(spec_operand(l, ts, p) == (Ok::<NodeView, Seq<char>>(constant_node(a)), 1nat));
    if p + 1 < ts.len() {
        assert(binary_operator(l, ts[p + 1]) is None);
    }
    assert(spec_chain(l, ts, p + 1, constant_node(a)) == (Ok::<NodeView, Seq<char>>(constant_node(a)), 0nat));
}

proof fn lemma_lift(lo: nat, l: nat, ts: Seq<Token>, p: int, n: NodeView, k: nat)
    requires
        lo <= l,
        0 <= p,
        spec_binary(lo, ts, p) == (Ok::<NodeView, Seq<char>>(n), k),
        p + k >= ts.len() || forall|m: nat| lo < m <= l ==> #[trigger] binary_operator(m, ts[p + k]) is None,
    ensures
        spec_binary(l, ts, p) == (Ok::<NodeView, Seq<char>>(n), k),
    decreases l,
{
    if l > lo {
        lemma_lift(lo, (l - 1) as nat, ts, p, n, k);
        if p + k < ts.len() {
            assert(binary_operator(l, ts[p + k]) is None);
        }
    }
}

proof fn lemma_one_level(l: nat, m: nat, t: Token)
    requires
        binary_operator(l, t) is Some,
        binary_operator(m, t) is Some,
    ensures
        l == m,
{
}

/// The five tokens `a o1 b o2 c`.
pub open spec fn three_operand_tokens(a: usize, o1: Token, b: usize, o2: Token, c: usize) -> Seq<Token> {
    seq![
        Token::DecimalIntegerLiteral(a),
        o1,
        Token::DecimalIntegerLiteral(b),
        o2,
        Token::DecimalIntegerLiteral(c),
    ]
}

#[verifier::spinoff_prover]
#[verifier::rlimit(50)]
proof fn lemma_group_right(a: usize, b: usize, c: usize, o1: Token, o2: Token, k1: KindView, k2: KindView, l1: nat, l2: nat)
    requires
        l2 < l1 <= 9,
        binary_operator(l1, o1) == Some(k1),
        binary_operator(l2, o2) == Some(k2),
        forall|m: nat| #[trigger] binary_operator(m, o1) is Some ==> m == l1,
        forall|m: nat| #[trigger] binary_operator(m, o2) is Some ==> m == l2,
    ensures
        spec_binary(9, three_operand_tokens(a, o1, b, o2, c), 0) == (
            Ok::<NodeView, Seq<char>>(
                node_with(k1, seq![constant_node(a), node_with(k2, seq![constant_node(b), constant_node(c)])]),
            ),
            5nat,
        ),
{
    let ts = three_operand_tokens(a, o1, b, o2, c);
    assert(ts.len() == 5);
    assert(ts[0] == Token::DecimalIntegerLiteral(a));
    assert(ts[1] == o1);
    assert(ts[2] == Token::DecimalIntegerLiteral(b));
    assert(ts[3] == o2);
    assert(ts[4] == Token::DecimalIntegerLiteral(c));
    let na = constant_node(a);
    let nb = constant_node(b);
    let nc = constant_node(c);
    if l2 > 0 {
        lemma_literal_operand((l2 - 1) as nat, ts, 2, b);
        lemma_literal_operand((l2 - 1) as nat, ts, 4, c);
    }
    assert(spec_operand(l2, ts, 2) == (Ok::<NodeView, Seq<char>>(nb), 1nat));
    assert(spec_operand(l2, ts, 4) == (Ok::<NodeView, Seq<char>>(nc), 1nat));
    let inner = node_with(k2, seq![nb, nc]);
    assert(spec_chain(l2, ts, 5, inner) == (Ok::<NodeView, Seq<char>>(inner), 0nat));
    assert(spec_chain(l2, ts, 3, nb) == (Ok::<NodeView, Seq<char>>(inner), 2nat));
    assert(spec_binary(l2, ts, 2) == (Ok::<NodeView, Seq<char>>(inner), 3nat));
    lemma_lift(l2, (l1 - 1) as nat, ts, 2, inner, 3);
    lemma_literal_operand((l1 - 1) as nat, ts, 0, a);
    assert(spec_operand(l1, ts, 0) == (Ok::<NodeView, Seq<char>>(na), 1nat));
    assert(spec_operand(l1, ts, 2) == (Ok::<NodeView, Seq<char>>(inner), 3nat));
    let top = node_with(k1, seq![na, inner]);
    assert(spec_chain(l1, ts, 5, top) == (Ok::<NodeView, Seq<char>>(top), 0nat));
    assert(spec_chain(l1, ts, 1, na) == (Ok::<NodeView, Seq<char>>(top), 4nat));
    assert(spec_binary(l1, ts, 0) == (Ok::<NodeView, Seq<char>>(top), 5nat));
    lemma_lift(l1, 9, ts, 0, top, 5);
}

#[verifier::spinoff_prover]
#[verifier::rlimit(50)]
proof fn lemma_group_left(a: usize, b: usize, c: usize, o1: Token, o2: Token, k1: KindView, k2: KindView, l1: nat, l2: nat)
    requires
        l1 <= l2 <= 9,
        binary_operator(l1, o1) == Some(k1),
        binary_operator(l2, o2) == Some(k2),
        forall|m: nat| #[trigger] binary_operator(m, o1) is Some ==> m == l1,
        forall|m: nat| #[trigger] binary_operator(m, o2) is Some ==> m == l2,
    ensures
        spec_binary(9, three_operand_tokens(a, o1, b, o2, c), 0) == (
            Ok::<NodeView, Seq<char>>(
                node_with(k2, seq![node_with(k1, seq![constant_node(a), constant_node(b)]), constant_node(c)]),
            ),
            5nat,
        ),
{
    let ts = three_operand_tokens(a, o1, b, o2, c);
    assert(ts.len() == 5);
    assert(ts[0] == Token::DecimalIntegerLiteral(a));
    assert(ts[1] == o1);
    assert(ts[2] == Token::DecimalIntegerLiteral(b));
    assert(ts[3] == o2);
    assert(ts[4] == Token::DecimalIntegerLiteral(c));
    let na = constant_node(a);
    let nb = constant_node(b);
    let nc = constant_node(c);
    if l1 > 0 {
        lemma_literal_operand((l1 - 1) as nat, ts, 0, a);
        lemma_literal_operand((l1 - 1) as nat, ts, 2, b);
    }
    assert(spec_operand(l1, ts, 0) == (Ok::<NodeView, Seq<char>>(na), 1nat));
    assert(spec_operand(l1, ts, 2) == (Ok::<NodeView, Seq<char>>(nb), 1nat));
    let left = node_with(k1, seq![na, nb]);
    if l2 > 0 {
        lemma_literal_operand((l2 - 1) as nat, ts, 4, c);
    }
    assert(spec_operand(l2, ts, 4) == (Ok::<NodeView, Seq<char>>(nc), 1nat));
    let top = node_with(k2, seq![left, nc]);
    assert(spec_chain(l2, ts, 5, top) == (Ok::<NodeView, Seq<char>>(top), 0nat));
    if l2 == l1 {
        assert(spec_chain(l1, ts, 3, left) == (Ok::<NodeView, Seq<char>>(top), 2nat));
        assert(spec_chain(l1, ts, 1, na) == (Ok::<NodeView, Seq<char>>(top), 4nat));
        assert(spec_binary(l1, ts, 0) == (Ok::<NodeView, Seq<char>>(top), 5nat));
    } else {
        assert(spec_chain(l1, ts, 3, left) == (Ok::<NodeView, Seq<char>>(left), 0nat));
        assert(spec_chain(l1, ts, 1, na) == (Ok::<NodeView, Seq<char>>(left), 2nat));
        assert(spec_binary(l1, ts, 0) == (Ok::<NodeView, Seq<char>>(left), 3nat));
        lemma_lift(l1, (l2 - 1) as nat, ts, 0, left, 3);
        assert(spec_operand(l2, ts, 0) == (Ok::<NodeView, Seq<char>>(left), 3nat));
        assert(spec_chain(l2, ts, 3, left) == (Ok::<NodeView, Seq<char>>(top), 2nat));
        assert(spec_binary(l2, ts, 0) == (Ok::<NodeView, Seq<char>>(top), 5nat));
    }
    lemma_lift(l2, 9, ts, 0, top, 5);
}

/// Three integer constants joined by two binary operators are grouped as C groups
/// them: the operator of tighter C precedence takes its two neighbours first, and of
/// two operators of the same precedence the left one does; the whole parse consumes
/// the five tokens. (So `1 << 2 + 3` is `1 << (2 + 3)` and `1 - 2 - 3` is
/// `(1 - 2) - 3`.)
pub proof fn law_three_operands_group_as_in_c(a: usize, b: usize, c: usize, o1: Token, o2: Token, k1: KindView, k2: KindView)
    requires
        operator_source_text(k1) is Some,
        operator_source_text(k1) == token_source_text(o1),
        operator_source_text(k2) is Some,
        operator_source_text(k2) == token_source_text(o2),
    ensures
        spec_binary(9, three_operand_tokens(a, o1, b, o2, c), 0) == (
            Ok::<NodeView, Seq<char>>(
                if c_precedence(k2) < c_precedence(k1) {
                    node_with(k1, seq![constant_node(a), node_with(k2, seq![constant_node(b), constant_node(c)])])
                } else {
                    node_with(k2, seq![node_with(k1, seq![constant_node(a), constant_node(b)]), constant_node(c)])
                },
            ),
            5nat,
        ),
{
    lemma_operator_text_complete(o1, k1);
    lemma_operator_text_complete(o2, k2);
    let l1 = c_precedence(k1) as nat;
    let l2 = c_precedence(k2) as nat;
    assert forall|m: nat| #[trigger] binary_operator(m, o1) is Some implies m == l1 by {
        lemma_one_level(m, l1, o1);
    }
    assert forall|m: nat| #[trigger] binary_operator(m, o2) is Some implies m == l2 by {
        lemma_one_level(m, l2, o2);
    }
    if l2 < l1 {
        lemma_group_right(a, b, c, o1, o2, k1, k2, l1, l2);
    } else {
        lemma_group_left(a, b, c, o1, o2, k1, k2, l1, l2);
    }
}

/// Every token is the same as itself, and two tokens that are the same stand for the
/// same C text and are shown with the same name.
pub proof fn law_same_token_is_equality(a: Token, b: Token)
    ensures
        same_token(a, a),
        same_token(a, b) ==> same_token(b, a),
        same_token(a, b) ==> token_source_text(a) == token_source_text(b),
        same_token(a, b) ==> token_debug_text(a) == token_debug_text(b),
        (token_source_text(a) is Some && token_source_text(b) is Some) ==> (same_token(a, b) <==> a == b),
{
}

proof fn lemma_last_dot(name: Seq<char>, n: int)
    requires
        0 <= n <= name.len(),
    ensures
        last_dot_before(name, n) matches Some(i) ==> 0 <= i < n && name[i] == '.' && forall|j: int|
            i < j < n ==> name[j] != '.',
        last_dot_before(name, n) is None ==> forall|j: int| 0 <= j < n ==> name[j] != '.',
    decreases n,
{
    if n > 0 {
        lemma_last_dot(name, n - 1);
    }
}

/// The stem of a file name is the text before its last `.`: the name starts with the
/// stem, a `.` follows it, and no `.` comes after that one; a name without any `.` has
/// no stem.
pub proof fn law_stem_is_text_before_last_dot(name: Seq<char>)
    ensures
        stem_of(name) matches Some(stem) ==> {
            &&& stem.len() < name.len()
            &&& name.take(stem.len() as int) == stem
            &&& name[stem.len() as int] == '.'
            &&& forall|j: int| stem.len() < j < name.len() ==> #[trigger] name[j] != '.'
        },
        stem_of(name) is None ==> forall|j: int| 0 <= j < name.len() ==> #[trigger] name[j] != '.',
{
    lemma_last_dot(name, name.len() as int);
}

} // verus!
