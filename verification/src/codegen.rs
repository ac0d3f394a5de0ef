use vstd::prelude::*;

use crate::ast::{subtrees_of, ASTNode, ASTNodeKind, CmpType, EqType, KindView, NodeView, ShiftType};
use crate::errors::GeneratorError;

verus! {

/// The characters of the default nanoid alphabet: `_`, `-`, digits and ASCII letters.
pub open spec fn label_char(c: char) -> bool {
    c == '_' || c == '-' || ('0' <= c <= '9') || ('a' <= c <= 'z') || ('A' <= c <= 'Z')
}

/// A label name as nanoid makes them: 21 characters of its default alphabet.
pub open spec fn is_label(l: Seq<char>) -> bool {
    &&& l.len() == 21
    &&& forall|i: int| 0 <= i < l.len() ==> label_char(#[trigger] l[i])
}

/// Trusted: `nanoid::format` with nanoid's default random source and its `SAFE`
/// alphabet, size 21 (what the `nanoid!()` macro expands to). The contract claims what
/// nanoid's source shows of every outcome: 21 characters, each from the alphabet. Which
/// characters come out is random; the random source panics if the system gives no
/// entropy.
#[verifier::external_body]
fn fresh_label() -> (res: String)
    ensures
        is_label(res@),
{
    nanoid::format(nanoid::rngs::default, &nanoid::alphabet::SAFE, 21)
}

/// Trusted: `String::push`, which std documents as appending the given character to the
/// end of the string.
pub assume_specification[ String::push ](s: &mut String, ch: char)
    ensures
        final(s)@ == old(s)@.push(ch),
;

/// The message for an arithmetic operator node whose operator is not one of `+`, `-`,
/// `*`, `/`.
pub open spec fn invalid_operator_message(op: char) -> Seq<char> {
    "invalid arithmetic operator "@.push(op)
}

/// How generating assembly for a node goes, whatever label names are drawn: it
/// succeeds, it fails with an error of the given message, or it stops the program;
/// with the number of label names drawn on the way.
pub enum GenShape {
    Done(nat),
    Failed(nat, Seq<char>),
    Aborted,
}

/// The number of label names drawn.
pub open spec fn shape_count(s: GenShape) -> nat {
    match s {
        GenShape::Done(n) => n,
        GenShape::Failed(n, _) => n,
        GenShape::Aborted => 0,
    }
}

/// One generation step followed by another, which runs only if the first succeeded.
pub open spec fn then_shape(first: GenShape, second: GenShape) -> GenShape {
    match first {
        GenShape::Done(a) => match second {
            GenShape::Done(b) => GenShape::Done(a + b),
            GenShape::Failed(b, m) => GenShape::Failed(a + b, m),
            GenShape::Aborted => GenShape::Aborted,
        },
        other => other,
    }
}

pub open spec fn subtree_len(n: NodeView) -> int {
    subtrees_of(n).len() as int
}

/// The instruction for an arithmetic operator node into register `reg`.
pub open spec fn arithmetic_asm(kind: KindView, reg: Seq<char>) -> Option<Seq<char>> {
    match kind {
        KindView::AddSubOp(op) => arithmetic_op_asm(op, reg),
        KindView::MultDivOp(op) => arithmetic_op_asm(op, reg),
        _ => None,
    }
}

pub open spec fn arithmetic_op_asm(op: char, reg: Seq<char>) -> Option<Seq<char>> {
    if op == '+' {
        Some("add "@ + reg + ", w0, w1"@)
    } else if op == '-' {
        Some("sub "@ + reg + ", w0, w1"@)
    } else if op == '*' {
        Some("mul "@ + reg + ", w0, w1"@)
    } else if op == '/' {
        Some("udiv "@ + reg + ", w0, w1"@)
    } else {
        None
    }
}

/// The instructions for a logical operator node into register `reg`, using the labels
/// `start` and `end`.
pub open spec fn logical_asm(kind: KindView, reg: Seq<char>, start: Seq<char>, end: Seq<char>) -> Option<Seq<char>> {
    match kind {
        KindView::LAndOp => Some(
            "cmp w0, #0\nb.ne _"@ + start + "\nmov "@ + reg + ", #0\njmp _"@ + end + "\n_"@
                + start + "\ncmp w1, #0\ncset "@ + reg + ", ne\n_"@ + end,
        ),
        KindView::LOrOp => Some(
            "cmp w0, #0\nb.eq _"@ + start + "\nmov "@ + reg + ", #1\njmp _"@ + end + "\n_"@
                + start + "\ncmp w1, #0\ncset "@ + reg + ", ne\n_"@ + end,
        ),
        _ => None,
    }
}

/// The instruction for a bitwise operator node into register `reg`.
pub open spec fn bitwise_asm(kind: KindView, reg: Seq<char>) -> Option<Seq<char>> {
    match kind {
        KindView::BAndOp => Some("and "@ + reg + ", w0, w1"@),
        KindView::BOrOp => Some("orr "@ + reg + ", w0, w1"@),
        KindView::BXOrOp => Some("eor "@ + reg + ", w0, w1"@),
        _ => None,
    }
}

/// The instructions for an equality node into register `reg`.
pub open spec fn equative_asm(kind: KindView, reg: Seq<char>) -> Option<Seq<char>> {
    match kind {
        KindView::EqOp(EqType::Eq) => Some("cmp w0, w1\ncset "@ + reg + ", eq"@),
        KindView::EqOp(EqType::Ne) => Some("cmp w0, w1\ncset "@ + reg + ", ne"@),
        _ => None,
    }
}

/// The instructions for an ordering comparison node into register `reg`.
pub open spec fn comparative_asm(kind: KindView, reg: Seq<char>) -> Option<Seq<char>> {
    match kind {
        KindView::CmpOp(CmpType::Ge) => Some("cmp w0, w1\ncset "@ + reg + ", ge"@),
        KindView::CmpOp(CmpType::Le) => Some("cmp w0, w1\ncset "@ + reg + ", le"@),
        KindView::CmpOp(CmpType::Gt) => Some("cmp w0, w1\ncset "@ + reg + ", gt"@),
        KindView::CmpOp(CmpType::Lt) => Some("cmp w0, w1\ncset "@ + reg + ", lt"@),
        _ => None,
    }
}

/// The instruction for a shift node into register `reg`.
pub open spec fn shift_asm(kind: KindView, reg: Seq<char>) -> Option<Seq<char>> {
    match kind {
        KindView::ShiftOp(ShiftType::Right) => Some("lsr "@ + reg + ", w0, w1"@),
        KindView::ShiftOp(ShiftType::Left) => Some("lsl "@ + reg + ", w0, w1"@),
        _ => None,
    }
}

/// How the last instruction of a binary operator node goes, once both operands are in
/// `w0` and `w1`.
pub open spec fn operator_shape(kind: KindView) -> GenShape {
    match kind {
        KindView::AddSubOp(op) => if arithmetic_op_asm(op, seq![]) is Some {
            GenShape::Done(0)
        } else {
            GenShape::Failed(0, invalid_operator_message(op))
        },
        KindView::MultDivOp(op) => if arithmetic_op_asm(op, seq![]) is Some {
            GenShape::Done(0)
        } else {
            GenShape::Failed(0, invalid_operator_message(op))
        },
        KindView::LOrOp => GenShape::Done(2),
        KindView::LAndOp => GenShape::Done(2),
        KindView::BOrOp => GenShape::Done(0),
        KindView::BXOrOp => GenShape::Done(0),
        KindView::BAndOp => GenShape::Done(0),
        KindView::EqOp(_) => GenShape::Done(0),
        KindView::CmpOp(_) => GenShape::Done(0),
        KindView::ShiftOp(_) => GenShape::Done(0),
        _ => GenShape::Aborted,
    }
}

/// The last instruction of a binary operator node, with the labels `ls` it draws.
pub open spec fn operator_text(kind: KindView, reg: Seq<char>, ls: Seq<Seq<char>>) -> Seq<char> {
    match kind {
        KindView::AddSubOp(_) => arithmetic_asm(kind, reg)->0,
        KindView::MultDivOp(_) => arithmetic_asm(kind, reg)->0,
        KindView::LOrOp => logical_asm(kind, reg, ls[0], ls[1])->0,
        KindView::LAndOp => logical_asm(kind, reg, ls[0], ls[1])->0,
        KindView::EqOp(_) => equative_asm(kind, reg)->0,
        KindView::CmpOp(_) => comparative_asm(kind, reg)->0,
        KindView::ShiftOp(_) => shift_asm(kind, reg)->0,
        _ => bitwise_asm(kind, reg)->0,
    }
}

/// How generating a binary operator node goes: both operands, then the operator.
pub open spec fn binop_shape(n: NodeView) -> GenShape
    decreases n, 0int,
{
    match n.children {
        Some(cs) => if cs.len() == 2 {
            then_shape(
                operand_shape(cs[0]),
                then_shape(operand_shape(cs[1]), operator_shape(n.kind)),
            )
        } else {
            GenShape::Failed(0, "arithmetic operator ASTNode does not have two children"@)
        },
        None => GenShape::Failed(0, "arithmetic operator ASTNode does not have two children"@),
    }
}

/// How generating an operand of a binary operator goes: a primary expression, which
/// must have exactly one child, or a nested operator.
pub open spec fn operand_shape(c: NodeView) -> GenShape
    decreases c, subtree_len(c) + 3,
{
    if c.kind is PrimaryExp {
        if subtree_len(c) != 1 {
            GenShape::Failed(0, "PrimaryExp ASTNode should only have one child."@)
        } else {
            primary_shape_from(c, 0)
        }
    } else {
        binop_shape(c)
    }
}

/// How generating the children of a primary expression node from index `i` on goes:
/// constants, and unary operators; anything else is an error.
pub open spec fn primary_shape_from(n: NodeView, i: int) -> GenShape
    decreases n, subtree_len(n) - i,
{
    match n.children {
        None => GenShape::Done(0),
        Some(cs) => if i < 0 || i >= cs.len() {
            GenShape::Done(0)
        } else {
            let c = cs[i];
            let first = match c.kind {
                KindView::Constant(_) => GenShape::Done(0),
                KindView::UnOp(op) => unary_shape(op, c),
                _ => GenShape::Failed(0, "token in primary children was not constant or unary operator"@),
            };
            then_shape(first, primary_shape_from(n, i + 1))
        },
    }
}

pub open spec fn unary_op_known(op: char) -> bool {
    op == '-' || op == '~' || op == '!'
}

/// How generating a unary operator node goes: its only operand, then the operator. A
/// node with no children at all stops the program.
pub open spec fn unary_shape(op: char, n: NodeView) -> GenShape
    decreases n, 0int,
{
    match n.children {
        None => GenShape::Aborted,
        Some(cs) => if cs.len() == 0 {
            GenShape::Aborted
        } else if cs.len() != 1 {
            GenShape::Failed(0, "length of unary children array > 1"@)
        } else {
            then_shape(
                if cs[0].kind is PrimaryExp {
                    primary_shape_from(cs[0], 0)
                } else {
                    binop_shape(cs[0])
                },
                if unary_op_known(op) {
                    GenShape::Done(0)
                } else {
                    GenShape::Failed(0, "failed when generating unary"@)
                },
            )
        },
    }
}

/// The instructions after the operand of a unary operator.
pub open spec fn unary_suffix(op: char, reg: Seq<char>) -> Seq<char> {
    if op == '-' {
        "neg "@ + reg + ", "@ + reg + "\n"@
    } else if op == '~' {
        "mvn "@ + reg + ", "@ + reg + "\n"@
    } else {
        "cmp "@ + reg + ", #0\ncset "@ + reg + ", eq\n"@
    }
}

/// The assembly for a binary operator node into register `reg`, given the labels `ls`
/// drawn on the way (when generation succeeds): the left operand into `w0` and the
/// right into `w1` (the right first when only it is a nested operator), then the
/// operator.
pub open spec fn binop_text(n: NodeView, reg: Seq<char>, ls: Seq<Seq<char>>) -> Seq<char>
    decreases n, 0int,
{
    match n.children {
        Some(cs) => if cs.len() == 2 {
            let a = shape_count(operand_shape(cs[0]));
            let b = shape_count(operand_shape(cs[1]));
            let t0 = operand_text(cs[0], "w0"@, ls.take(a as int));
            let t1 = operand_text(cs[1], "w1"@, ls.skip(a as int).take(b as int));
            (if cs[0].kind is PrimaryExp && !(cs[1].kind is PrimaryExp) {
                t1 + t0
            } else {
                t0 + t1
            }) + operator_text(n.kind, reg, ls.skip((a + b) as int)) + "\n"@
        } else {
            seq![]
        },
        None => seq![],
    }
}

/// The assembly for an operand of a binary operator into register `reg`.
pub open spec fn operand_text(c: NodeView, reg: Seq<char>, ls: Seq<Seq<char>>) -> Seq<char>
    decreases c, subtree_len(c) + 3,
{
    if c.kind is PrimaryExp {
        primary_text_from(c, 0, reg, ls)
    } else {
        binop_text(c, reg, ls) + "\n"@
    }
}

/// The assembly for the children of a primary expression node from index `i` on.
pub open spec fn primary_text_from(n: NodeView, i: int, reg: Seq<char>, ls: Seq<Seq<char>>) -> Seq<char>
    decreases n, subtree_len(n) - i,
{
    match n.children {
        None => seq![],
        Some(cs) => if i < 0 || i >= cs.len() {
            seq![]
        } else {
            let c = cs[i];
            match c.kind {
                KindView::Constant(v) => "mov "@ + reg + ", #"@ + v + "\n"@ + primary_text_from(n, i + 1, reg, ls),
                KindView::UnOp(op) => {
                    let a = shape_count(unary_shape(op, c));
                    unary_text(op, c, reg, ls.take(a as int)) + primary_text_from(n, i + 1, reg, ls.skip(a as int))
                },
                _ => seq![],
            }
        },
    }
}

/// The assembly for a unary operator node into register `reg`.
pub open spec fn unary_text(op: char, n: NodeView, reg: Seq<char>, ls: Seq<Seq<char>>) -> Seq<char>
    decreases n, 0int,
{
    match n.children {
        Some(cs) => if cs.len() == 1 {
            (if cs[0].kind is PrimaryExp {
                primary_text_from(cs[0], 0, reg, ls)
            } else {
                binop_text(cs[0], reg, ls)
            }) + unary_suffix(op, reg)
        } else {
            seq![]
        },
        None => seq![],
    }
}

/// How generating the first `i` of the nodes `cs` in turn goes, each by `f`, stopping at
/// the first that does not succeed.
pub open spec fn prefix_shape(cs: Seq<NodeView>, i: int, f: spec_fn(NodeView) -> GenShape) -> GenShape
    decreases i,
{
    if i <= 0 {
        GenShape::Done(0)
    } else {
        then_shape(prefix_shape(cs, i - 1, f), f(cs[i - 1]))
    }
}

/// The assembly generated for the first `i` of the nodes `cs` in turn, each by `g` with
/// the labels it drew, up to the first that does not succeed (which adds nothing).
pub open spec fn prefix_text(
    cs: Seq<NodeView>,
    i: int,
    ls: Seq<Seq<char>>,
    f: spec_fn(NodeView) -> GenShape,
    g: spec_fn(NodeView, Seq<Seq<char>>) -> Seq<char>,
) -> Seq<char>
    decreases i,
{
    if i <= 0 {
        seq![]
    } else {
        let before = prefix_shape(cs, i - 1, f);
        let a = shape_count(before);
        if before is Done && f(cs[i - 1]) is Done {
            prefix_text(cs, i - 1, ls.take(a as int), f, g) + g(cs[i - 1], ls.skip(a as int))
        } else {
            prefix_text(cs, i - 1, ls.take(a as int), f, g)
        }
    }
}

proof fn lemma_prefix_stuck_shape(cs: Seq<NodeView>, i: int, j: int, f: spec_fn(NodeView) -> GenShape)
    requires
        0 <= i <= j,
        !(prefix_shape(cs, i, f) is Done),
    ensures
        prefix_shape(cs, j, f) == prefix_shape(cs, i, f),
    decreases j - i,
{
    if j > i {
        lemma_prefix_stuck_shape(cs, i, j - 1, f);
    }
}

proof fn lemma_prefix_stuck(
    cs: Seq<NodeView>,
    i: int,
    j: int,
    ls: Seq<Seq<char>>,
    f: spec_fn(NodeView) -> GenShape,
    g: spec_fn(NodeView, Seq<Seq<char>>) -> Seq<char>,
)
    requires
        0 <= i < j,
        !(prefix_shape(cs, i, f) is Done),
        shape_count(prefix_shape(cs, i, f)) <= ls.len(),
    ensures
        prefix_shape(cs, j, f) == prefix_shape(cs, i, f),
        prefix_text(cs, j, ls, f, g) == prefix_text(
            cs,
            i,
            ls.take(shape_count(prefix_shape(cs, i, f)) as int),
            f,
            g,
        ),
    decreases j - i,
{
    let a = shape_count(prefix_shape(cs, i, f));
    if j > i + 1 {
        lemma_prefix_stuck(cs, i, j - 1, ls.take(a as int), f, g);
        assert(ls.take(a as int).take(a as int) =~= ls.take(a as int));
    }
}

proof fn lemma_prefix_child_runs(cs: Seq<NodeView>, i: int, n: int, f: spec_fn(NodeView) -> GenShape)
    requires
        0 <= i < n,
        prefix_shape(cs, i, f) is Done,
        !(prefix_shape(cs, n, f) is Aborted),
    ensures
        !(f(cs[i]) is Aborted),
{
    if f(cs[i]) is Aborted {
        assert(prefix_shape(cs, i + 1, f) is Aborted);
        if n > i + 1 {
            lemma_prefix_stuck_shape(cs, i + 1, n, f);
        }
    }
}

/// Generating the first `i + 1` nodes after the first `i` went to `Done(a)` and the
/// node at `i` drew `d_child`.
proof fn lemma_prefix_extend(
    cs: Seq<NodeView>,
    i: int,
    a: nat,
    d_before: Seq<Seq<char>>,
    d_child: Seq<Seq<char>>,
    f: spec_fn(NodeView) -> GenShape,
    g: spec_fn(NodeView, Seq<Seq<char>>) -> Seq<char>,
)
    requires
        0 <= i < cs.len(),
        prefix_shape(cs, i, f) == GenShape::Done(a),
        d_before.len() == a,
        d_child.len() == shape_count(f(cs[i])),
    ensures
        prefix_shape(cs, i + 1, f) == then_shape(GenShape::Done(a), f(cs[i])),
        f(cs[i]) is Done ==> prefix_text(cs, i + 1, d_before + d_child, f, g) == prefix_text(cs, i, d_before, f, g) + g(cs[i], d_child),
        !(f(cs[i]) is Done) ==> prefix_text(cs, i + 1, d_before + d_child, f, g) == prefix_text(cs, i, d_before, f, g),
{
    assert((d_before + d_child).take(a as int) =~= d_before);
    assert((d_before + d_child).skip(a as int) =~= d_child);
}

proof fn lemma_function_prefix_never_aborts(cs: Seq<NodeView>, i: int)
    ensures
        !(prefix_shape(cs, i, function_child_shapes()) is Aborted),
    decreases i,
{
    if i > 0 {
        lemma_function_prefix_never_aborts(cs, i - 1);
        let c = cs[i - 1];
        assert(!(function_child_shape(c) is Aborted));
    }
}

/// Generating a function never stops the program: a statement child that is not a
/// `return` is an error, not a crash.
proof fn lemma_function_never_aborts(n: NodeView)
    ensures
        !(function_shape(n) is Aborted),
{
    lemma_function_prefix_never_aborts(subtrees_of(n), subtree_len(n));
}

/// A kind of node that is generated as an operator expression.
pub open spec fn is_expression_kind(k: KindView) -> bool {
    ||| k is UnOp
    ||| k is MultDivOp
    ||| k is AddSubOp
    ||| k is ShiftOp
    ||| k is CmpOp
    ||| k is EqOp
    ||| k is BAndOp
    ||| k is BXOrOp
    ||| k is BOrOp
    ||| k is LAndOp
    ||| k is LOrOp
}

/// How generating one child of a `return` statement goes; a child that is neither a
/// primary expression nor an operator stops the program.
pub open spec fn statement_child_shape(c: NodeView) -> GenShape {
    if c.kind is PrimaryExp {
        primary_shape_from(c, 0)
    } else if is_expression_kind(c.kind) {
        binop_shape(c)
    } else {
        GenShape::Aborted
    }
}

pub open spec fn statement_child_text(c: NodeView, ls: Seq<Seq<char>>) -> Seq<char> {
    if c.kind is PrimaryExp {
        primary_text_from(c, 0, "w0"@, ls)
    } else {
        binop_text(c, "w0"@, ls)
    }
}

pub open spec fn statement_child_shapes() -> spec_fn(NodeView) -> GenShape {
    |c: NodeView| statement_child_shape(c)
}

pub open spec fn statement_child_texts() -> spec_fn(NodeView, Seq<Seq<char>>) -> Seq<char> {
    |c: NodeView, ls: Seq<Seq<char>>| statement_child_text(c, ls)
}

/// How generating a statement node goes: only a `return` is accepted, and each of its
/// children is generated into `w0`.
pub open spec fn statement_shape(n: NodeView) -> GenShape {
    if n.kind is Return {
        prefix_shape(subtrees_of(n), subtree_len(n), statement_child_shapes())
    } else {
        GenShape::Failed(0, "ASTNode passed to statement node was not of statement type"@)
    }
}

/// The assembly for a `return` statement: its children, then `ret`.
pub open spec fn statement_text(n: NodeView, ls: Seq<Seq<char>>) -> Seq<char> {
    prefix_text(subtrees_of(n), subtree_len(n), ls, statement_child_shapes(), statement_child_texts())
        + "ret"@
}

/// How generating one child of a function goes: statement nodes are generated, other
/// children are skipped.
pub open spec fn function_child_shape(c: NodeView) -> GenShape {
    if c.kind is Statement {
        statement_shape(c)
    } else {
        GenShape::Done(0)
    }
}

pub open spec fn function_child_text(c: NodeView, ls: Seq<Seq<char>>) -> Seq<char> {
    if c.kind is Statement {
        statement_text(c, ls)
    } else {
        seq![]
    }
}

pub open spec fn function_child_shapes() -> spec_fn(NodeView) -> GenShape {
    |c: NodeView| function_child_shape(c)
}

pub open spec fn function_child_texts() -> spec_fn(NodeView, Seq<Seq<char>>) -> Seq<char> {
    |c: NodeView, ls: Seq<Seq<char>>| function_child_text(c, ls)
}

/// How generating a function node goes.
pub open spec fn function_shape(n: NodeView) -> GenShape {
    if n.kind is FunctionDeclaration {
        prefix_shape(subtrees_of(n), subtree_len(n), function_child_shapes())
    } else {
        GenShape::Failed(0, "ASTNode passed to function was not of function type"@)
    }
}

/// The assembly for a function node: a global label for its name, then its statements.
pub open spec fn function_text(n: NodeView, ls: Seq<Seq<char>>) -> Seq<char> {
    match n.kind {
        KindView::FunctionDeclaration(_, id) => ".globl _"@ + id + "\n_"@ + id + ":\n"@ + prefix_text(
            subtrees_of(n),
            subtree_len(n),
            ls,
            function_child_shapes(),
            function_child_texts(),
        ),
        _ => seq![],
    }
}

/// How generating one child of the program goes: functions are generated, other
/// children are skipped.
pub open spec fn program_child_shape(c: NodeView) -> GenShape {
    if c.kind is FunctionDeclaration {
        function_shape(c)
    } else {
        GenShape::Done(0)
    }
}

pub open spec fn program_child_text(c: NodeView, ls: Seq<Seq<char>>) -> Seq<char> {
    if c.kind is FunctionDeclaration {
        function_text(c, ls)
    } else {
        seq![]
    }
}

pub open spec fn program_child_shapes() -> spec_fn(NodeView) -> GenShape {
    |c: NodeView| program_child_shape(c)
}

pub open spec fn program_child_texts() -> spec_fn(NodeView, Seq<Seq<char>>) -> Seq<char> {
    |c: NodeView, ls: Seq<Seq<char>>| program_child_text(c, ls)
}

/// How generating the whole program goes: the root must be a program node.
pub open spec fn program_shape(n: NodeView) -> GenShape {
    if n.kind is Program {
        prefix_shape(subtrees_of(n), subtree_len(n), program_child_shapes())
    } else {
        GenShape::Failed(0, "starting node is not Program node"@)
    }
}

/// The assembly added for the program: the assembly of each function in turn, up to
/// the first that fails.
pub open spec fn program_text(n: NodeView, ls: Seq<Seq<char>>) -> Seq<char> {
    if n.kind is Program {
        prefix_text(subtrees_of(n), subtree_len(n), ls, program_child_shapes(), program_child_texts())
    } else {
        seq![]
    }
}

proof fn lemma_child_decreases(n: NodeView, i: int)
    requires
        0 <= i < subtrees_of(n).len(),
    ensures
        decreases_to!(n => subtrees_of(n)[i]),
{
    let cs = n.children->0;
    assert(decreases_to!(n => n.children));
    assert(decreases_to!(n.children => cs));
    assert(decreases_to!(cs => cs[i]));
}

/// `a`, then `reg`, then `b`.
fn around(a: &str, reg: &str, b: &str) -> (res: String)
    ensures
        res@ == a@ + reg@ + b@,
{
    let mut s = String::new();
    s.append(a);
    s.append(reg);
    s.append(b);
    assert(s@ =~= a@ + reg@ + b@);
    s
}

/// Turns a syntax tree into assembly.
pub struct Generator {
    ast: ASTNode,
    assembly: String,
    labels: Ghost<Seq<Seq<char>>>,
}

/// A generation step from `before` to `after` that gave `res` went as `shape` says: the
/// tree and the assembly so far are kept, `shape`'s count of fresh label names is drawn,
/// and the step succeeded exactly when `shape` is `Done`.
pub open spec fn gen_step(before: Generator, after: Generator, shape: GenShape, res: Result<String, GeneratorError>) -> bool {
    &&& after.ast_view() == before.ast_view()
    &&& after.asm_text() == before.asm_text()
    &&& drew(before, after, shape_count(shape))
    &&& (res is Ok <==> shape is Done)
    &&& res matches Err(e) ==> (shape matches GenShape::Failed(_, m) && e.0@ == m)
}

/// From `before` to `after`, `count` label names were drawn, each a nanoid label.
pub open spec fn drew(before: Generator, after: Generator, count: nat) -> bool {
    &&& after.labels_drawn().len() == before.labels_drawn().len() + count
    &&& after.labels_drawn().take(before.labels_drawn().len() as int) == before.labels_drawn()
    &&& forall|i: int| before.labels_drawn().len() <= i < after.labels_drawn().len() ==> is_label(#[trigger] after.labels_drawn()[i])
}

/// The label names drawn from `before` to `after`.
pub open spec fn drawn_since(before: Generator, after: Generator) -> Seq<Seq<char>> {
    after.labels_drawn().skip(before.labels_drawn().len() as int)
}

proof fn lemma_drew_none(g: Generator)
    ensures
        drew(g, g, 0),
        drawn_since(g, g) =~= seq![],
{
    assert(g.labels_drawn().take(g.labels_drawn().len() as int) =~= g.labels_drawn());
}

proof fn lemma_drew_chain(a: Generator, b: Generator, c: Generator, m: nat, n: nat)
    requires
        drew(a, b, m),
        drew(b, c, n),
    ensures
        drew(a, c, m + n),
        drawn_since(a, c) =~= drawn_since(a, b) + drawn_since(b, c),
        drawn_since(a, c).take(m as int) =~= drawn_since(a, b),
        drawn_since(a, c).skip(m as int) =~= drawn_since(b, c),
{
    let la = a.labels_drawn();
    let lb = b.labels_drawn();
    let lc = c.labels_drawn();
    assert(lc.take(la.len() as int) =~= lb.take(la.len() as int));
    assert forall|i: int| la.len() <= i < lc.len() implies is_label(#[trigger] lc[i]) by {
        if i < lb.len() {
            assert(lc[i] == lc.take(lb.len() as int)[i]);
        }
    }
}

impl Generator {
    /// The tree to generate assembly for.
    pub closed spec fn ast_view(&self) -> NodeView {
        self.ast@
    }

    /// The assembly generated so far.
    pub closed spec fn asm_text(&self) -> Seq<char> {
        self.assembly@
    }

    /// The label names drawn so far, in order.
    pub closed spec fn labels_drawn(&self) -> Seq<Seq<char>> {
        self.labels@
    }

    /// A generator for the given tree, with no assembly yet.
    pub fn new(ast: ASTNode) -> (res: Generator)
        ensures
            res.ast_view() == ast@,
            res.asm_text() == Seq::<char>::empty(),
            res.labels_drawn() == Seq::<Seq<char>>::empty(),
    {
        let labels: Ghost<Seq<Seq<char>>> = Ghost(Seq::empty());
        Generator { ast, assembly: String::new(), labels }
    }

    /// An error carrying the message `msg`.
    fn fail(&self, msg: &str) -> (res: GeneratorError)
        ensures
            res.0@ == msg@,
    {
        GeneratorError(msg.to_owned())
    }

    /// Draws a fresh label name.
    fn draw_label(&mut self) -> (res: String)
        ensures
            final(self).ast_view() == old(self).ast_view(),
            final(self).asm_text() == old(self).asm_text(),
            final(self).labels_drawn() == old(self).labels_drawn().push(res@),
            is_label(res@),
    {
        let l = fresh_label();
        self.labels = Ghost(self.labels@.push(l@));
        l
    }

    fn generate_arithmetic(&mut self, ast: &ASTNode, register: &str) -> (res: Result<String, GeneratorError>)
        ensures
            *final(self) == *old(self),
            res is Ok <==> arithmetic_asm(ast@.kind, register@) is Some,
            res matches Ok(s) ==> s@ == arithmetic_asm(ast@.kind, register@)->0,
            res matches Err(e) ==> match ast@.kind {
                KindView::AddSubOp(op) => e.0@ == invalid_operator_message(op),
                KindView::MultDivOp(op) => e.0@ == invalid_operator_message(op),
                _ => e.0@ == "generate_arithmetic() called with ast node which is not arithmetic"@,
            },
    {
        let op = match ast.get_kind() {
            ASTNodeKind::AddSubOp(op) => *op,
            ASTNodeKind::MultDivOp(op) => *op,
            _ => {
                return Err(self.fail("generate_arithmetic() called with ast node which is not arithmetic"));
            },
        };
        if op == '+' {
            Ok(around("add ", register, ", w0, w1"))
        } else if op == '-' {
            Ok(around("sub ", register, ", w0, w1"))
        } else if op == '*' {
            Ok(around("mul ", register, ", w0, w1"))
        } else if op == '/' {
            Ok(around("udiv ", register, ", w0, w1"))
        } else {
            let mut msg = "invalid arithmetic operator ".to_owned();
            msg.push(op);
            Err(self.fail(msg.as_str()))
        }
    }

    fn generate_logical(&mut self, ast: &ASTNode, register: &str) -> (res: Result<String, GeneratorError>)
        ensures
            final(self).ast_view() == old(self).ast_view(),
            final(self).asm_text() == old(self).asm_text(),
            drew(*old(self), *final(self), 2),
            res is Ok <==> logical_asm(ast@.kind, register@, seq![], seq![]) is Some,
            res matches Ok(s) ==> s@ == logical_asm(
                ast@.kind,
                register@,
                drawn_since(*old(self), *final(self))[0],
                drawn_since(*old(self), *final(self))[1],
            )->0,
    {
        let start_label_name = self.draw_label();
        let end_label_name = self.draw_label();
        proof {
            let d = drawn_since(*old(self), *self);
            assert(d =~= seq![start_label_name@, end_label_name@]);
            assert(self.labels_drawn().take(old(self).labels_drawn().len() as int) =~= old(self).labels_drawn());
        }
        let (jump, value) = match ast.get_kind() {
            ASTNodeKind::LAndOp => ("cmp w0, #0\nb.ne _", ", #0\njmp _"),
            ASTNodeKind::LOrOp => ("cmp w0, #0\nb.eq _", ", #1\njmp _"),
            _ => {
                return Err(self.fail("generate_logical() called with ast node which is not logical"));
            },
        };
        let mut s = String::new();
        s.append(jump);
        s.append(start_label_name.as_str());
        s.append("\nmov ");
        s.append(register);
        s.append(value);
        s.append(end_label_name.as_str());
        s.append("\n_");
        s.append(start_label_name.as_str());
        s.append("\ncmp w1, #0\ncset ");
        s.append(register);
        s.append(", ne\n_");
        s.append(end_label_name.as_str());
        proof {
            let k = ast@.kind;
            let e = logical_asm(k, register@, start_label_name@, end_label_name@)->0;
            assert(s@ =~= e);
        }
        Ok(s)
    }

    fn generate_bitwise(&mut self, ast: &ASTNode, register: &str) -> (res: Result<String, GeneratorError>)
        ensures
            *final(self) == *old(self),
            res is Ok <==> bitwise_asm(ast@.kind, register@) is Some,
            res matches Ok(s) ==> s@ == bitwise_asm(ast@.kind, register@)->0,
    {
        match ast.get_kind() {
            ASTNodeKind::BAndOp => Ok(around("and ", register, ", w0, w1")),
            ASTNodeKind::BOrOp => Ok(around("orr ", register, ", w0, w1")),
            ASTNodeKind::BXOrOp => Ok(around("eor ", register, ", w0, w1")),
            _ => Err(self.fail("generate_bitwise() called with ast node which is not bitwise")),
        }
    }

    fn generate_equative(&mut self, ast: &ASTNode, register: &str) -> (res: Result<String, GeneratorError>)
        ensures
            *final(self) == *old(self),
            res is Ok <==> equative_asm(ast@.kind, register@) is Some,
            res matches Ok(s) ==> s@ == equative_asm(ast@.kind, register@)->0,
    {
        match ast.get_kind() {
            ASTNodeKind::EqOp(EqType::Eq) => Ok(around("cmp w0, w1\ncset ", register, ", eq")),
            ASTNodeKind::EqOp(EqType::Ne) => Ok(around("cmp w0, w1\ncset ", register, ", ne")),
            _ => Err(self.fail("generate_equative called with ast node which is not equative")),
        }
    }

    fn generate_comparative(&mut self, ast: &ASTNode, register: &str) -> (res: Result<String, GeneratorError>)
        ensures
            *final(self) == *old(self),
            res is Ok <==> comparative_asm(ast@.kind, register@) is Some,
            res matches Ok(s) ==> s@ == comparative_asm(ast@.kind, register@)->0,
    {
        match ast.get_kind() {
            ASTNodeKind::CmpOp(CmpType::Ge) => Ok(around("cmp w0, w1\ncset ", register, ", ge")),
            ASTNodeKind::CmpOp(CmpType::Le) => Ok(around("cmp w0, w1\ncset ", register, ", le")),
            ASTNodeKind::CmpOp(CmpType::Gt) => Ok(around("cmp w0, w1\ncset ", register, ", gt")),
            ASTNodeKind::CmpOp(CmpType::Lt) => Ok(around("cmp w0, w1\ncset ", register, ", lt")),
            _ => Err(self.fail("generate_comparative called with ast node which is not comparative")),
        }
    }

    fn generate_shift(&mut self, ast: &ASTNode, register: &str) -> (res: Result<String, GeneratorError>)
        ensures
            *final(self) == *old(self),
            res is Ok <==> shift_asm(ast@.kind, register@) is Some,
            res matches Ok(s) ==> s@ == shift_asm(ast@.kind, register@)->0,
    {
        match ast.get_kind() {
            ASTNodeKind::ShiftOp(ShiftType::Right) => Ok(around("lsr ", register, ", w0, w1")),
            ASTNodeKind::ShiftOp(ShiftType::Left) => Ok(around("lsl ", register, ", w0, w1")),
            _ => Err(self.fail("generate_shift called with ast node which is not a shift operation")),
        }
    }

    /// Whether a kind is a primary expression.
    fn is_primary(kind: &ASTNodeKind) -> (res: bool)
        ensures
            res == (kind@ is PrimaryExp),
    {
        match kind {
            ASTNodeKind::PrimaryExp => true,
            _ => false,
        }
    }

    /// Generates one operand of a binary operator into register `register`: a primary
    /// expression, which must have exactly one child, or a nested operator followed by
    /// a newline.
    fn generate_operand(&mut self, ast: &ASTNode, register: &str) -> (res: Result<String, GeneratorError>)
        requires
            !(operand_shape(ast@) is Aborted),
        ensures
            gen_step(*old(self), *final(self), operand_shape(ast@), res),
            res matches Ok(s) ==> s@ == operand_text(ast@, register@, drawn_since(*old(self), *final(self))),
        decreases ast@, subtree_len(ast@) + 3,
    {
        proof {
            lemma_drew_none(*self);
        }
        if !Self::is_primary(ast.get_kind()) {
            let t = match self.generate_binary_op(ast, register) {
                Ok(t) => t,
                Err(e) => {
                    return Err(e);
                },
            };
            let mut s = String::new();
            s.append(t.as_str());
            s.append("\n");
            assert(s@ =~= t@ + "\n"@);
            Ok(s)
        } else {
            if ast.subtree_count() != 1 {
                return Err(self.fail("PrimaryExp ASTNode should only have one child."));
            }
            self.generate_primary_with_register(ast, register)
        }
    }

    /// Generates a binary operator node into register `register`: the left operand
    /// into `w0`, the right into `w1` (the right first when only it is a nested
    /// operator, so that `w0` is not overwritten), then the operator.
    #[verifier::spinoff_prover]
    #[verifier::rlimit(40)]
    fn generate_binary_op(&mut self, ast: &ASTNode, register: &str) -> (res: Result<String, GeneratorError>)
        requires
            !(binop_shape(ast@) is Aborted),
        ensures
            gen_step(*old(self), *final(self), binop_shape(ast@), res),
            res matches Ok(s) ==> s@ == binop_text(ast@, register@, drawn_since(*old(self), *final(self))),
        decreases ast@, 0int,
    {
        let ghost g0 = *self;
        proof {
            lemma_drew_none(g0);
        }
        if ast.subtree_count() != 2 {
            return Err(self.fail("arithmetic operator ASTNode does not have two children"));
        }
        let c0 = ast.subtree(0);
        let c1 = ast.subtree(1);
        proof {
            lemma_child_decreases(ast@, 0);
            lemma_child_decreases(ast@, 1);
        }
        let ghost a = shape_count(operand_shape(c0@));
        let ghost b = shape_count(operand_shape(c1@));
        let lhs_string = match self.generate_operand(c0, "w0") {
            Ok(t) => t,
            Err(e) => {
                return Err(e);
            },
        };
        let ghost g1 = *self;
        let rhs_string = match self.generate_operand(c1, "w1") {
            Ok(t) => t,
            Err(e) => {
                proof {
                    lemma_drew_chain(g0, g1, *self, a, b);
                }
                return Err(e);
            },
        };
        let ghost g2 = *self;
        proof {
            lemma_drew_chain(g0, g1, g2, a, b);
        }
        let mut arithmetic_string = String::new();
        if Self::is_primary(c0.get_kind()) && !Self::is_primary(c1.get_kind()) {
            arithmetic_string.append(rhs_string.as_str());
            arithmetic_string.append(lhs_string.as_str());
        } else {
            arithmetic_string.append(lhs_string.as_str());
            arithmetic_string.append(rhs_string.as_str());
        }
        let op = match ast.get_kind() {
            ASTNodeKind::AddSubOp(_) | ASTNodeKind::MultDivOp(_) => self.generate_arithmetic(ast, register),
            ASTNodeKind::LOrOp | ASTNodeKind::LAndOp => self.generate_logical(ast, register),
            ASTNodeKind::BOrOp | ASTNodeKind::BXOrOp | ASTNodeKind::BAndOp => self.generate_bitwise(ast, register),
            ASTNodeKind::EqOp(_) => self.generate_equative(ast, register),
            ASTNodeKind::CmpOp(_) => self.generate_comparative(ast, register),
            ASTNodeKind::ShiftOp(_) => self.generate_shift(ast, register),
            _ => {
                proof {
                    assert(false);
                }
                return Err(self.fail("not an operator"));
            },
        };
        let ghost c = shape_count(operator_shape(ast@.kind));
        proof {
            if c == 0 {
                lemma_drew_none(*self);
            }
            lemma_drew_chain(g0, g2, *self, (a + b) as nat, c);
            let d = drawn_since(g0, *self);
            assert(d.take(a as int) =~= drawn_since(g0, g1));
            assert(d.skip(a as int).take(b as int) =~= drawn_since(g1, g2));
        }
        let op = match op {
            Ok(t) => t,
            Err(e) => {
                return Err(e);
            },
        };
        arithmetic_string.append(op.as_str());
        arithmetic_string.append("\n");
        proof {
            let d = drawn_since(g0, *self);
            assert(arithmetic_string@ =~= binop_text(ast@, register@, d));
        }
        Ok(arithmetic_string)
    }

    /// Generates the children of a primary expression node into register `register`:
    /// a constant is moved into it, a unary operator generated into it; anything else
    /// is an error.
    fn generate_primary_with_register(&mut self, ast: &ASTNode, register: &str) -> (res: Result<String, GeneratorError>)
        requires
            !(primary_shape_from(ast@, 0) is Aborted),
        ensures
            gen_step(*old(self), *final(self), primary_shape_from(ast@, 0), res),
            res matches Ok(s) ==> s@ == primary_text_from(ast@, 0, register@, drawn_since(*old(self), *final(self))),
        decreases ast@, subtree_len(ast@) + 1,
    {
        self.generate_primary_from(ast, 0, register)
    }

    fn generate_primary_from(&mut self, ast: &ASTNode, i: usize, register: &str) -> (res: Result<String, GeneratorError>)
        requires
            !(primary_shape_from(ast@, i as int) is Aborted),
        ensures
            gen_step(*old(self), *final(self), primary_shape_from(ast@, i as int), res),
            res matches Ok(s) ==> s@ == primary_text_from(ast@, i as int, register@, drawn_since(*old(self), *final(self))),
        decreases ast@, subtree_len(ast@) - i,
    {
        let ghost g0 = *self;
        proof {
            lemma_drew_none(g0);
        }
        if i >= ast.subtree_count() {
            return Ok(String::new());
        }
        let child = ast.subtree(i);
        proof {
            lemma_child_decreases(ast@, i as int);
        }
        let first = match child.get_kind() {
            ASTNodeKind::Constant(v) => around("mov ", register, ", #").concat(v.as_str()).concat("\n"),
            ASTNodeKind::UnOp(op) => match self.generate_unary(op, child, register) {
                Ok(t) => t,
                Err(e) => {
                    return Err(e);
                },
            },
            _ => {
                return Err(self.fail("token in primary children was not constant or unary operator"));
            },
        };
        let ghost g1 = *self;
        let ghost a = (g1.labels_drawn().len() - g0.labels_drawn().len()) as nat;
        let ghost b = shape_count(primary_shape_from(ast@, i + 1));
        let rest = match self.generate_primary_from(ast, i + 1, register) {
            Ok(t) => t,
            Err(e) => {
                proof {
                    lemma_drew_chain(g0, g1, *self, a, b);
                }
                return Err(e);
            },
        };
        proof {
            lemma_drew_chain(g0, g1, *self, a, b);
        }
        let result = first.concat(rest.as_str());
        proof {
            let d = drawn_since(g0, *self);
            assert(result@ =~= primary_text_from(ast@, i as int, register@, d));
        }
        Ok(result)
    }

    /// Generates a unary operator node into register `register`: its only operand,
    /// then the operator.
    fn generate_unary(&mut self, op: &char, ast: &ASTNode, register: &str) -> (res: Result<String, GeneratorError>)
        requires
            !(unary_shape(*op, ast@) is Aborted),
        ensures
            gen_step(*old(self), *final(self), unary_shape(*op, ast@), res),
            res matches Ok(s) ==> s@ == unary_text(*op, ast@, register@, drawn_since(*old(self), *final(self))),
        decreases ast@, 0int,
    {
        proof {
            lemma_drew_none(*self);
        }
        if ast.subtree_count() != 1 {
            return Err(self.fail("length of unary children array > 1"));
        }
        let child = ast.subtree(0);
        proof {
            lemma_child_decreases(ast@, 0);
        }
        let inner = if Self::is_primary(child.get_kind()) {
            self.generate_primary_with_register(child, register)
        } else {
            self.generate_binary_op(child, register)
        };
        let mut unary_str = match inner {
            Ok(t) => t,
            Err(e) => {
                return Err(e);
            },
        };
        if *op == '-' {
            unary_str.append("neg ");
            unary_str.append(register);
            unary_str.append(", ");
            unary_str.append(register);
            unary_str.append("\n");
        } else if *op == '~' {
            unary_str.append("mvn ");
            unary_str.append(register);
            unary_str.append(", ");
            unary_str.append(register);
            unary_str.append("\n");
        } else if *op == '!' {
            unary_str.append("cmp ");
            unary_str.append(register);
            unary_str.append(", #0\ncset ");
            unary_str.append(register);
            unary_str.append(", eq\n");
        } else {
            return Err(self.fail("failed when generating unary"));
        }
        proof {
            assert(unary_str@ =~= unary_text(*op, ast@, register@, drawn_since(*old(self), *self)));
        }
        Ok(unary_str)
    }

    /// Generates a `return` statement: each of its children into `w0`, then `ret`. A
    /// node that is not a `return` is an error; a child that is neither a primary
    /// expression nor an operator stops the program, so such trees are left out.
    pub fn generate_statement(&mut self, ast: &ASTNode) -> (res: Result<String, GeneratorError>)
        requires
            !(statement_shape(ast@) is Aborted),
        ensures
            gen_step(*old(self), *final(self), statement_shape(ast@), res),
            res matches Ok(s) ==> s@ == statement_text(ast@, drawn_since(*old(self), *final(self))),
    {
        let ghost g0 = *self;
        proof {
            lemma_drew_none(g0);
        }
        match ast.get_kind() {
            ASTNodeKind::Return => {},
            _ => {
                return Err(self.fail("ASTNode passed to statement node was not of statement type"));
            },
        }
        let ghost cs = subtrees_of(ast@);
        let ghost f = statement_child_shapes();
        let ghost g = statement_child_texts();
        let n = ast.subtree_count();
        let mut statement_str = String::new();
        let mut i: usize = 0;
        while i < n
            invariant
                n == cs.len(),
                cs == subtrees_of(ast@),
                ast@.kind is Return,
                g0 == *old(self),
                f == statement_child_shapes(),
                g == statement_child_texts(),
                !(prefix_shape(cs, n as int, f) is Aborted),
                i <= n,
                self.ast_view() == g0.ast_view(),
                self.asm_text() == g0.asm_text(),
                prefix_shape(cs, i as int, f) == GenShape::Done((self.labels_drawn().len() - g0.labels_drawn().len()) as nat),
                drew(g0, *self, (self.labels_drawn().len() - g0.labels_drawn().len()) as nat),
                statement_str@ == prefix_text(cs, i as int, drawn_since(g0, *self), f, g),
            decreases n - i,
        {
            let ghost gi = *self;
            let ghost a = (self.labels_drawn().len() - g0.labels_drawn().len()) as nat;
            let child = ast.subtree(i);
            proof {
                lemma_prefix_child_runs(cs, i as int, n as int, f);
            }
            let kind = child.get_kind();
            let t = if Self::is_primary(kind) {
                self.generate_primary_with_register(child, "w0")
            } else {
                match kind {
                    ASTNodeKind::UnOp(_) | ASTNodeKind::MultDivOp(_) | ASTNodeKind::AddSubOp(_)
                    | ASTNodeKind::ShiftOp(_) | ASTNodeKind::CmpOp(_) | ASTNodeKind::EqOp(_)
                    | ASTNodeKind::BAndOp | ASTNodeKind::BXOrOp | ASTNodeKind::BOrOp
                    | ASTNodeKind::LAndOp | ASTNodeKind::LOrOp => self.generate_binary_op(child, "w0"),
                    _ => {
                        proof {
                            assert(false);
                        }
                        Err(self.fail("unsupported statement child"))
                    },
                }
            };
            let ghost b = shape_count(f(cs[i as int]));
            proof {
                lemma_drew_chain(g0, gi, *self, a, b);
                lemma_prefix_extend(cs, i as int, a, drawn_since(g0, gi), drawn_since(gi, *self), f, g);
                if !(f(cs[i as int]) is Done) {
                    lemma_prefix_stuck_shape(cs, i as int + 1, n as int, f);
                }
            }
            match t {
                Ok(s) => {
                    statement_str.append(s.as_str());
                },
                Err(e) => {
                    return Err(e);
                },
            }
            i = i + 1;
        }
        statement_str.append("ret");
        Ok(statement_str)
    }


    /// Generates a function: a global label for its name, then each of its statement
    /// children.
    fn generate_function(&mut self, ast: &ASTNode) -> (res: Result<String, GeneratorError>)
        ensures
            gen_step(*old(self), *final(self), function_shape(ast@), res),
            res matches Ok(s) ==> s@ == function_text(ast@, drawn_since(*old(self), *final(self))),
    {
        let ghost g0 = *self;
        proof {
            lemma_drew_none(g0);
        }
        let id = match ast.get_kind() {
            ASTNodeKind::FunctionDeclaration(_, id) => id,
            _ => {
                return Err(self.fail("ASTNode passed to function was not of function type"));
            },
        };
        let mut func_str = String::new();
        func_str.append(".globl _");
        func_str.append(id.as_str());
        func_str.append("\n_");
        func_str.append(id.as_str());
        func_str.append(":\n");
        let ghost header = func_str@;
        let ghost cs = subtrees_of(ast@);
        let ghost f = function_child_shapes();
        let ghost g = function_child_texts();
        let n = ast.subtree_count();
        let mut i: usize = 0;
        while i < n
            invariant
                n == cs.len(),
                cs == subtrees_of(ast@),
                ast@.kind is FunctionDeclaration,
                header == ".globl _"@ + ast@.kind->FunctionDeclaration_1 + "\n_"@ + ast@.kind->FunctionDeclaration_1 + ":\n"@,
                g0 == *old(self),
                f == function_child_shapes(),
                g == function_child_texts(),
                i <= n,
                self.ast_view() == g0.ast_view(),
                self.asm_text() == g0.asm_text(),
                prefix_shape(cs, i as int, f) == GenShape::Done((self.labels_drawn().len() - g0.labels_drawn().len()) as nat),
                drew(g0, *self, (self.labels_drawn().len() - g0.labels_drawn().len()) as nat),
                func_str@ == header + prefix_text(cs, i as int, drawn_since(g0, *self), f, g),
            decreases n - i,
        {
            let ghost gi = *self;
            let ghost a = (self.labels_drawn().len() - g0.labels_drawn().len()) as nat;
            let child = ast.subtree(i);
            let is_statement = match child.get_kind() {
                ASTNodeKind::Statement(_) => true,
                _ => false,
            };
            if is_statement {
                let t = self.generate_statement(child);
                let ghost b = shape_count(f(cs[i as int]));
                proof {
                    lemma_drew_chain(g0, gi, *self, a, b);
                    lemma_prefix_extend(cs, i as int, a, drawn_since(g0, gi), drawn_since(gi, *self), f, g);
                    if !(f(cs[i as int]) is Done) {
                        lemma_prefix_stuck_shape(cs, i as int + 1, n as int, f);
                    }
                }
                match t {
                    Ok(s) => {
                        func_str.append(s.as_str());
                    },
                    Err(e) => {
                        return Err(e);
                    },
                }
            } else {
                proof {
                    lemma_drew_none(*self);
                    lemma_drew_chain(g0, gi, *self, a, 0);
                    lemma_prefix_extend(cs, i as int, a, drawn_since(g0, gi), drawn_since(gi, *self), f, g);
                    assert(g(cs[i as int], drawn_since(gi, *self)) =~= seq![]);
                }
            }
            proof {
                assert(func_str@ =~= header + prefix_text(cs, i as int + 1, drawn_since(g0, *self), f, g));
            }
            i = i + 1;
        }
        Ok(func_str)
    }

    /// Generates the whole tree, which must be a program: each function child in turn,
    /// its assembly appended to the assembly so far. Returns all the assembly so far.
    pub fn generate(&mut self) -> (res: Result<String, GeneratorError>)
        ensures
            final(self).ast_view() == old(self).ast_view(),
            drew(*old(self), *final(self), shape_count(program_shape(old(self).ast_view()))),
            final(self).asm_text() == old(self).asm_text() + program_text(
                old(self).ast_view(),
                drawn_since(*old(self), *final(self)),
            ),
            res is Ok <==> program_shape(old(self).ast_view()) is Done,
            res matches Err(e) ==> (program_shape(old(self).ast_view()) matches GenShape::Failed(_, m)
                && e.0@ == m),
            res matches Ok(s) ==> s@ == final(self).asm_text(),
    {
        let ghost g0 = *self;
        proof {
            lemma_drew_none(g0);
        }
        let is_program = match self.ast.get_kind() {
            ASTNodeKind::Program => true,
            _ => false,
        };
        if !is_program {
            assert(self.assembly@ =~= g0.asm_text() + seq![]);
            return Err(self.fail("starting node is not Program node"));
        }
        let children: Vec<Box<ASTNode>> = self.ast.get_subtrees();
        let ghost cs = subtrees_of(g0.ast_view());
        let ghost f = program_child_shapes();
        let ghost g = program_child_texts();
        let n = children.len();
        let mut i: usize = 0;
        assert(self.assembly@ =~= g0.asm_text() + prefix_text(cs, 0, drawn_since(g0, *self), f, g));
        while i < n
            invariant
                n == cs.len(),
                crate::ast::boxes_view(children@) == cs,
                cs == subtrees_of(g0.ast_view()),
                g0.ast_view().kind is Program,
                g0 == *old(self),
                f == program_child_shapes(),
                g == program_child_texts(),
                i <= n,
                self.ast_view() == g0.ast_view(),
                prefix_shape(cs, i as int, f) == GenShape::Done((self.labels_drawn().len() - g0.labels_drawn().len()) as nat),
                drew(g0, *self, (self.labels_drawn().len() - g0.labels_drawn().len()) as nat),
                self.asm_text() == g0.asm_text() + prefix_text(cs, i as int, drawn_since(g0, *self), f, g),
            decreases n - i,
        {
            let ghost gi = *self;
            let ghost a = (self.labels_drawn().len() - g0.labels_drawn().len()) as nat;
            let child: &ASTNode = &*children[i];
            assert(child@ == cs[i as int]);
            let is_function = match child.get_kind() {
                ASTNodeKind::FunctionDeclaration(_, _) => true,
                _ => false,
            };
            if is_function {
                let t = self.generate_function(child);
                let ghost b = shape_count(f(cs[i as int]));
                proof {
                    lemma_function_never_aborts(cs[i as int]);
                    lemma_drew_chain(g0, gi, *self, a, b);
                    lemma_prefix_extend(cs, i as int, a, drawn_since(g0, gi), drawn_since(gi, *self), f, g);
                }
                match t {
                    Ok(s) => {
                        self.assembly.append(s.as_str());
                    },
                    Err(e) => {
                        proof {
                            let d = drawn_since(g0, *self);
                            assert(!(f(cs[i as int]) is Done));
                            assert(d == drawn_since(g0, gi) + drawn_since(gi, *self));
                            assert(prefix_text(cs, i as int + 1, d, f, g) == prefix_text(cs, i as int, drawn_since(g0, gi), f, g));
                            assert(self.asm_text() == gi.asm_text());
                            if i + 1 < n {
                                lemma_prefix_stuck(cs, i as int + 1, n as int, d, f, g);
                                assert(d.take((a + b) as int) =~= d);
                            }
                            assert(self.asm_text() == g0.asm_text() + prefix_text(cs, n as int, d, f, g));
                        }
                        return Err(e);
                    },
                }
            } else {
                proof {
                    lemma_drew_none(*self);
                    lemma_drew_chain(g0, gi, *self, a, 0);
                    lemma_prefix_extend(cs, i as int, a, drawn_since(g0, gi), drawn_since(gi, *self), f, g);
                    assert(g(cs[i as int], drawn_since(gi, *self)) =~= seq![]);
                }
            }
            proof {
                assert(self.asm_text() =~= g0.asm_text() + prefix_text(cs, i as int + 1, drawn_since(g0, *self), f, g));
            }
            i = i + 1;
        }
        Ok(self.assembly.clone())
    }

}

} // verus!
