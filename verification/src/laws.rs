use vstd::prelude::*;

use crate::ast::{node_with, subtrees_of, with_child, KindView, NodeView};
use crate::codegen::{
    function_child_shape, function_child_shapes, function_child_texts, function_shape,
    function_text, prefix_shape, program_child_shape, program_child_text, statement_shape,
    prefix_text, program_child_shapes, program_child_texts, program_shape, program_text, GenShape,
};
use crate::parser::{
    binary_operator, expression_assign_type, spec_assignment, spec_binary, spec_chain,
    spec_function_after, spec_functions, spec_operand, spec_paren, spec_primary, spec_program,
    spec_statement_after, spec_statements, spec_unary, tokens_left, unary_operator,
};
use crate::tokens::{decimal_text, decimal_usize, digit_char, digits_value, is_digit, without_plus, Token};

verus! {

/// The global label that opens the assembly of a function node.
pub open spec fn function_header(f: NodeView) -> Seq<char> {
    match f.kind {
        KindView::FunctionDeclaration(_, id) => ".globl _"@ + id + "\n_"@ + id + ":\n"@,
        _ => seq![],
    }
}

/// The headers of the first `n` of the function nodes `fs`, in order.
pub open spec fn function_headers(fs: Seq<NodeView>, n: int) -> Seq<char>
    decreases n,
{
    if n <= 0 {
        seq![]
    } else {
        function_headers(fs, n - 1) + function_header(fs[n - 1])
    }
}

/// No node of `cs` is a statement node.
pub open spec fn no_statement_nodes(cs: Seq<NodeView>) -> bool {
    forall|j: int| 0 <= j < cs.len() ==> !(#[trigger] cs[j].kind is Statement)
}

/// Every node of `fs` is a function node none of whose children is a statement node.
pub open spec fn parsed_functions(fs: Seq<NodeView>) -> bool {
    forall|j: int| 0 <= j < fs.len() ==> {
        &&& (#[trigger] fs[j]).kind is FunctionDeclaration
        &&& no_statement_nodes(subtrees_of(fs[j]))
    }
}

proof fn lemma_digit_char(d: nat)
    ensures
        is_digit(digit_char(d)),
        digit_char(d) as int - '0' as int == d % 10,
{
}

proof fn lemma_decimal_text(n: nat)
    ensures
        decimal_text(n).len() > 0,
        forall|i: int| 0 <= i < decimal_text(n).len() ==> is_digit(#[trigger] decimal_text(n)[i]),
        digits_value(decimal_text(n)) == n,
    decreases n,
{
    lemma_digit_char(n);
    if n < 10 {
        let s = decimal_text(n);
        assert(s.drop_last() =~= seq![]);
        assert(digits_value(s.drop_last()) == 0);
    } else {
        lemma_decimal_text(n / 10);
        lemma_digit_char(n % 10);
        let s = decimal_text(n);
        let p = decimal_text(n / 10);
        assert(s == p.push(digit_char(n % 10)));
        assert(s.drop_last() =~= p);
        assert(forall|i: int| 0 <= i < p.len() ==> s[i] == p[i]);
        assert((n % 10) % 10 == n % 10);
        assert(n == (n / 10) * 10 + n % 10);
    }
}

/// Writing a `usize` in decimal and reading the text back gives the number again: the
/// value of an integer constant survives its trip through the text of a constant node.
pub proof fn law_decimal_round_trip(n: usize)
    ensures
        decimal_usize(decimal_text(n as nat)) == Some(n),
{
    let s = decimal_text(n as nat);
    lemma_decimal_text(n as nat);
    assert(is_digit(s[0]));
    assert(without_plus(s) == s);
}

proof fn lemma_statement_not_statement_node(t: Token, ts: Seq<Token>, pos: int)
    ensures
        spec_statement_after(t, ts, pos).0 matches Ok(n) ==> !(n.kind is Statement),
{
}

proof fn lemma_statements_parsed(ts: Seq<Token>, pos: int)
    ensures
        spec_statements(ts, pos).0 matches Ok(ss) ==> no_statement_nodes(ss),
    decreases tokens_left(ts, pos),
{
    if 0 <= pos < ts.len() && !(ts[pos] is RightBrace) {
        let (st, k) = spec_statement_after(ts[pos], ts, pos + 1);
        lemma_statement_not_statement_node(ts[pos], ts, pos + 1);
        if let Ok(sv) = st {
            lemma_statements_parsed(ts, pos + 1 + k);
            let (rest, k2) = spec_statements(ts, pos + 1 + k);
            if let Ok(r) = rest {
                let all = seq![sv] + r;
                assert forall|j: int| 0 <= j < all.len() implies !(#[trigger] all[j].kind is Statement) by {
                    if j > 0 {
                        assert(all[j] == r[j - 1]);
                    }
                }
            }
        }
    }
}

proof fn lemma_function_parsed(t: Token, ts: Seq<Token>, pos: int)
    ensures
        spec_function_after(t, ts, pos).0 matches Ok(f) ==> {
            &&& f.kind is FunctionDeclaration
            &&& no_statement_nodes(subtrees_of(f))
        },
{
    if let Token::DataType(dt) = t {
        if 0 <= pos < ts.len() {
            if let Token::Identifier(id) = ts[pos] {
                lemma_statements_parsed(ts, pos + 4);
                if let Ok(ss) = spec_statements(ts, pos + 4).0 {
                    let f = node_with(KindView::FunctionDeclaration(dt@, id@), ss);
                    assert(subtrees_of(f) =~= ss);
                }
            }
        }
    }
}

proof fn lemma_functions_parsed(ts: Seq<Token>, pos: int)
    ensures
        spec_functions(ts, pos).0 matches Ok(fs) ==> parsed_functions(fs),
    decreases tokens_left(ts, pos),
{
    if 0 <= pos < ts.len() {
        let (f, k) = spec_function_after(ts[pos], ts, pos + 1);
        lemma_function_parsed(ts[pos], ts, pos + 1);
        if let Ok(fv) = f {
            lemma_functions_parsed(ts, pos + 1 + k);
            let (rest, k2) = spec_functions(ts, pos + 1 + k);
            if let Ok(r) = rest {
                let all = seq![fv] + r;
                assert forall|j: int| 0 <= j < all.len() implies {
                    &&& (#[trigger] all[j]).kind is FunctionDeclaration
                    &&& no_statement_nodes(subtrees_of(all[j]))
                } by {
                    if j > 0 {
                        assert(all[j] == r[j - 1]);
                    }
                }
            }
        }
    }
}

proof fn lemma_body_skipped(cs: Seq<NodeView>, i: int, ls: Seq<Seq<char>>)
    requires
        0 <= i <= cs.len(),
        no_statement_nodes(cs),
    ensures
        prefix_shape(cs, i, function_child_shapes()) == GenShape::Done(0),
        prefix_text(cs, i, ls, function_child_shapes(), function_child_texts()) == Seq::<char>::empty(),
    decreases i,
{
    if i > 0 {
        lemma_body_skipped(cs, i - 1, ls.take(0));
        assert(!(cs[i - 1].kind is Statement));
        assert(prefix_text(cs, i - 1, ls.take(0), function_child_shapes(), function_child_texts()) + Seq::<char>::empty() =~= Seq::<char>::empty());
    }
}

proof fn lemma_function_generates_header(f: NodeView, ls: Seq<Seq<char>>)
    requires
        f.kind is FunctionDeclaration,
        no_statement_nodes(subtrees_of(f)),
    ensures
        function_shape(f) == GenShape::Done(0),
        function_text(f, ls) == function_header(f),
{
    lemma_body_skipped(subtrees_of(f), subtrees_of(f).len() as int, ls);
    assert(function_text(f, ls) =~= function_header(f));
}

proof fn lemma_program_prefix(fs: Seq<NodeView>, i: int, ls: Seq<Seq<char>>)
    requires
        0 <= i <= fs.len(),
        parsed_functions(fs),
    ensures
        prefix_shape(fs, i, program_child_shapes()) == GenShape::Done(0),
        prefix_text(fs, i, ls, program_child_shapes(), program_child_texts()) == function_headers(fs, i),
    decreases i,
{
    if i > 0 {
        lemma_program_prefix(fs, i - 1, ls.take(0));
        let f = fs[i - 1];
        assert(f.kind is FunctionDeclaration && no_statement_nodes(subtrees_of(f)));
        lemma_function_generates_header(f, ls.skip(0));
    }
}

/// Every program that the parser accepts is a program node whose children are function
/// nodes, and it is turned into assembly without error, and without drawing any label
/// name: the children of its functions are `return`,
/// assignment and declaration nodes, which the generator passes over, so the assembly
/// is the global label of each function, in order.
pub proof fn law_parsed_programs_generate(ts: Seq<Token>, ls: Seq<Seq<char>>)
    requires
        spec_program(ts, 0).0 is Ok,
    ensures
        ({
            let tree = spec_program(ts, 0).0->Ok_0;
            &&& tree.kind is Program
            &&& parsed_functions(subtrees_of(tree))
            &&& program_shape(tree) == GenShape::Done(0)
            &&& program_text(tree, ls) == function_headers(subtrees_of(tree), subtrees_of(tree).len() as int)
        }),
{
    let fs = spec_functions(ts, 0).0->Ok_0;
    let tree = node_with(KindView::Program, fs);
    lemma_functions_parsed(ts, 0);
    assert(subtrees_of(tree) =~= fs);
    lemma_program_prefix(fs, fs.len() as int, ls);
}

/// Pushing a child onto a node adds it after the children the node had: what
/// `ASTNode::push_child` does, read back through `ASTNode::get_subtrees`.
pub proof fn law_push_child_appends(n: NodeView, c: NodeView)
    ensures
        subtrees_of(with_child(n, c)) == subtrees_of(n).push(c),
        with_child(n, c).kind == n.kind,
{
    if n.children is None {
        assert(seq![c] =~= Seq::<NodeView>::empty().push(c));
    }
}

/// A node kind made by a binary operator.
pub open spec fn is_operator_kind(k: KindView) -> bool {
    ||| k is MultDivOp
    ||| k is AddSubOp
    ||| k is ShiftOp
    ||| k is CmpOp
    ||| k is EqOp
    ||| k is BAndOp
    ||| k is BXOrOp
    ||| k is BOrOp
    ||| k is LAndOp
    ||| k is LOrOp
}

/// The shape of the expression trees that the parser makes: an operator node has two
/// operands, a unary operator node one, a primary expression node one child that is a
/// constant or a unary operator node, and a variable node no list of children.
pub open spec fn expression_node(n: NodeView) -> bool
    decreases n,
{
    if is_operator_kind(n.kind) {
        match n.children {
            Some(cs) => cs.len() == 2 && expression_node(cs[0]) && expression_node(cs[1]),
            None => false,
        }
    } else if n.kind is UnOp {
        match n.children {
            Some(cs) => cs.len() == 1 && expression_node(cs[0]),
            None => false,
        }
    } else if n.kind is PrimaryExp {
        match n.children {
            Some(cs) => cs.len() == 1 && ((cs[0].kind is Constant && cs[0].children is None) || (
            cs[0].kind is UnOp && expression_node(cs[0]))),
            None => false,
        }
    } else {
        n.kind is Variable && n.children is None
    }
}

/// What the expression parsers promise of a successful parse at `pos` that consumed
/// `k` tokens: at least one token, none beyond the end, and a tree of the expected
/// shape.
pub open spec fn parsed_expression(ts: Seq<Token>, pos: int, r: (Result<NodeView, Seq<char>>, nat)) -> bool {
    r.0 matches Ok(n) ==> {
        &&& 0 <= pos
        &&& 1 <= r.1
        &&& pos + r.1 <= ts.len()
        &&& expression_node(n)
    }
}

proof fn lemma_operator_kind(level: nat, t: Token)
    ensures
        binary_operator(level, t) matches Some(k) ==> is_operator_kind(k),
{
}

proof fn lemma_primary_parsed(ts: Seq<Token>, pos: int)
    ensures
        parsed_expression(ts, pos, spec_primary(ts, pos)),
    decreases tokens_left(ts, pos), 0int,
{
    if 0 <= pos < ts.len() {
        match ts[pos] {
            Token::DecimalIntegerLiteral(_) => {},
            Token::LeftParen => {
                lemma_paren_parsed(ts, pos + 1);
            },
            Token::Identifier(_) => {},
            t => {
                lemma_unary_parsed(t, ts, pos + 1);
            },
        }
    }
}

proof fn lemma_unary_parsed(t: Token, ts: Seq<Token>, pos: int)
    ensures
        parsed_expression(ts, pos, spec_unary(t, ts, pos)),
        spec_unary(t, ts, pos).0 matches Ok(u) ==> u.kind is UnOp,
    decreases tokens_left(ts, pos), 1int,
{
    if unary_operator(t) is Some {
        lemma_primary_parsed(ts, pos);
    }
}

proof fn lemma_paren_parsed(ts: Seq<Token>, pos: int)
    ensures
        parsed_expression(ts, pos, spec_paren(ts, pos)),
    decreases tokens_left(ts, pos), 24int,
{
    lemma_binary_parsed(9, ts, pos);
}

proof fn lemma_operand_parsed(level: nat, ts: Seq<Token>, pos: int)
    ensures
        parsed_expression(ts, pos, spec_operand(level, ts, pos)),
    decreases tokens_left(ts, pos), 2 * level + 4,
{
    if level == 0 {
        lemma_primary_parsed(ts, pos);
    } else {
        lemma_binary_parsed((level - 1) as nat, ts, pos);
    }
}

proof fn lemma_binary_parsed(level: nat, ts: Seq<Token>, pos: int)
    ensures
        parsed_expression(ts, pos, spec_binary(level, ts, pos)),
        spec_binary(level, ts, pos).0 is Ok ==> {
            let e = pos + spec_binary(level, ts, pos).1;
            e < ts.len() ==> binary_operator(level, ts[e]) is None
        },
    decreases tokens_left(ts, pos), 2 * level + 5,
{
    lemma_operand_parsed(level, ts, pos);
    let (l, k) = spec_operand(level, ts, pos);
    if let Ok(left) = l {
        lemma_chain_parsed(level, ts, pos + k, left);
    }
}

proof fn lemma_chain_parsed(level: nat, ts: Seq<Token>, pos: int, left: NodeView)
    requires
        0 <= pos <= ts.len(),
        expression_node(left),
    ensures
        spec_chain(level, ts, pos, left).0 matches Ok(n) ==> {
            let e = pos + spec_chain(level, ts, pos, left).1;
            &&& e <= ts.len()
            &&& expression_node(n)
            &&& e < ts.len() ==> binary_operator(level, ts[e]) is None
        },
    decreases tokens_left(ts, pos), 2 * level + 3,
{
    if 0 <= pos < ts.len() {
        lemma_operator_kind(level, ts[pos]);
        if let Some(op) = binary_operator(level, ts[pos]) {
            lemma_operand_parsed(level, ts, pos + 1);
            let (r, k) = spec_operand(level, ts, pos + 1);
            if let Ok(right) = r {
                let joined = node_with(op, seq![left, right]);
                assert(expression_node(joined));
                lemma_chain_parsed(level, ts, pos + 1 + k, joined);
            }
        }
    }
}

/// A chain of operators of one level is read to its end and no further: a successful
/// parse consumes at least one token, and the token after what it consumed, if any, is
/// not an operator of that level.
pub proof fn law_chain_read_to_end(level: nat, ts: Seq<Token>, pos: int)
    ensures
        spec_binary(level, ts, pos).0 is Ok ==> {
            let k = spec_binary(level, ts, pos).1;
            &&& 1 <= k
            &&& pos + k <= ts.len()
            &&& pos + k < ts.len() ==> binary_operator(level, ts[pos + k]) is None
        },
{
    lemma_binary_parsed(level, ts, pos);
}

/// The comparison chain is read to its end: after a successful parse of the comparative
/// level, what is left is a proper suffix of the tokens and does not start with `<`,
/// `>`, `<=` or `>=`.
pub proof fn law_comparison_chain_read_to_end(ts: Seq<Token>, pos: int)
    ensures
        spec_binary(3, ts, pos).0 is Ok ==> {
            let k = spec_binary(3, ts, pos).1;
            &&& 1 <= k
            &&& pos + k <= ts.len()
            &&& pos + k < ts.len() ==> !(ts[pos + k] is Ge || ts[pos + k] is Le || ts[pos + k] is Gt
                || ts[pos + k] is Lt)
        },
{
    law_chain_read_to_end(3, ts, pos);
}

/// Every expression that the loosest level (`||`) parses has the shape of
/// [`expression_node`]: binary operators with two operands, unary operators with one,
/// primary expressions with one constant or unary operator, variables with none.
pub proof fn law_parsed_expressions_well_formed(ts: Seq<Token>, pos: int)
    ensures
        spec_binary(9, ts, pos).0 matches Ok(n) ==> expression_node(n),
{
    lemma_binary_parsed(9, ts, pos);
}

/// Where the tokens at `pos` are not an identifier followed by an assignment operator,
/// parsing an assignment expression is parsing a logical-or chain: same tree, same
/// tokens consumed.
pub proof fn law_assignment_falls_back(ts: Seq<Token>, pos: int)
    requires
        !(0 <= pos && pos + 1 < ts.len() && ts[pos] is Identifier && expression_assign_type(
            ts[pos + 1],
        ) is Some),
    ensures
        spec_assignment(ts, pos) == spec_binary(9, ts, pos),
{
}

/// Parsing the operand of a unary operator token: for `-`, `~` and `!` it is parsing a
/// primary expression and wrapping it in a unary operator node of that character,
/// consuming the same tokens; for any other token it is an error that consumes nothing.
pub proof fn law_unary_wraps_primary(t: Token, ts: Seq<Token>, pos: int)
    ensures
        unary_operator(t) is None ==> spec_unary(t, ts, pos).0 is Err && spec_unary(t, ts, pos).1 == 0,
        t is Minus ==> unary_operator(t) == Some('-'),
        t is BitwiseComplement ==> unary_operator(t) == Some('~'),
        t is LogicalNegation ==> unary_operator(t) == Some('!'),
        unary_operator(t) is Some ==> (t is Minus || t is BitwiseComplement || t is LogicalNegation),
        unary_operator(t) matches Some(c) ==> {
            &&& spec_unary(t, ts, pos).1 == spec_primary(ts, pos).1
            &&& (spec_unary(t, ts, pos).0 is Ok <==> spec_primary(ts, pos).0 is Ok)
            &&& spec_primary(ts, pos).0 matches Err(m) ==> spec_unary(t, ts, pos).0 == Err::<NodeView, Seq<char>>(m)
            &&& spec_primary(ts, pos).0 matches Ok(m) ==> spec_unary(t, ts, pos).0 == Ok::<NodeView, Seq<char>>(
                node_with(KindView::UnOp(c), seq![m]),
            )
        },
{
}

/// The assembly of the function children among the first `i` children `cs` of a
/// program, in order, each as the function generator gives it when it draws no label;
/// children of any other kind add nothing.
pub open spec fn function_texts(cs: Seq<NodeView>, i: int) -> Seq<char>
    decreases i,
{
    if i <= 0 {
        seq![]
    } else {
        function_texts(cs, i - 1) + if cs[i - 1].kind is FunctionDeclaration {
            function_text(cs[i - 1], seq![])
        } else {
            seq![]
        }
    }
}

/// The message of the error for a statement node that is not a `return`.
pub open spec fn statement_kind_message() -> Seq<char> {
    "ASTNode passed to statement node was not of statement type"@
}

proof fn lemma_function_child_prefix(cs: Seq<NodeView>, i: int)
    requires
        0 <= i <= cs.len(),
    ensures
        prefix_shape(cs, i, function_child_shapes()) == if no_statement_nodes(cs.take(i)) {
            GenShape::Done(0)
        } else {
            GenShape::Failed(0, statement_kind_message())
        },
    decreases i,
{
    if i > 0 {
        lemma_function_child_prefix(cs, i - 1);
        let c = cs[i - 1];
        if c.kind is Statement {
            assert(statement_shape(c) == GenShape::Failed(0, statement_kind_message()));
            assert(cs.take(i)[i - 1] == c);
        } else {
            assert(function_child_shape(c) == GenShape::Done(0));
        }
        if no_statement_nodes(cs.take(i)) {
            assert forall|j: int| 0 <= j < i - 1 implies !(#[trigger] cs.take(i - 1)[j].kind is Statement) by {
                assert(cs.take(i - 1)[j] == cs.take(i)[j]);
            }
        } else if no_statement_nodes(cs.take(i - 1)) && !(c.kind is Statement) {
            assert forall|j: int| 0 <= j < i implies !(#[trigger] cs.take(i)[j].kind is Statement) by {
                if j < i - 1 {
                    assert(cs.take(i - 1)[j] == cs.take(i)[j]);
                }
            }
        }
    }
}

proof fn lemma_function_outcome(f: NodeView, ls: Seq<Seq<char>>)
    requires
        f.kind is FunctionDeclaration,
    ensures
        function_shape(f) == GenShape::Done(0) || function_shape(f) == GenShape::Failed(
            0,
            statement_kind_message(),
        ),
        function_shape(f) is Done ==> function_text(f, ls) == function_header(f),
{
    let cs = subtrees_of(f);
    lemma_function_child_prefix(cs, cs.len() as int);
    assert(cs.take(cs.len() as int) =~= cs);
    if function_shape(f) is Done {
        lemma_function_generates_header(f, ls);
    }
}

proof fn lemma_program_children(cs: Seq<NodeView>, i: int, ls: Seq<Seq<char>>)
    requires
        0 <= i <= cs.len(),
    ensures
        (prefix_shape(cs, i, program_child_shapes()) is Done) <==> (forall|j: int|
            0 <= j < i && (#[trigger] cs[j]).kind is FunctionDeclaration ==> function_shape(cs[j]) is Done),
        prefix_shape(cs, i, program_child_shapes()) == GenShape::Done(0)
            || prefix_shape(cs, i, program_child_shapes()) == GenShape::Failed(0, statement_kind_message()),
        prefix_shape(cs, i, program_child_shapes()) is Done ==> prefix_text(
            cs,
            i,
            ls,
            program_child_shapes(),
            program_child_texts(),
        ) == function_texts(cs, i),
    decreases i,
{
    if i > 0 {
        lemma_program_children(cs, i - 1, ls.take(0));
        let c = cs[i - 1];
        if c.kind is FunctionDeclaration {
            lemma_function_outcome(c, ls.skip(0));
            lemma_function_outcome(c, seq![]);
        } else {
            assert(program_child_shape(c) == GenShape::Done(0));
            assert(program_child_text(c, ls.skip(0)) == Seq::<char>::empty());
        }
        if prefix_shape(cs, i, program_child_shapes()) is Done {
            assert(function_texts(cs, i) =~= function_texts(cs, i - 1) + program_child_text(c, ls.skip(0)));
        } else {
            if prefix_shape(cs, i - 1, program_child_shapes()) is Done {
                assert(c.kind is FunctionDeclaration && !(function_shape(c) is Done));
            } else {
                let j = choose|j: int| 0 <= j < i - 1 && (#[trigger] cs[j]).kind is FunctionDeclaration && !(function_shape(cs[j]) is Done);
                assert(0 <= j < i && cs[j].kind is FunctionDeclaration && !(function_shape(cs[j]) is Done));
            }
        }
    }
}

/// Generating a program is generating each of its function children in turn: it
/// succeeds exactly when each function child is generated without error, it then draws
/// no label name, and its assembly is the texts of the function children joined in
/// order, each what the function generator gives with no label drawn; children of any
/// other kind add nothing.
pub proof fn law_generate_joins_functions(n: NodeView, ls: Seq<Seq<char>>)
    requires
        n.kind is Program,
    ensures
        (program_shape(n) is Done) <==> (forall|j: int|
            0 <= j < subtrees_of(n).len() && (#[trigger] subtrees_of(n)[j]).kind is FunctionDeclaration
                ==> function_shape(subtrees_of(n)[j]) is Done),
        program_shape(n) is Done ==> {
            &&& program_shape(n) == GenShape::Done(0)
            &&& program_text(n, ls) == function_texts(subtrees_of(n), subtrees_of(n).len() as int)
        },
{
    let cs = subtrees_of(n);
    lemma_program_children(cs, cs.len() as int, ls);
}

} // verus!
