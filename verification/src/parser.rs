use vstd::prelude::*;

use crate::ast::{
    leaf, node_with, ASTNode, ASTNodeKind, AssignType, CmpType, EqType, KindView, NodeView,
    ShiftType, with_child,
};
use crate::errors::ParserError;
use crate::tokens::{
    decimal_string, decimal_text, optional_token_debug_text, optional_token_text, same_token,
    token_debug_text, token_text, tokens_equal, Token,
};

verus! {

// The binary operator levels, from the tightest to the loosest.
pub const MULTIPLICATIVE: usize = 0;
pub const ADDITIVE: usize = 1;
pub const SHIFT: usize = 2;
pub const COMPARATIVE: usize = 3;
pub const EQUATIVE: usize = 4;
pub const BITWISE_AND: usize = 5;
pub const BITWISE_XOR: usize = 6;
pub const BITWISE_OR: usize = 7;
pub const LOGICAL_AND: usize = 8;
pub const LOGICAL_OR: usize = 9;

/// The kind of node that the token `t` makes as a binary operator of the given level.
pub open spec fn binary_operator(level: nat, t: Token) -> Option<KindView> {
    match t {
        Token::Times => if level == 0 { Some(KindView::MultDivOp('*')) } else { None },
        Token::Divide => if level == 0 { Some(KindView::MultDivOp('/')) } else { None },
        Token::Plus => if level == 1 { Some(KindView::AddSubOp('+')) } else { None },
        Token::Minus => if level == 1 { Some(KindView::AddSubOp('-')) } else { None },
        Token::LeftShift => if level == 2 { Some(KindView::ShiftOp(ShiftType::Left)) } else { None },
        Token::RightShift => if level == 2 { Some(KindView::ShiftOp(ShiftType::Right)) } else { None },
        Token::Ge => if level == 3 { Some(KindView::CmpOp(CmpType::Ge)) } else { None },
        Token::Le => if level == 3 { Some(KindView::CmpOp(CmpType::Le)) } else { None },
        Token::Gt => if level == 3 { Some(KindView::CmpOp(CmpType::Gt)) } else { None },
        Token::Lt => if level == 3 { Some(KindView::CmpOp(CmpType::Lt)) } else { None },
        Token::Eq => if level == 4 { Some(KindView::EqOp(EqType::Eq)) } else { None },
        Token::Ne => if level == 4 { Some(KindView::EqOp(EqType::Ne)) } else { None },
        Token::BitwiseAnd => if level == 5 { Some(KindView::BAndOp) } else { None },
        Token::BitwiseExclusiveOr => if level == 6 { Some(KindView::BXOrOp) } else { None },
        Token::BitwiseOr => if level == 7 { Some(KindView::BOrOp) } else { None },
        Token::LogicalAnd => if level == 8 { Some(KindView::LAndOp) } else { None },
        Token::LogicalOr => if level == 9 { Some(KindView::LOrOp) } else { None },
        _ => None,
    }
}

/// The operator character of a unary operator token.
pub open spec fn unary_operator(t: Token) -> Option<char> {
    match t {
        Token::Minus => Some('-'),
        Token::BitwiseComplement => Some('~'),
        Token::LogicalNegation => Some('!'),
        _ => None,
    }
}

/// The kind of assignment an assignment token stands for inside an expression.
pub open spec fn expression_assign_type(t: Token) -> Option<AssignType> {
    match t {
        Token::SimpleAssign => Some(AssignType::Simple),
        Token::SumAssign => Some(AssignType::Sum),
        Token::DiffAssign => Some(AssignType::Diff),
        Token::ProdAssign => Some(AssignType::Prod),
        Token::QuotAssign => Some(AssignType::Quot),
        Token::RemAssign => Some(AssignType::Rem),
        Token::LShAssign => Some(AssignType::LShift),
        Token::RShAssign => Some(AssignType::RShift),
        Token::AndAssign => Some(AssignType::BAnd),
        Token::XOrAssign => Some(AssignType::BXOr),
        Token::OrAssign => Some(AssignType::BOr),
        _ => None,
    }
}

/// The kind of assignment an assignment token stands for at the start of a statement
/// (where `/=` is taken as a `-=`).
pub open spec fn statement_assign_type(t: Token) -> Option<AssignType> {
    match t {
        Token::QuotAssign => Some(AssignType::Diff),
        _ => expression_assign_type(t),
    }
}

/// How many tokens of `ts` are left from `pos` on.
pub open spec fn tokens_left(ts: Seq<Token>, pos: int) -> int {
    if pos < ts.len() {
        ts.len() - pos
    } else {
        0
    }
}

/// Taking the expected token at `pos`: whether it is there, and how many tokens are
/// consumed (the token at `pos`, whatever it is, if there is one).
pub open spec fn expect_at(ts: Seq<Token>, pos: int, expected: Token) -> (bool, nat) {
    if 0 <= pos < ts.len() {
        (same_token(ts[pos], expected), 1)
    } else {
        (false, 0)
    }
}

/// The message of an unknown token met where a primary expression was expected: the
/// token, then the tokens after it.
pub open spec fn unary_message(t: Token, ts: Seq<Token>, pos: int) -> Seq<char> {
    "failed while parsing unary: "@ + token_debug_text(t) + " is not valid token\n"@ + ("["@
        + joined_token_texts(ts, pos, ts.len() as int) + "]"@)
}

/// Parsing a primary expression of `ts` at `pos`: the node made (or the error's
/// message) and the number of tokens consumed.
pub open spec fn spec_primary(ts: Seq<Token>, pos: int) -> (Result<NodeView, Seq<char>>, nat)
    decreases tokens_left(ts, pos), 0int,
{
    if pos < 0 || pos >= ts.len() {
        (Err("failed while parsing primary: None is not valid token"@), 0)
    } else {
        match ts[pos] {
            Token::DecimalIntegerLiteral(n) => (
                Ok(
                    node_with(
                        KindView::PrimaryExp,
                        seq![leaf(KindView::Constant(decimal_text(n as nat)))],
                    ),
                ),
                1,
            ),
            Token::LeftParen => {
                let (r, k) = spec_paren(ts, pos + 1);
                (r, 1 + k)
            },
            Token::Identifier(id) => (Ok(leaf(KindView::Variable(id@))), 1),
            t => {
                let (r, k) = spec_unary(t, ts, pos + 1);
                (
                    match r {
                        Err(m) => Err(m),
                        Ok(u) => Ok(node_with(KindView::PrimaryExp, seq![u])),
                    },
                    1 + k,
                )
            },
        }
    }
}

/// Parsing the operand of the unary operator token `t` at `pos`.
pub open spec fn spec_unary(t: Token, ts: Seq<Token>, pos: int) -> (Result<NodeView, Seq<char>>, nat)
    decreases tokens_left(ts, pos), 1int,
{
    match unary_operator(t) {
        None => (Err(unary_message(t, ts, pos)), 0),
        Some(c) => {
            let (r, k) = spec_primary(ts, pos);
            (
                match r {
                    Err(m) => Err(m),
                    Ok(p) => Ok(node_with(KindView::UnOp(c), seq![p])),
                },
                k,
            )
        },
    }
}

/// Parsing the inside of parentheses at `pos` and the closing parenthesis.
pub open spec fn spec_paren(ts: Seq<Token>, pos: int) -> (Result<NodeView, Seq<char>>, nat)
    decreases tokens_left(ts, pos), 24int,
{
    let (r, k) = spec_binary(9, ts, pos);
    match r {
        Err(m) => (Err(m), k),
        Ok(e) => {
            let (ok, k2) = expect_at(ts, pos + k, Token::RightParen);
            (
                if ok {
                    Ok(e)
                } else {
                    Err(expect_message(ts, pos + k, Token::RightParen))
                },
                k + k2,
            )
        },
    }
}

/// Parsing an operand of the operators of the given level at `pos`.
pub open spec fn spec_operand(level: nat, ts: Seq<Token>, pos: int) -> (Result<NodeView, Seq<char>>, nat)
    decreases tokens_left(ts, pos), 2 * level + 4,
{
    if level == 0 {
        spec_primary(ts, pos)
    } else {
        spec_binary((level - 1) as nat, ts, pos)
    }
}

/// Parsing a chain of operands joined by operators of the given level at `pos`: the
/// operators group to the left.
pub open spec fn spec_binary(level: nat, ts: Seq<Token>, pos: int) -> (Result<NodeView, Seq<char>>, nat)
    decreases tokens_left(ts, pos), 2 * level + 5,
{
    let (l, k) = spec_operand(level, ts, pos);
    match l {
        Err(m) => (Err(m), k),
        Ok(left) => {
            let (r, k2) = spec_chain(level, ts, pos + k, left);
            (r, k + k2)
        },
    }
}

/// Parsing the rest of a chain of the given level at `pos`, `left` being what was
/// parsed so far.
pub open spec fn spec_chain(level: nat, ts: Seq<Token>, pos: int, left: NodeView) -> (
    Result<NodeView, Seq<char>>,
    nat,
)
    decreases tokens_left(ts, pos), 2 * level + 3,
{
    if 0 <= pos < ts.len() {
        match binary_operator(level, ts[pos]) {
            Some(op) => {
                let (r, k) = spec_operand(level, ts, pos + 1);
                match r {
                    Err(m) => (Err(m), 1 + k),
                    Ok(right) => {
                        let (res, k2) = spec_chain(
                            level,
                            ts,
                            pos + 1 + k,
                            node_with(op, seq![left, right]),
                        );
                        (res, 1 + k + k2)
                    },
                }
            },
            None => (Ok(left), 0),
        }
    } else {
        (Ok(left), 0)
    }
}

/// Parsing an assignment expression at `pos`: an identifier followed by an assignment
/// operator assigns the assignment expression after it; anything else is a logical-or
/// chain.
pub open spec fn spec_assignment(ts: Seq<Token>, pos: int) -> (Result<NodeView, Seq<char>>, nat)
    decreases tokens_left(ts, pos), 25int,
{
    if 0 <= pos && pos + 1 < ts.len() && ts[pos] is Identifier && expression_assign_type(
        ts[pos + 1],
    ) is Some {
        let id = ts[pos]->Identifier_0;
        let at = expression_assign_type(ts[pos + 1])->0;
        let (r, k) = spec_assignment(ts, pos + 2);
        (
            match r {
                Err(m) => Err(m),
                Ok(inner) => Ok(
                    node_with(
                        KindView::Assignment(at),
                        seq![leaf(KindView::Variable(id@)), inner],
                    ),
                ),
            },
            2 + k,
        )
    } else {
        spec_binary(9, ts, pos)
    }
}

/// The message of a statement that starts with something other than a keyword, a
/// variable or a data type (`None` where no token is left).
pub open spec fn statement_start_message(t: Option<Token>) -> Seq<char> {
    "in parse_statement(): "@ + optional_token_debug_text(t) + " is not Keyword or Datatype!"@
}

/// The message of a variable at the start of a statement that is followed by something
/// other than an assignment operator.
pub open spec fn assignment_message(t: Option<Token>) -> Seq<char> {
    "next_token not = when assigning variable, "@ + optional_token_debug_text(t)
}

/// Parsing the rest of a statement whose first token `t` is already consumed, at `pos`.
pub open spec fn spec_statement_after(t: Token, ts: Seq<Token>, pos: int) -> (Result<NodeView, Seq<char>>, nat) {
    match t {
        Token::Keyword(k) => if k@ == "return"@ {
            let (e, k1) = spec_assignment(ts, pos);
            match e {
                Err(m) => (Err(m), k1),
                Ok(ev) => {
                    let (ok, k2) = expect_at(ts, pos + k1, Token::Semicolon);
                    (
                        if ok {
                            Ok(node_with(KindView::Return, seq![ev]))
                        } else {
                            Err(expect_message(ts, pos + k1, Token::Semicolon))
                        },
                        k1 + k2,
                    )
                },
            }
        } else {
            (Err("failed while parsing statement: keyword not return"@), 0)
        },
        Token::Identifier(id) => if 0 <= pos < ts.len() {
            match statement_assign_type(ts[pos]) {
                Some(at) => {
                    let (e, k1) = spec_assignment(ts, pos + 1);
                    match e {
                        Err(m) => (Err(m), 1 + k1),
                        Ok(ev) => {
                            let (ok, k2) = expect_at(ts, pos + 1 + k1, Token::Semicolon);
                            (
                                if ok {
                                    Ok(node_with(KindView::Assignment(at), seq![leaf(KindView::Variable(id@)), ev]))
                                } else {
                                    Err(expect_message(ts, pos + 1 + k1, Token::Semicolon))
                                },
                                1 + k1 + k2,
                            )
                        },
                    }
                },
                None => (Err(assignment_message(Some(ts[pos]))), 1),
            }
        } else {
            (Err(assignment_message(None)), 0)
        },
        Token::DataType(dt) => if 0 <= pos < ts.len() {
            match ts[pos] {
                Token::Identifier(id) => if pos + 1 < ts.len() {
                    match ts[pos + 1] {
                        Token::SimpleAssign => {
                            let (e, k1) = spec_assignment(ts, pos + 2);
                            match e {
                                Err(m) => (Err(m), 2 + k1),
                                Ok(ev) => {
                                    let (ok, k2) = expect_at(ts, pos + 2 + k1, Token::Semicolon);
                                    (
                                        if ok {
                                            Ok(node_with(KindView::Declaration(dt@), seq![
                                                node_with(KindView::Assignment(AssignType::Simple), seq![leaf(KindView::Variable(id@)), ev]),
                                            ]))
                                        } else {
                                            Err(expect_message(ts, pos + 2 + k1, Token::Semicolon))
                                        },
                                        2 + k1 + k2,
                                    )
                                },
                            }
                        },
                        Token::Semicolon => (Ok(node_with(KindView::Declaration(dt@), seq![leaf(KindView::Variable(id@))])), 2),
                        _ => (Err("next_token not = or ;"@), 2),
                    }
                } else {
                    (Err("next_token not = or ;"@), 1)
                },
                _ => (Err("failed while parsing statement: token mismatch"@), 1),
            }
        } else {
            (Err("failed while parsing statement: token mismatch"@), 0)
        },
        other => (Err(statement_start_message(Some(other))), 0),
    }
}

/// Parsing a statement at `pos`: a `return`, an assignment to a variable, or a
/// declaration with or without an initial value.
pub open spec fn spec_statement(ts: Seq<Token>, pos: int) -> (Result<NodeView, Seq<char>>, nat) {
    if 0 <= pos < ts.len() {
        let (r, k) = spec_statement_after(ts[pos], ts, pos + 1);
        (r, 1 + k)
    } else {
        (Err(statement_start_message(None)), 0)
    }
}

/// Parsing statements at `pos` up to and including the closing brace of a body.
pub open spec fn spec_statements(ts: Seq<Token>, pos: int) -> (Result<Seq<NodeView>, Seq<char>>, nat)
    decreases tokens_left(ts, pos),
{
    if 0 <= pos < ts.len() {
        if ts[pos] is RightBrace {
            (Ok(seq![]), 1)
        } else {
            let (st, k) = spec_statement_after(ts[pos], ts, pos + 1);
            match st {
                Err(m) => (Err(m), 1 + k),
                Ok(sv) => {
                    let (rest, k2) = spec_statements(ts, pos + 1 + k);
                    match rest {
                        Err(m) => (Err(m), 1 + k + k2),
                        Ok(r) => (Ok(seq![sv] + r), 1 + k + k2),
                    }
                },
            }
        }
    } else {
        (Err(statement_start_message(None)), 0)
    }
}

/// Parsing the rest of a function whose first token `t` is already consumed, at `pos`:
/// `<data type> <identifier> ( ) { <statements> }`.
pub open spec fn spec_function_after(t: Token, ts: Seq<Token>, pos: int) -> (Result<NodeView, Seq<char>>, nat) {
    match t {
        Token::DataType(dt) => if 0 <= pos < ts.len() {
            match ts[pos] {
                Token::Identifier(id) => {
                    let (a, ka) = expect_at(ts, pos + 1, Token::LeftParen);
                    if !a {
                        (Err(expect_message(ts, pos + 1, Token::LeftParen)), 1 + ka)
                    } else {
                        let (b, kb) = expect_at(ts, pos + 2, Token::RightParen);
                        if !b {
                            (Err(expect_message(ts, pos + 2, Token::RightParen)), 2 + kb)
                        } else {
                            let (c, kc) = expect_at(ts, pos + 3, Token::LeftBrace);
                            if !c {
                                (Err(expect_message(ts, pos + 3, Token::LeftBrace)), 3 + kc)
                            } else {
                                let (body, k) = spec_statements(ts, pos + 4);
                                match body {
                                    Err(m) => (Err(m), 4 + k),
                                    Ok(ss) => (Ok(node_with(KindView::FunctionDeclaration(dt@, id@), ss)), 4 + k),
                                }
                            }
                        }
                    }
                },
                _ => (Err("failed while parsing function"@), 1),
            }
        } else {
            (Err("failed while parsing function"@), 0)
        },
        _ => (Err("failed while parsing function"@), 0),
    }
}

/// Parsing a function at `pos`.
pub open spec fn spec_function(ts: Seq<Token>, pos: int) -> (Result<NodeView, Seq<char>>, nat) {
    if 0 <= pos < ts.len() {
        let (r, k) = spec_function_after(ts[pos], ts, pos + 1);
        (r, 1 + k)
    } else {
        (Err("failed while parsing function"@), 0)
    }
}

/// Parsing functions at `pos` until no token is left.
pub open spec fn spec_functions(ts: Seq<Token>, pos: int) -> (Result<Seq<NodeView>, Seq<char>>, nat)
    decreases tokens_left(ts, pos),
{
    if 0 <= pos < ts.len() {
        let (f, k) = spec_function_after(ts[pos], ts, pos + 1);
        match f {
            Err(m) => (Err(m), 1 + k),
            Ok(fv) => {
                let (rest, k2) = spec_functions(ts, pos + 1 + k);
                match rest {
                    Err(m) => (Err(m), 1 + k + k2),
                    Ok(r) => (Ok(seq![fv] + r), 1 + k + k2),
                }
            },
        }
    } else {
        (Ok(seq![]), 0)
    }
}

/// Parsing a whole program at `pos`: its functions, until no token is left.
pub open spec fn spec_program(ts: Seq<Token>, pos: int) -> (Result<NodeView, Seq<char>>, nat) {
    let (fs, k) = spec_functions(ts, pos);
    (
        match fs {
            Err(m) => Err(m),
            Ok(f) => Ok(node_with(KindView::Program, f)),
        },
        k,
    )
}

/// The `{:?}` texts of the tokens `ts[from..to]`, separated by `, `.
pub open spec fn joined_token_texts(ts: Seq<Token>, from: int, to: int) -> Seq<char>
    decreases to - from,
{
    if to <= from {
        seq![]
    } else if to == from + 1 {
        token_debug_text(ts[from])
    } else {
        joined_token_texts(ts, from, to - 1) + ", "@ + token_debug_text(ts[to - 1])
    }
}

/// The message of a failed expectation at `pos`.
pub open spec fn expect_message(ts: Seq<Token>, pos: int, expected: Token) -> Seq<char> {
    if 0 <= pos < ts.len() {
        "failed while expecting token "@ + token_debug_text(expected) + "; was "@ + token_debug_text(
            ts[pos],
        )
    } else {
        "no tokens left when trying to expect tokens"@
    }
}

/// The result of a parsing step, read as the node made or the error's message.
pub open spec fn parsed(res: Result<ASTNode, ParserError>) -> Result<NodeView, Seq<char>> {
    match res {
        Ok(n) => Ok(n@),
        Err(e) => Err(e.0@),
    }
}

/// Parses a token sequence into a syntax tree.
#[derive(Debug)]
pub struct Parser {
    tokens: Vec<Token>,
    pos: usize,
}

/// A parsing step from `before` to `after` that gave `res` went as `outcome` says.
pub open spec fn stepped(
    before: Parser,
    after: Parser,
    outcome: (Result<NodeView, Seq<char>>, nat),
    res: Result<ASTNode, ParserError>,
) -> bool {
    &&& after.token_seq() == before.token_seq()
    &&& before.cursor() <= after.cursor()
    &&& outcome == (parsed(res), (after.cursor() - before.cursor()) as nat)
}

impl Parser {
    #[verifier::type_invariant]
    spec fn cursor_in_bounds(self) -> bool {
        self.pos <= self.tokens.len()
    }

    /// The tokens the parser was made with.
    pub closed spec fn token_seq(&self) -> Seq<Token> {
        self.tokens@
    }

    /// How many tokens the parser has consumed.
    pub closed spec fn cursor(&self) -> nat {
        self.pos as nat
    }

    /// A parser over the given tokens, none of them consumed yet.
    pub fn new(tokens: Vec<Token>) -> (res: Parser)
        ensures
            res.token_seq() == tokens@,
            res.cursor() == 0,
    {
        Parser { tokens, pos: 0 }
    }

    /// An error carrying the message `message`.
    fn fail(&self, message: &str) -> (res: ParserError)
        ensures
            res.0@ == message@,
    {
        ParserError(message.to_owned())
    }

    /// The `{:?}` text of the tokens not consumed yet: in brackets, separated by `, `.
    fn remaining_text(&self) -> (res: String)
        ensures
            res@ == "["@ + joined_token_texts(self.token_seq(), self.cursor() as int, self.token_seq().len() as int)
                + "]"@,
    {
        proof {
            use_type_invariant(self);
        }
        let mut s = "[".to_owned();
        let mut i = self.pos;
        while i < self.tokens.len()
            invariant
                self.pos <= i <= self.tokens.len(),
                s@ == "["@ + joined_token_texts(self.tokens@, self.pos as int, i as int),
            decreases self.tokens.len() - i,
        {
            if i > self.pos {
                s.append(", ");
            }
            s.append(token_text(&self.tokens[i]).as_str());
            i = i + 1;
        }
        s.append("]");
        s
    }

    /// Consumes one token, if there is one; it must be `expected`.
    fn expect_token(&mut self, expected: Token) -> (res: Result<(), ParserError>)
        ensures
            final(self).token_seq() == old(self).token_seq(),
            old(self).cursor() <= final(self).cursor(),
            expect_at(old(self).token_seq(), old(self).cursor() as int, expected) == (
                res is Ok,
                (final(self).cursor() - old(self).cursor()) as nat,
            ),
            res matches Err(e) ==> e.0@ == expect_message(old(self).token_seq(), old(self).cursor() as int, expected),
    {
        proof {
            use_type_invariant(&*self);
        }
        if self.pos >= self.tokens.len() {
            return Err(self.fail("no tokens left when trying to expect tokens"));
        }
        let p = self.pos;
        self.pos = p + 1;
        let same = tokens_equal(&self.tokens[p], &expected);
        if same {
            Ok(())
        } else {
            let mut msg = "failed while expecting token ".to_owned();
            msg.append(token_text(&expected).as_str());
            msg.append("; was ");
            msg.append(token_text(&self.tokens[p]).as_str());
            Err(self.fail(msg.as_str()))
        }
    }

    /// The kind of node the next token makes as a binary operator of the given level.
    fn operator_at(&self, level: usize) -> (res: Option<ASTNodeKind>)
        ensures
            match res {
                None => !(self.pos < self.tokens.len()) || binary_operator(
                    level as nat,
                    self.tokens@[self.pos as int],
                ) is None,
                Some(k) => self.pos < self.tokens.len() && binary_operator(
                    level as nat,
                    self.tokens@[self.pos as int],
                ) == Some(k@),
            },
    {
        if self.pos >= self.tokens.len() {
            return None;
        }
        match &self.tokens[self.pos] {
            Token::Times => if level == 0 { Some(ASTNodeKind::MultDivOp('*')) } else { None },
            Token::Divide => if level == 0 { Some(ASTNodeKind::MultDivOp('/')) } else { None },
            Token::Plus => if level == 1 { Some(ASTNodeKind::AddSubOp('+')) } else { None },
            Token::Minus => if level == 1 { Some(ASTNodeKind::AddSubOp('-')) } else { None },
            Token::LeftShift => if level == 2 { Some(ASTNodeKind::ShiftOp(ShiftType::Left)) } else { None },
            Token::RightShift => if level == 2 { Some(ASTNodeKind::ShiftOp(ShiftType::Right)) } else { None },
            Token::Ge => if level == 3 { Some(ASTNodeKind::CmpOp(CmpType::Ge)) } else { None },
            Token::Le => if level == 3 { Some(ASTNodeKind::CmpOp(CmpType::Le)) } else { None },
            Token::Gt => if level == 3 { Some(ASTNodeKind::CmpOp(CmpType::Gt)) } else { None },
            Token::Lt => if level == 3 { Some(ASTNodeKind::CmpOp(CmpType::Lt)) } else { None },
            Token::Eq => if level == 4 { Some(ASTNodeKind::EqOp(EqType::Eq)) } else { None },
            Token::Ne => if level == 4 { Some(ASTNodeKind::EqOp(EqType::Ne)) } else { None },
            Token::BitwiseAnd => if level == 5 { Some(ASTNodeKind::BAndOp) } else { None },
            Token::BitwiseExclusiveOr => if level == 6 { Some(ASTNodeKind::BXOrOp) } else { None },
            Token::BitwiseOr => if level == 7 { Some(ASTNodeKind::BOrOp) } else { None },
            Token::LogicalAnd => if level == 8 { Some(ASTNodeKind::LAndOp) } else { None },
            Token::LogicalOr => if level == 9 { Some(ASTNodeKind::LOrOp) } else { None },
            _ => None,
        }
    }

    /// A node for a binary operator with its two operands.
    fn binary_node(kind: ASTNodeKind, lhs: ASTNode, rhs: ASTNode) -> (res: ASTNode)
        ensures
            res@ == node_with(kind@, seq![lhs@, rhs@]),
    {
        let ghost lv = lhs@;
        let ghost rv = rhs@;
        let ghost kv = kind@;
        let mut node = ASTNode::new(kind, None);
        node.push_child(lhs);
        node.push_child(rhs);
        assert(node@.children->0 =~= seq![lv, rv]);
        assert(node@ =~= node_with(kv, seq![lv, rv]));
        node
    }

    /// Parses a chain of operands joined by the operators of the given level; the
    /// operators group to the left.
    fn parse_level(&mut self, level: usize) -> (res: Result<ASTNode, ParserError>)
        requires
            level <= 9,
        ensures
            stepped(*old(self), *final(self), spec_binary(level as nat, old(self).token_seq(), old(self).cursor() as int), res),
        decreases tokens_left(old(self).tokens@, old(self).pos as int), 3 * level as int + 4,
    {
        let ghost ts = self.tokens@;
        let ghost p0 = self.pos as int;
        let lhs = self.parse_operand(level);
        let mut acc = match lhs {
            Ok(n) => n,
            Err(e) => {
                return Err(e);
            },
        };
        proof {
            use_type_invariant(&*self);
        }
        loop
            invariant
                level <= 9,
                ts == old(self).tokens@,
                p0 == old(self).pos,
                self.tokens@ == ts,
                p0 <= self.pos <= ts.len(),
                ({
                    let (r, k) = spec_chain(level as nat, ts, self.pos as int, acc@);
                    spec_binary(level as nat, ts, p0) == (r, (self.pos - p0 + k) as nat)
                }),
            decreases ts.len() - self.pos,
        {
            proof {
                use_type_invariant(&*self);
            }
            match self.operator_at(level) {
                None => {
                    return Ok(acc);
                },
                Some(kind) => {
                    self.pos = self.pos + 1;
                    let rhs = match self.parse_operand(level) {
                        Ok(n) => n,
                        Err(e) => {
                            return Err(e);
                        },
                    };
                    proof {
                        use_type_invariant(&*self);
                    }
                    acc = Self::binary_node(kind, acc, rhs);
                },
            }
        }
    }

    /// Parses an operand of the operators of the given level: a chain of the level
    /// below, or a primary expression below the tightest level.
    fn parse_operand(&mut self, level: usize) -> (res: Result<ASTNode, ParserError>)
        requires
            level <= 9,
        ensures
            stepped(*old(self), *final(self), spec_operand(level as nat, old(self).token_seq(), old(self).cursor() as int), res),
        decreases tokens_left(old(self).tokens@, old(self).pos as int), 3 * level as int + 3,
    {
        match level {
            0 => self.parse_primary(),
            1 => self.parse_multiplicative(),
            2 => self.parse_additive(),
            3 => self.parse_shift(),
            4 => self.parse_comparative(),
            5 => self.parse_equative(),
            6 => self.parse_bitwise_and(),
            7 => self.parse_bitwise_xor(),
            8 => self.parse_bitwise_or(),
            _ => self.parse_logical_and(),
        }
    }

    /// Parses a chain joined by `*` and `/`.
    fn parse_multiplicative(&mut self) -> (res: Result<ASTNode, ParserError>)
        ensures
            stepped(*old(self), *final(self), spec_binary(0, old(self).token_seq(), old(self).cursor() as int), res),
        decreases tokens_left(old(self).tokens@, old(self).pos as int), 5int,
    {
        self.parse_level(0)
    }

    /// Parses a chain joined by `+` and `-`.
    fn parse_additive(&mut self) -> (res: Result<ASTNode, ParserError>)
        ensures
            stepped(*old(self), *final(self), spec_binary(1, old(self).token_seq(), old(self).cursor() as int), res),
        decreases tokens_left(old(self).tokens@, old(self).pos as int), 8int,
    {
        self.parse_level(1)
    }

    /// Parses a chain joined by `<<` and `>>`.
    fn parse_shift(&mut self) -> (res: Result<ASTNode, ParserError>)
        ensures
            stepped(*old(self), *final(self), spec_binary(2, old(self).token_seq(), old(self).cursor() as int), res),
        decreases tokens_left(old(self).tokens@, old(self).pos as int), 11int,
    {
        self.parse_level(2)
    }

    /// Parses a chain joined by `<`, `>`, `<=` and `>=`.
    fn parse_comparative(&mut self) -> (res: Result<ASTNode, ParserError>)
        ensures
            stepped(*old(self), *final(self), spec_binary(3, old(self).token_seq(), old(self).cursor() as int), res),
        decreases tokens_left(old(self).tokens@, old(self).pos as int), 14int,
    {
        self.parse_level(3)
    }

    /// Parses a chain joined by `==` and `!=`.
    fn parse_equative(&mut self) -> (res: Result<ASTNode, ParserError>)
        ensures
            stepped(*old(self), *final(self), spec_binary(4, old(self).token_seq(), old(self).cursor() as int), res),
        decreases tokens_left(old(self).tokens@, old(self).pos as int), 17int,
    {
        self.parse_level(4)
    }

    /// Parses a chain joined by `&`.
    fn parse_bitwise_and(&mut self) -> (res: Result<ASTNode, ParserError>)
        ensures
            stepped(*old(self), *final(self), spec_binary(5, old(self).token_seq(), old(self).cursor() as int), res),
        decreases tokens_left(old(self).tokens@, old(self).pos as int), 20int,
    {
        self.parse_level(5)
    }

    /// Parses a chain joined by `^`.
    fn parse_bitwise_xor(&mut self) -> (res: Result<ASTNode, ParserError>)
        ensures
            stepped(*old(self), *final(self), spec_binary(6, old(self).token_seq(), old(self).cursor() as int), res),
        decreases tokens_left(old(self).tokens@, old(self).pos as int), 23int,
    {
        self.parse_level(6)
    }

    /// Parses a chain joined by `|`.
    fn parse_bitwise_or(&mut self) -> (res: Result<ASTNode, ParserError>)
        ensures
            stepped(*old(self), *final(self), spec_binary(7, old(self).token_seq(), old(self).cursor() as int), res),
        decreases tokens_left(old(self).tokens@, old(self).pos as int), 26int,
    {
        self.parse_level(7)
    }

    /// Parses a chain joined by `&&`.
    fn parse_logical_and(&mut self) -> (res: Result<ASTNode, ParserError>)
        ensures
            stepped(*old(self), *final(self), spec_binary(8, old(self).token_seq(), old(self).cursor() as int), res),
        decreases tokens_left(old(self).tokens@, old(self).pos as int), 29int,
    {
        self.parse_level(8)
    }

    /// Parses a chain joined by `||`.
    fn parse_logical_or(&mut self) -> (res: Result<ASTNode, ParserError>)
        ensures
            stepped(*old(self), *final(self), spec_binary(9, old(self).token_seq(), old(self).cursor() as int), res),
        decreases tokens_left(old(self).tokens@, old(self).pos as int), 32int,
    {
        self.parse_level(9)
    }

    /// Parses a primary expression: an integer literal, a parenthesized expression, a
    /// variable, or a unary operator applied to a primary expression.
    fn parse_primary(&mut self) -> (res: Result<ASTNode, ParserError>)
        ensures
            stepped(*old(self), *final(self), spec_primary(old(self).token_seq(), old(self).cursor() as int), res),
        decreases tokens_left(old(self).tokens@, old(self).pos as int), 0int,
    {
        proof {
            use_type_invariant(&*self);
        }
        if self.pos >= self.tokens.len() {
            return Err(self.fail("failed while parsing primary: None is not valid token"));
        }
        let p = self.pos;
        let current = self.tokens[p].clone();
        self.pos = p + 1;
        let mut ast_node = ASTNode::new(ASTNodeKind::PrimaryExp, None);
        match current {
            Token::DecimalIntegerLiteral(n) => {
                ast_node.push_child(ASTNode::new(ASTNodeKind::Constant(decimal_string(n)), None));
                assert(ast_node@ =~= node_with(KindView::PrimaryExp, seq![leaf(KindView::Constant(decimal_text(n as nat)))]));
                Ok(ast_node)
            },
            Token::LeftParen => self.parse_paren(),
            Token::Identifier(id) => self.parse_variable(id),
            other => {
                let u = match self.parse_unary(other) {
                    Ok(u) => u,
                    Err(e) => {
                        return Err(e);
                    },
                };
                ast_node.push_child(u);
                assert(ast_node@ =~= node_with(KindView::PrimaryExp, seq![u@]));
                Ok(ast_node)
            },
        }
    }

    /// A variable node.
    fn parse_variable(&mut self, id: String) -> (res: Result<ASTNode, ParserError>)
        ensures
            *final(self) == *old(self),
            res matches Ok(n) && n@ == leaf(KindView::Variable(id@)),
    {
        Ok(ASTNode::new(ASTNodeKind::Variable(id), None))
    }

    /// Parses the inside of parentheses, then the closing parenthesis.
    fn parse_paren(&mut self) -> (res: Result<ASTNode, ParserError>)
        ensures
            stepped(*old(self), *final(self), spec_paren(old(self).token_seq(), old(self).cursor() as int), res),
        decreases tokens_left(old(self).tokens@, old(self).pos as int), 33int,
    {
        let inner_exp = match self.parse_logical_or() {
            Ok(n) => n,
            Err(e) => {
                return Err(e);
            },
        };
        match self.expect_token(Token::RightParen) {
            Ok(()) => Ok(inner_exp),
            Err(e) => Err(e),
        }
    }

    /// Parses the operand of the unary operator token `current_token`, which is already
    /// consumed.
    fn parse_unary(&mut self, current_token: Token) -> (res: Result<ASTNode, ParserError>)
        ensures
            stepped(*old(self), *final(self), spec_unary(current_token, old(self).token_seq(), old(self).cursor() as int), res),
        decreases tokens_left(old(self).tokens@, old(self).pos as int), 1int,
    {
        let op = match current_token {
            Token::Minus => '-',
            Token::BitwiseComplement => '~',
            Token::LogicalNegation => '!',
            _ => {
                let mut msg = "failed while parsing unary: ".to_owned();
                msg.append(token_text(&current_token).as_str());
                msg.append(" is not valid token\n");
                msg.append(self.remaining_text().as_str());
                return Err(self.fail(msg.as_str()));
            },
        };
        let operand = match self.parse_primary() {
            Ok(n) => n,
            Err(e) => {
                return Err(e);
            },
        };
        let ghost ov = operand@;
        let mut content: Vec<ASTNode> = Vec::new();
        content.push(operand);
        assert(crate::ast::nodes_view(content@) =~= seq![ov]);
        let ast_node = ASTNode::new(ASTNodeKind::UnOp(op), Some(content));
        assert(ast_node@ =~= node_with(KindView::UnOp(op), seq![ov]));
        Ok(ast_node)
    }

    /// Parses a statement: a `return` with its expression, an assignment to a variable,
    /// or a declaration with or without an initial value, each ended by `;`.
    fn parse_statement(&mut self) -> (res: Result<ASTNode, ParserError>)
        ensures
            stepped(*old(self), *final(self), spec_statement(old(self).token_seq(), old(self).cursor() as int), res),
    {
        proof {
            use_type_invariant(&*self);
        }
        if self.pos >= self.tokens.len() {
            let mut msg = "in parse_statement(): ".to_owned();
            msg.append(optional_token_text(None).as_str());
            msg.append(" is not Keyword or Datatype!");
            return Err(self.fail(msg.as_str()));
        }
        let p = self.pos;
        let current_token = self.tokens[p].clone();
        self.pos = p + 1;
        match current_token {
            Token::Keyword(k) => {
                let ret = "return".to_owned();
                if k == ret {
                    let mut ast_node = ASTNode::new(ASTNodeKind::Return, None);
                    let expression = match self.parse_assignment() {
                        Ok(n) => n,
                        Err(e) => {
                            return Err(e);
                        },
                    };
                    let ghost ev = expression@;
                    ast_node.push_child(expression);
                    assert(ast_node@ =~= node_with(KindView::Return, seq![ev]));
                    match self.expect_token(Token::Semicolon) {
                        Ok(()) => Ok(ast_node),
                        Err(e) => Err(e),
                    }
                } else {
                    Err(self.fail("failed while parsing statement: keyword not return"))
                }
            },
            Token::Identifier(id) => {
                proof {
                    use_type_invariant(&*self);
                }
                if self.pos >= self.tokens.len() {
                    let mut msg = "next_token not = when assigning variable, ".to_owned();
                    msg.append(optional_token_text(None).as_str());
                    return Err(self.fail(msg.as_str()));
                }
                let q = self.pos;
                let next_token = self.tokens[q].clone();
                self.pos = q + 1;
                let assign_type = match next_token {
                    Token::SimpleAssign => AssignType::Simple,
                    Token::SumAssign => AssignType::Sum,
                    Token::DiffAssign => AssignType::Diff,
                    Token::ProdAssign => AssignType::Prod,
                    Token::QuotAssign => AssignType::Diff,
                    Token::RemAssign => AssignType::Rem,
                    Token::LShAssign => AssignType::LShift,
                    Token::RShAssign => AssignType::RShift,
                    Token::AndAssign => AssignType::BAnd,
                    Token::XOrAssign => AssignType::BXOr,
                    Token::OrAssign => AssignType::BOr,
                    other => {
                        let mut msg = "next_token not = when assigning variable, ".to_owned();
                        msg.append(optional_token_text(Some(&other)).as_str());
                        return Err(self.fail(msg.as_str()));
                    },
                };
                let mut og_node = ASTNode::new(ASTNodeKind::Assignment(assign_type), None);
                let id_node = ASTNode::new(ASTNodeKind::Variable(id), None);
                let ghost iv = id_node@;
                og_node.push_child(id_node);
                let inner = match self.parse_assignment() {
                    Ok(n) => n,
                    Err(e) => {
                        return Err(e);
                    },
                };
                let ghost nv = inner@;
                og_node.push_child(inner);
                assert(og_node@.children->0 =~= seq![iv, nv]);
                assert(og_node@ =~= node_with(KindView::Assignment(assign_type), seq![iv, nv]));
                match self.expect_token(Token::Semicolon) {
                    Ok(()) => Ok(og_node),
                    Err(e) => Err(e),
                }
            },
            Token::DataType(data_type) => {
                proof {
                    use_type_invariant(&*self);
                }
                let mut ast_node = ASTNode::new(ASTNodeKind::Declaration(data_type), None);
                if self.pos >= self.tokens.len() {
                    return Err(self.fail("failed while parsing statement: token mismatch"));
                }
                let q = self.pos;
                let second = self.tokens[q].clone();
                self.pos = q + 1;
                let id = match second {
                    Token::Identifier(id) => id,
                    _ => {
                        return Err(self.fail("failed while parsing statement: token mismatch"));
                    },
                };
                if self.pos >= self.tokens.len() {
                    return Err(self.fail("next_token not = or ;"));
                }
                let r = self.pos;
                let next_token = self.tokens[r].clone();
                self.pos = r + 1;
                match next_token {
                    Token::SimpleAssign => {
                        let mut og_node = ASTNode::new(ASTNodeKind::Assignment(AssignType::Simple), None);
                        let id_node = ASTNode::new(ASTNodeKind::Variable(id), None);
                        let ghost iv = id_node@;
                        og_node.push_child(id_node);
                        let inner = match self.parse_assignment() {
                            Ok(n) => n,
                            Err(e) => {
                                return Err(e);
                            },
                        };
                        let ghost nv = inner@;
                        og_node.push_child(inner);
                        assert(og_node@.children->0 =~= seq![iv, nv]);
                        let ghost ov = og_node@;
                        assert(ov =~= node_with(KindView::Assignment(AssignType::Simple), seq![iv, nv]));
                        ast_node.push_child(og_node);
                        assert(ast_node@ =~= node_with(ast_node@.kind, seq![ov]));
                        match self.expect_token(Token::Semicolon) {
                            Ok(()) => Ok(ast_node),
                            Err(e) => Err(e),
                        }
                    },
                    Token::Semicolon => {
                        let id_node = ASTNode::new(ASTNodeKind::Variable(id), None);
                        let ghost iv = id_node@;
                        ast_node.push_child(id_node);
                        assert(ast_node@ =~= node_with(ast_node@.kind, seq![iv]));
                        Ok(ast_node)
                    },
                    _ => Err(self.fail("next_token not = or ;")),
                }
            },
            other => {
                let mut msg = "in parse_statement(): ".to_owned();
                msg.append(optional_token_text(Some(&other)).as_str());
                msg.append(" is not Keyword or Datatype!");
                Err(self.fail(msg.as_str()))
            },
        }
    }

    /// Parses a function: `<data type> <identifier> ( ) { <statements> }`.
    fn parse_function(&mut self) -> (res: Result<ASTNode, ParserError>)
        ensures
            stepped(*old(self), *final(self), spec_function(old(self).token_seq(), old(self).cursor() as int), res),
    {
        proof {
            use_type_invariant(&*self);
        }
        let ghost ts = self.tokens@;
        let ghost p0 = self.pos as int;
        if self.pos >= self.tokens.len() {
            return Err(self.fail("failed while parsing function"));
        }
        let p = self.pos;
        let first = self.tokens[p].clone();
        self.pos = p + 1;
        let data_type = match first {
            Token::DataType(d) => d,
            _ => {
                return Err(self.fail("failed while parsing function"));
            },
        };
        if self.pos >= self.tokens.len() {
            return Err(self.fail("failed while parsing function"));
        }
        let q = self.pos;
        let second = self.tokens[q].clone();
        self.pos = q + 1;
        let id = match second {
            Token::Identifier(id) => id,
            _ => {
                return Err(self.fail("failed while parsing function"));
            },
        };
        let mut ast_node = ASTNode::new(ASTNodeKind::FunctionDeclaration(data_type, id), None);
        match self.expect_token(Token::LeftParen) {
            Ok(()) => {},
            Err(e) => {
                return Err(e);
            },
        }
        match self.expect_token(Token::RightParen) {
            Ok(()) => {},
            Err(e) => {
                return Err(e);
            },
        }
        match self.expect_token(Token::LeftBrace) {
            Ok(()) => {},
            Err(e) => {
                return Err(e);
            },
        }
        let ghost kind = ast_node@.kind;
        let ghost start = self.pos as int;
        let ghost mut done: Seq<NodeView> = seq![];
        assert(ast_node@ =~= node_with(kind, done));
        proof {
            use_type_invariant(&*self);
            assert(start == p0 + 5);
        }
        assert({
            let (b, kb) = spec_statements(ts, start);
            spec_function(ts, p0) == (
                match b {
                    Err(m) => Err(m),
                    Ok(ss) => Ok(node_with(kind, ss)),
                },
                (5 + kb) as nat,
            )
        });
        loop
            invariant
                ts == old(self).tokens@,
                p0 == old(self).pos,
                start == p0 + 5,
                ({
                    let (b, kb) = spec_statements(ts, start);
                    spec_function(ts, p0) == (
                        match b {
                            Err(m) => Err(m),
                            Ok(ss) => Ok(node_with(kind, ss)),
                        },
                        (5 + kb) as nat,
                    )
                }),
                self.tokens@ == ts,
                start <= self.pos <= ts.len(),
                ast_node@ == node_with(kind, done),
                ({
                    let (rest, k) = spec_statements(ts, self.pos as int);
                    spec_statements(ts, start) == (
                        match rest {
                            Err(m) => Err(m),
                            Ok(r) => Ok(done + r),
                        },
                        (self.pos - start + k) as nat,
                    )
                }),
            decreases ts.len() - self.pos,
        {
            proof {
                use_type_invariant(&*self);
            }
            if self.pos < self.tokens.len() {
                if let Token::RightBrace = &self.tokens[self.pos] {
                    self.pos = self.pos + 1;
                    assert(done + seq![] =~= done);
                    return Ok(ast_node);
                }
            }
            let statement = match self.parse_statement() {
                Ok(n) => n,
                Err(e) => {
                    return Err(e);
                },
            };
            proof {
                use_type_invariant(&*self);
            }
            let ghost sv = statement@;
            ast_node.push_child(statement);
            proof {
                assert(done.push(sv) =~= done + seq![sv]);
                assert(forall|r: Seq<NodeView>| #[trigger] (done + (seq![sv] + r)) =~= done.push(sv) + r);
                done = done.push(sv);
                assert(ast_node@ =~= node_with(kind, done));
            }
        }
    }

    /// Parses a whole program: functions until no token is left. A program that parses
    /// has used up every token.
    pub fn parse(&mut self) -> (res: Result<ASTNode, ParserError>)
        ensures
            stepped(*old(self), *final(self), spec_program(old(self).token_seq(), old(self).cursor() as int), res),
            res is Ok ==> final(self).cursor() == final(self).token_seq().len(),
    {
        proof {
            use_type_invariant(&*self);
        }
        let ghost ts = self.tokens@;
        let ghost start = self.pos as int;
        let mut ast_node = ASTNode::new(ASTNodeKind::Program, None);
        let ghost mut done: Seq<NodeView> = seq![];
        assert(ast_node@ =~= node_with(KindView::Program, done));
        while self.pos < self.tokens.len()
            invariant
                ts == old(self).tokens@,
                start == old(self).pos,
                self.tokens@ == ts,
                start <= self.pos <= ts.len(),
                ast_node@ == node_with(KindView::Program, done),
                ({
                    let (rest, k) = spec_functions(ts, self.pos as int);
                    spec_functions(ts, start) == (
                        match rest {
                            Err(m) => Err(m),
                            Ok(r) => Ok(done + r),
                        },
                        (self.pos - start + k) as nat,
                    )
                }),
            decreases ts.len() - self.pos,
        {
            let function = match self.parse_function() {
                Ok(n) => n,
                Err(e) => {
                    return Err(e);
                },
            };
            proof {
                use_type_invariant(&*self);
            }
            let ghost fv = function@;
            ast_node.push_child(function);
            proof {
                assert(done.push(fv) =~= done + seq![fv]);
                assert(ast_node@.children->0 =~= done.push(fv));
                assert(forall|r: Seq<NodeView>| #[trigger] (done + (seq![fv] + r)) =~= done.push(fv) + r);
                done = done.push(fv);
                assert(ast_node@ =~= node_with(KindView::Program, done));
            }
        }
        assert(done + seq![] =~= done);
        Ok(ast_node)
    }

    /// The kind of assignment the token at `p` stands for inside an expression.
    fn expression_assign_at(&self, p: usize) -> (res: Option<AssignType>)
        requires
            p < self.tokens.len(),
        ensures
            res == expression_assign_type(self.tokens@[p as int]),
    {
        match &self.tokens[p] {
            Token::SimpleAssign => Some(AssignType::Simple),
            Token::SumAssign => Some(AssignType::Sum),
            Token::DiffAssign => Some(AssignType::Diff),
            Token::ProdAssign => Some(AssignType::Prod),
            Token::QuotAssign => Some(AssignType::Quot),
            Token::RemAssign => Some(AssignType::Rem),
            Token::LShAssign => Some(AssignType::LShift),
            Token::RShAssign => Some(AssignType::RShift),
            Token::AndAssign => Some(AssignType::BAnd),
            Token::XOrAssign => Some(AssignType::BXOr),
            Token::OrAssign => Some(AssignType::BOr),
            _ => None,
        }
    }

    /// Parses an assignment expression: an identifier followed by an assignment operator
    /// assigns the assignment expression after it; anything else is a logical-or chain.
    fn parse_assignment(&mut self) -> (res: Result<ASTNode, ParserError>)
        ensures
            stepped(*old(self), *final(self), spec_assignment(old(self).token_seq(), old(self).cursor() as int), res),
        decreases tokens_left(old(self).tokens@, old(self).pos as int), 34int,
    {
        proof {
            use_type_invariant(&*self);
        }
        let p = self.pos;
        if p < self.tokens.len() && p + 1 < self.tokens.len() {
            if let Token::Identifier(id) = self.tokens[p].clone() {
                if let Some(at) = self.expression_assign_at(p + 1) {
                    self.pos = p + 2;
                    let mut ast_node = ASTNode::new(ASTNodeKind::Assignment(at), None);
                    let var = match self.parse_variable(id) {
                        Ok(n) => n,
                        Err(e) => {
                            return Err(e);
                        },
                    };
                    let ghost vv = var@;
                    ast_node.push_child(var);
                    let inner = match self.parse_assignment() {
                        Ok(n) => n,
                        Err(e) => {
                            return Err(e);
                        },
                    };
                    let ghost iv = inner@;
                    ast_node.push_child(inner);
                    assert(ast_node@.children->0 =~= seq![vv, iv]);
                    assert(ast_node@ =~= node_with(KindView::Assignment(at), seq![vv, iv]));
                    return Ok(ast_node);
                }
            }
        }
        self.parse_logical_or()
    }
}

} // verus!
