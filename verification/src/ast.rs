use vstd::prelude::*;

verus! {

/// The kind of an assignment operator (`=`, `+=`, `-=`, ...).
#[derive(Debug, Clone, Copy, PartialEq, Eq, Structural)]
pub enum AssignType {
    Simple,
    Sum,
    Diff,
    Prod,
    Quot,
    Rem,
    LShift,
    RShift,
    BAnd,
    BXOr,
    BOr,
}

/// The kind of an ordering comparison.
#[derive(Debug, Clone, Copy, PartialEq, Eq, Structural)]
pub enum CmpType {
    Ge,
    Le,
    Gt,
    Lt,
}

/// The kind of an equality comparison.
#[derive(Debug, Clone, Copy, PartialEq, Eq, Structural)]
pub enum EqType {
    Eq,
    Ne,
}

/// The direction of a shift.
#[derive(Debug, Clone, Copy, PartialEq, Eq, Structural)]
pub enum ShiftType {
    Left,
    Right,
}

/// What a node of the syntax tree stands for.
#[derive(Debug, PartialEq)]
pub enum ASTNodeKind {
    Program,
    FunctionDeclaration(String, String),  // data_type, identifier
    Statement(String),
    Return,
    Declaration(String),
    Assignment(AssignType),
    Variable(String),
    PrimaryExp,
    Constant(String),
    UnOp(char),
    MultDivOp(char),
    AddSubOp(char),
    ShiftOp(ShiftType),
    CmpOp(CmpType),
    EqOp(EqType),
    BAndOp,
    BXOrOp,
    BOrOp,
    LAndOp,
    LOrOp,
}

/// The mathematical model of an [`ASTNodeKind`]: strings are taken by their characters.
pub enum KindView {
    Program,
    FunctionDeclaration(Seq<char>, Seq<char>),
    Statement(Seq<char>),
    Return,
    Declaration(Seq<char>),
    Assignment(AssignType),
    Variable(Seq<char>),
    PrimaryExp,
    Constant(Seq<char>),
    UnOp(char),
    MultDivOp(char),
    AddSubOp(char),
    ShiftOp(ShiftType),
    CmpOp(CmpType),
    EqOp(EqType),
    BAndOp,
    BXOrOp,
    BOrOp,
    LAndOp,
    LOrOp,
}

impl View for ASTNodeKind {
    type V = KindView;

    open spec fn view(&self) -> KindView {
        match self {
            ASTNodeKind::Program => KindView::Program,
            ASTNodeKind::FunctionDeclaration(t, id) => KindView::FunctionDeclaration(t@, id@),
            ASTNodeKind::Statement(s) => KindView::Statement(s@),
            ASTNodeKind::Return => KindView::Return,
            ASTNodeKind::Declaration(t) => KindView::Declaration(t@),
            ASTNodeKind::Assignment(a) => KindView::Assignment(*a),
            ASTNodeKind::Variable(id) => KindView::Variable(id@),
            ASTNodeKind::PrimaryExp => KindView::PrimaryExp,
            ASTNodeKind::Constant(c) => KindView::Constant(c@),
            ASTNodeKind::UnOp(c) => KindView::UnOp(*c),
            ASTNodeKind::MultDivOp(c) => KindView::MultDivOp(*c),
            ASTNodeKind::AddSubOp(c) => KindView::AddSubOp(*c),
            ASTNodeKind::ShiftOp(s) => KindView::ShiftOp(*s),
            ASTNodeKind::CmpOp(c) => KindView::CmpOp(*c),
            ASTNodeKind::EqOp(e) => KindView::EqOp(*e),
            ASTNodeKind::BAndOp => KindView::BAndOp,
            ASTNodeKind::BXOrOp => KindView::BXOrOp,
            ASTNodeKind::BOrOp => KindView::BOrOp,
            ASTNodeKind::LAndOp => KindView::LAndOp,
            ASTNodeKind::LOrOp => KindView::LOrOp,
        }
    }
}

impl Clone for ASTNodeKind {
    fn clone(&self) -> (res: Self)
        ensures
            res@ == self@,
    {
        match self {
            ASTNodeKind::Program => ASTNodeKind::Program,
            ASTNodeKind::FunctionDeclaration(t, id) => ASTNodeKind::FunctionDeclaration(
                t.clone(),
                id.clone(),
            ),
            ASTNodeKind::Statement(s) => ASTNodeKind::Statement(s.clone()),
            ASTNodeKind::Return => ASTNodeKind::Return,
            ASTNodeKind::Declaration(t) => ASTNodeKind::Declaration(t.clone()),
            ASTNodeKind::Assignment(a) => ASTNodeKind::Assignment(*a),
            ASTNodeKind::Variable(id) => ASTNodeKind::Variable(id.clone()),
            ASTNodeKind::PrimaryExp => ASTNodeKind::PrimaryExp,
            ASTNodeKind::Constant(c) => ASTNodeKind::Constant(c.clone()),
            ASTNodeKind::UnOp(c) => ASTNodeKind::UnOp(*c),
            ASTNodeKind::MultDivOp(c) => ASTNodeKind::MultDivOp(*c),
            ASTNodeKind::AddSubOp(c) => ASTNodeKind::AddSubOp(*c),
            ASTNodeKind::ShiftOp(s) => ASTNodeKind::ShiftOp(*s),
            ASTNodeKind::CmpOp(c) => ASTNodeKind::CmpOp(*c),
            ASTNodeKind::EqOp(e) => ASTNodeKind::EqOp(*e),
            ASTNodeKind::BAndOp => ASTNodeKind::BAndOp,
            ASTNodeKind::BXOrOp => ASTNodeKind::BXOrOp,
            ASTNodeKind::BOrOp => ASTNodeKind::BOrOp,
            ASTNodeKind::LAndOp => ASTNodeKind::LAndOp,
            ASTNodeKind::LOrOp => ASTNodeKind::LOrOp,
        }
    }
}

impl Default for ASTNodeKind {
    fn default() -> (res: Self)
        ensures
            res@ == KindView::Program,
    {
        ASTNodeKind::Program
    }
}

/// The mathematical model of an [`ASTNode`]: its kind and, where it has a list of
/// children, the models of the children in order.
pub struct NodeView {
    pub kind: KindView,
    pub children: Option<Seq<NodeView>>,
}

/// A node of the syntax tree. A node that never received a child has no list of
/// children at all (`None`), which is not the same as an empty list.
pub struct ASTNode {
    kind: ASTNodeKind,
    children: Option<Vec<Box<ASTNode>>>,
}

/// The model of a node.
pub closed spec fn node_view(n: &ASTNode) -> NodeView
    decreases n,
{
    NodeView {
        kind: n.kind@,
        children: match &n.children {
            None => None,
            Some(v) => Some(Seq::new(v.len() as nat, |i: int| if 0 <= i < v.len() { node_view(&*v@[i]) } else { NodeView { kind: KindView::Program, children: None } })),
        },
    }
}

impl View for ASTNode {
    type V = NodeView;

    open spec fn view(&self) -> NodeView {
        node_view(self)
    }
}

/// The models of a sequence of boxed nodes.
pub open spec fn boxes_view(s: Seq<Box<ASTNode>>) -> Seq<NodeView> {
    s.map_values(|b: Box<ASTNode>| (*b)@)
}

/// The models of a sequence of nodes.
pub open spec fn nodes_view(s: Seq<ASTNode>) -> Seq<NodeView> {
    s.map_values(|n: ASTNode| n@)
}

/// The children of a node, with no list read as the empty list.
pub open spec fn subtrees_of(n: NodeView) -> Seq<NodeView> {
    match n.children {
        Some(cs) => cs,
        None => seq![],
    }
}

/// A node of the given kind whose list of children is `children`, or that has no list
/// when `children` is empty: what a node made without children becomes once the
/// `children` are pushed onto it in order.
pub open spec fn node_with(kind: KindView, children: Seq<NodeView>) -> NodeView {
    NodeView { kind, children: if children.len() == 0 { None } else { Some(children) } }
}

/// A node with no list of children.
pub open spec fn leaf(kind: KindView) -> NodeView {
    NodeView { kind, children: None }
}

/// The node `n` once `child` has been pushed onto its children.
pub open spec fn with_child(n: NodeView, child: NodeView) -> NodeView {
    NodeView {
        kind: n.kind,
        children: Some(
            match n.children {
                None => seq![child],
                Some(cs) => cs.push(child),
            },
        ),
    }
}

proof fn lemma_view_children(n: &ASTNode)
    ensures
        n@.kind == n.kind@,
        n.children is None ==> n@.children is None,
        n.children matches Some(v) ==> n@.children == Some(boxes_view(v@)),
{
    if let Some(v) = &n.children {
        assert(Seq::new(v.len() as nat, |i: int| if 0 <= i < v.len() { node_view(&*v@[i]) } else { NodeView { kind: KindView::Program, children: None } }) =~= boxes_view(v@));
    }
}

impl ASTNode {
    /// Makes a node of the given kind; its children are copies of `content`, in order,
    /// or it has no list of children when `content` is `None`.
    pub fn new(kind: ASTNodeKind, content: Option<Vec<ASTNode>>) -> (res: Self)
        ensures
            res@ == (NodeView {
                kind: kind@,
                children: match content {
                    None => None,
                    Some(c) => Some(nodes_view(c@)),
                },
            }),
    {
        let children = match content {
            Some(c) => {
                let mut boxed: Vec<Box<ASTNode>> = Vec::new();
                let mut i: usize = 0;
                while i < c.len()
                    invariant
                        i <= c.len(),
                        boxed@.len() == i,
                        forall|j: int| 0 <= j < i ==> (*boxed@[j])@ == c@[j]@,
                    decreases c.len() - i,
                {
                    let copy = c[i].deep_copy();
                    boxed.push(Box::new(copy));
                    i = i + 1;
                }
                assert(boxes_view(boxed@) =~= nodes_view(c@));
                Some(boxed)
            },
            None => None,
        };
        let res = ASTNode { kind, children };
        proof {
            lemma_view_children(&res);
        }
        res
    }

    /// Appends `node` to the children of `self`, starting a list of children where
    /// there was none.
    pub fn push_child(&mut self, node: ASTNode)
        ensures
            final(self)@ == with_child(old(self)@, node@),
    {
        proof {
            lemma_view_children(&*self);
        }
        match &mut self.children {
            Some(v) => v.push(Box::new(node)),
            None => self.children = Some(vec![Box::new(node)]),
        }
        proof {
            lemma_view_children(&*self);
            assert(subtrees_of(self@) =~= subtrees_of(with_child(old(self)@, node@)));
        }
    }

    /// The kind of the node.
    pub fn get_kind(&self) -> (res: &ASTNodeKind)
        ensures
            res@ == self@.kind,
    {
        proof {
            lemma_view_children(self);
        }
        &self.kind
    }

    /// Copies of the children of the node, in order; empty where it has no list.
    pub fn get_subtrees(&self) -> (res: Vec<Box<ASTNode>>)
        ensures
            boxes_view(res@) == subtrees_of(self@),
    {
        proof {
            lemma_view_children(self);
        }
        let mut out: Vec<Box<ASTNode>> = Vec::new();
        match &self.children {
            Some(v) => {
                let mut i: usize = 0;
                while i < v.len()
                    invariant
                        i <= v.len(),
                        out@.len() == i,
                        forall|j: int| 0 <= j < i ==> (*out@[j])@ == (*v@[j])@,
                    decreases v.len() - i,
                {
                    let copy = v[i].deep_copy();
                    out.push(Box::new(copy));
                    i = i + 1;
                }
                assert(boxes_view(out@) =~= boxes_view(v@));
            },
            None => {},
        }
        assert(boxes_view(out@) =~= subtrees_of(self@));
        out
    }

    /// The number of children of the node.
    pub fn subtree_count(&self) -> (res: usize)
        ensures
            res == subtrees_of(self@).len(),
    {
        proof {
            lemma_view_children(self);
        }
        match &self.children {
            Some(v) => v.len(),
            None => 0,
        }
    }

    /// The child of the node at index `i`.
    pub fn subtree(&self, i: usize) -> (res: &ASTNode)
        requires
            i < subtrees_of(self@).len(),
        ensures
            res@ == subtrees_of(self@)[i as int],
    {
        proof {
            lemma_view_children(self);
        }
        match &self.children {
            Some(v) => &v[i],
            None => {
                assert(false);
                self
            },
        }
    }

    /// A copy of the whole tree rooted at the node.
    pub fn deep_copy(&self) -> (res: ASTNode)
        ensures
            res@ == self@,
        decreases self,
    {
        proof {
            lemma_view_children(self);
        }
        let kind = self.kind.clone();
        let children = match &self.children {
            Some(v) => {
                let mut out: Vec<Box<ASTNode>> = Vec::new();
                let mut i: usize = 0;
                while i < v.len()
                    invariant
                        i <= v.len(),
                        self.children is Some && self.children->0 == *v,
                        out@.len() == i,
                        forall|j: int| 0 <= j < i ==> (*out@[j])@ == (*v@[j])@,
                    decreases v.len() - i,
                {
                    proof {
                        broadcast use vstd::std_specs::vec::axiom_vec_index_decreases;
                        assert(decreases_to!(*v => v[i as int]));
                        assert(self.children is Some && self.children->0 == *v);
                        assert(decreases_to!(self.children => self.children->0));
                        assert(decreases_to!(*self => self.children));
                        assert(decreases_to!(*self => *v[i as int]));
                    }
                    let copy = v[i].deep_copy();
                    out.push(Box::new(copy));
                    i = i + 1;
                }
                assert(boxes_view(out@) =~= boxes_view(v@));
                Some(out)
            },
            None => None,
        };
        let res = ASTNode { kind, children };
        proof {
            lemma_view_children(&res);
        }
        res
    }
}

impl Clone for ASTNode {
    fn clone(&self) -> (res: Self)
        ensures
            res@ == self@,
    {
        self.deep_copy()
    }
}

impl Default for ASTNode {
    fn default() -> (res: Self)
        ensures
            res@ == leaf(KindView::Program),
    {
        ASTNode::new(ASTNodeKind::Program, None)
    }
}

/// What `{:?}` writes for a string with the given characters: the text in double
/// quotes, its characters escaped as the standard library's `Debug` for `str` does.
pub uninterp spec fn string_debug_text(s: Seq<char>) -> Seq<char>;

/// What `{:?}` writes for a character: the character in single quotes, escaped as the
/// standard library's `Debug` for `char` does.
pub uninterp spec fn char_debug_text(c: char) -> Seq<char>;

/// Trusted: `<String as Debug>::fmt`, called through `format!("{:?}", s)`. The contract
/// claims only that the text is a function of the string's characters (named
/// [`string_debug_text`]); which characters are escaped, and how, is left to the
/// standard library.
#[verifier::external_body]
pub(crate) fn debug_string(s: &String) -> (res: String)
    ensures
        res@ == string_debug_text(s@),
{
    format!("{:?}", s)
}

/// Trusted: `<char as Debug>::fmt`, called through `format!("{:?}", c)`. The contract
/// claims only that the text is a function of the character (named
/// [`char_debug_text`]).
#[verifier::external_body]
pub(crate) fn debug_char(c: char) -> (res: String)
    ensures
        res@ == char_debug_text(c),
{
    format!("{:?}", c)
}

/// The name of an assignment kind, as `{:?}` writes it.
pub open spec fn assign_type_text(a: AssignType) -> Seq<char> {
    match a {
        AssignType::Simple => "Simple"@,
        AssignType::Sum => "Sum"@,
        AssignType::Diff => "Diff"@,
        AssignType::Prod => "Prod"@,
        AssignType::Quot => "Quot"@,
        AssignType::Rem => "Rem"@,
        AssignType::LShift => "LShift"@,
        AssignType::RShift => "RShift"@,
        AssignType::BAnd => "BAnd"@,
        AssignType::BXOr => "BXOr"@,
        AssignType::BOr => "BOr"@,
    }
}

/// The name of a comparison kind, as `{:?}` writes it.
pub open spec fn cmp_type_text(c: CmpType) -> Seq<char> {
    match c {
        CmpType::Ge => "Ge"@,
        CmpType::Le => "Le"@,
        CmpType::Gt => "Gt"@,
        CmpType::Lt => "Lt"@,
    }
}

/// The name of an equality kind, as `{:?}` writes it.
pub open spec fn eq_type_text(e: EqType) -> Seq<char> {
    match e {
        EqType::Eq => "Eq"@,
        EqType::Ne => "Ne"@,
    }
}

/// The name of a shift direction, as `{:?}` writes it.
pub open spec fn shift_type_text(s: ShiftType) -> Seq<char> {
    match s {
        ShiftType::Left => "Left"@,
        ShiftType::Right => "Right"@,
    }
}

/// `name(field)`: how `{:?}` writes a variant with one field.
pub open spec fn variant1(name: Seq<char>, field: Seq<char>) -> Seq<char> {
    name + "("@ + field + ")"@
}

/// What `{:?}` writes for a node kind: the variant's name, then its fields in
/// parentheses, separated by `, `.
pub open spec fn kind_debug_text(k: KindView) -> Seq<char> {
    match k {
        KindView::Program => "Program"@,
        KindView::FunctionDeclaration(t, id) => "FunctionDeclaration("@ + string_debug_text(t) + ", "@
            + string_debug_text(id) + ")"@,
        KindView::Statement(x) => variant1("Statement"@, string_debug_text(x)),
        KindView::Return => "Return"@,
        KindView::Declaration(t) => variant1("Declaration"@, string_debug_text(t)),
        KindView::Assignment(a) => variant1("Assignment"@, assign_type_text(a)),
        KindView::Variable(id) => variant1("Variable"@, string_debug_text(id)),
        KindView::PrimaryExp => "PrimaryExp"@,
        KindView::Constant(v) => variant1("Constant"@, string_debug_text(v)),
        KindView::UnOp(c) => variant1("UnOp"@, char_debug_text(c)),
        KindView::MultDivOp(c) => variant1("MultDivOp"@, char_debug_text(c)),
        KindView::AddSubOp(c) => variant1("AddSubOp"@, char_debug_text(c)),
        KindView::ShiftOp(d) => variant1("ShiftOp"@, shift_type_text(d)),
        KindView::CmpOp(c) => variant1("CmpOp"@, cmp_type_text(c)),
        KindView::EqOp(e) => variant1("EqOp"@, eq_type_text(e)),
        KindView::BAndOp => "BAndOp"@,
        KindView::BXOrOp => "BXOrOp"@,
        KindView::BOrOp => "BOrOp"@,
        KindView::LAndOp => "LAndOp"@,
        KindView::LOrOp => "LOrOp"@,
    }
}

fn assign_type_string(a: AssignType) -> (res: &'static str)
    ensures
        res@ == assign_type_text(a),
{
    match a {
        AssignType::Simple => "Simple",
        AssignType::Sum => "Sum",
        AssignType::Diff => "Diff",
        AssignType::Prod => "Prod",
        AssignType::Quot => "Quot",
        AssignType::Rem => "Rem",
        AssignType::LShift => "LShift",
        AssignType::RShift => "RShift",
        AssignType::BAnd => "BAnd",
        AssignType::BXOr => "BXOr",
        AssignType::BOr => "BOr",
    }
}

fn cmp_type_string(c: CmpType) -> (res: &'static str)
    ensures
        res@ == cmp_type_text(c),
{
    match c {
        CmpType::Ge => "Ge",
        CmpType::Le => "Le",
        CmpType::Gt => "Gt",
        CmpType::Lt => "Lt",
    }
}

/// `name(field)`.
fn variant_string(name: &str, field: &str) -> (res: String)
    ensures
        res@ == variant1(name@, field@),
{
    let mut s = name.to_owned();
    s.append("(");
    s.append(field);
    s.append(")");
    s
}

/// The text `{:?}` writes for a node kind.
pub fn kind_text(kind: &ASTNodeKind) -> (res: String)
    ensures
        res@ == kind_debug_text(kind@),
{
    match kind {
        ASTNodeKind::Program => "Program".to_owned(),
        ASTNodeKind::FunctionDeclaration(t, id) => {
            let mut s = "FunctionDeclaration(".to_owned();
            s.append(debug_string(t).as_str());
            s.append(", ");
            s.append(debug_string(id).as_str());
            s.append(")");
            s
        },
        ASTNodeKind::Statement(x) => variant_string("Statement", debug_string(x).as_str()),
        ASTNodeKind::Return => "Return".to_owned(),
        ASTNodeKind::Declaration(t) => variant_string("Declaration", debug_string(t).as_str()),
        ASTNodeKind::Assignment(a) => variant_string("Assignment", assign_type_string(*a)),
        ASTNodeKind::Variable(id) => variant_string("Variable", debug_string(id).as_str()),
        ASTNodeKind::PrimaryExp => "PrimaryExp".to_owned(),
        ASTNodeKind::Constant(v) => variant_string("Constant", debug_string(v).as_str()),
        ASTNodeKind::UnOp(c) => variant_string("UnOp", debug_char(*c).as_str()),
        ASTNodeKind::MultDivOp(c) => variant_string("MultDivOp", debug_char(*c).as_str()),
        ASTNodeKind::AddSubOp(c) => variant_string("AddSubOp", debug_char(*c).as_str()),
        ASTNodeKind::ShiftOp(d) => variant_string(
            "ShiftOp",
            match d {
                ShiftType::Left => "Left",
                ShiftType::Right => "Right",
            },
        ),
        ASTNodeKind::CmpOp(c) => variant_string("CmpOp", cmp_type_string(*c)),
        ASTNodeKind::EqOp(e) => variant_string(
            "EqOp",
            match e {
                EqType::Eq => "Eq",
                EqType::Ne => "Ne",
            },
        ),
        ASTNodeKind::BAndOp => "BAndOp".to_owned(),
        ASTNodeKind::BXOrOp => "BXOrOp".to_owned(),
        ASTNodeKind::BOrOp => "BOrOp".to_owned(),
        ASTNodeKind::LAndOp => "LAndOp".to_owned(),
        ASTNodeKind::LOrOp => "LOrOp".to_owned(),
    }
}

/// The number of children of a node.
pub open spec fn child_count(n: NodeView) -> int {
    subtrees_of(n).len() as int
}

/// `k` spaces.
pub open spec fn indent(k: nat) -> Seq<char> {
    Seq::new(k, |i: int| ' ')
}

/// The lines that show the tree `n`, indented by `spaces`: the kind of the node on a
/// line of its own, then each child, four spaces deeper, followed by an empty line.
pub open spec fn pretty_text(n: NodeView, spaces: nat) -> Seq<char>
    decreases n, child_count(n) + 1,
{
    indent(spaces) + kind_debug_text(n.kind) + "\n"@ + pretty_children_text(n, 0, spaces + 4)
}

/// The lines that show the children of `n` from index `i` on, each indented by `spaces`
/// and followed by a newline.
pub open spec fn pretty_children_text(n: NodeView, i: int, spaces: nat) -> Seq<char>
    decreases n, child_count(n) - i,
{
    match n.children {
        None => seq![],
        Some(cs) => if i < 0 || i >= cs.len() {
            seq![]
        } else {
            pretty_text(cs[i], spaces) + "\n"@ + pretty_children_text(n, i + 1, spaces)
        },
    }
}

/// The height of a tree: 0 for a node without children, and one more than its tallest
/// child otherwise.
pub open spec fn tree_height(n: NodeView) -> nat
    decreases n, child_count(n) + 1,
{
    if child_count(n) == 0 {
        0
    } else {
        1 + children_height(n, 0)
    }
}

/// The height of the tallest child of `n` from index `i` on (0 if there is none).
pub open spec fn children_height(n: NodeView, i: int) -> nat
    decreases n, child_count(n) - i,
{
    match n.children {
        None => 0,
        Some(cs) => if i < 0 || i >= cs.len() {
            0
        } else {
            let h = tree_height(cs[i]);
            let r = children_height(n, i + 1);
            if h >= r {
                h
            } else {
                r
            }
        },
    }
}

proof fn lemma_subtree_decreases(n: NodeView, i: int)
    requires
        0 <= i < subtrees_of(n).len(),
    ensures
        decreases_to!(n => subtrees_of(n)[i]),
{
    let cs = n.children->0;
    assert(decreases_to!(n => n.children));
    assert(decreases_to!(n.children => cs));
    assert(decreases_to!(cs => cs[i]));
}

/// The lines that show `node`, indented by `spaces`.
fn pretty_lines(node: &ASTNode, spaces: u8) -> (res: String)
    requires
        spaces + 4 * tree_height(node@) <= 255,
    ensures
        res@ == pretty_text(node@, spaces as nat),
    decreases node@, child_count(node@) + 1,
{
    let mut s = String::new();
    let mut k: u8 = 0;
    while k < spaces
        invariant
            k <= spaces,
            s@ == indent(k as nat),
        decreases spaces - k,
    {
        proof {
            reveal_strlit(" ");
        }
        s.append(" ");
        assert(s@ =~= indent((k + 1) as nat));
        k = k + 1;
    }
    s.append(kind_text(node.get_kind()).as_str());
    s.append("\n");
    if node.subtree_count() > 0 {
        let rest = pretty_children(node, 0, spaces + 4);
        s.append(rest.as_str());
    } else {
        assert(pretty_children_text(node@, 0, spaces as nat + 4) =~= seq![]);
        assert(s@ =~= s@ + Seq::<char>::empty());
    }
    s
}

/// The lines that show the children of `node` from index `i` on, indented by `spaces`.
fn pretty_children(node: &ASTNode, i: usize, spaces: u8) -> (res: String)
    requires
        i <= child_count(node@),
        spaces + 4 * children_height(node@, i as int) <= 255,
    ensures
        res@ == pretty_children_text(node@, i as int, spaces as nat),
    decreases node@, child_count(node@) - i,
{
    if i >= node.subtree_count() {
        return String::new();
    }
    let child = node.subtree(i);
    proof {
        lemma_subtree_decreases(node@, i as int);
    }
    let mut s = pretty_lines(child, spaces);
    s.append("\n");
    let rest = pretty_children(node, i + 1, spaces);
    s.append(rest.as_str());
    s
}

/// Whether every child of `node` from index `i` on is at most `limit` high.
fn children_at_most(node: &ASTNode, i: usize, limit: u8) -> (res: bool)
    requires
        i <= child_count(node@),
    ensures
        res == (children_height(node@, i as int) <= limit),
    decreases node@, child_count(node@) - i,
{
    if i >= node.subtree_count() {
        return true;
    }
    let child = node.subtree(i);
    proof {
        lemma_subtree_decreases(node@, i as int);
    }
    if !child.height_at_most(limit) {
        return false;
    }
    children_at_most(node, i + 1, limit)
}

impl ASTNode {
    /// Whether the tree is at most `limit` levels high: whether [`ASTNode::pretty`] can
    /// show it, for a limit of 63.
    pub fn height_at_most(&self, limit: u8) -> (res: bool)
        ensures
            res == (tree_height(self@) <= limit),
        decreases self@, child_count(self@) + 1,
    {
        if self.subtree_count() == 0 {
            return true;
        }
        if limit == 0 {
            return false;
        }
        children_at_most(self, 0, limit - 1)
    }

    /// The text that shows the whole tree: a newline, then the kind of each node on a
    /// line of its own, in depth-first order, each child four spaces deeper than its
    /// parent and followed by an empty line. A tree taller than 63 levels would overflow
    /// the indentation count, so such trees are left out.
    pub fn pretty(&self) -> (res: String)
        requires
            tree_height(self@) <= 63,
        ensures
            res@ == "\n"@ + pretty_text(self@, 0),
    {
        let mut s = "\n".to_owned();
        s.append(pretty_lines(self, 0).as_str());
        s
    }
}

} // verus!
