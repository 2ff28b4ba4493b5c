//! The syntax tree and the C types, with their mathematical models.

use vstd::prelude::*;
use crate::token::TokenType;

verus! {

/// The kind of a C type.
#[derive(Debug, PartialEq, Eq)]
pub enum Ctype {
    Int,
    Char,
    Void,
    /// Pointer to the given type.
    Ptr(Box<Type>),
    /// Array of the given element type and length.
    Ary(Box<Type>, usize),
    /// Struct with the given members, each a variable definition.
    Struct(Vec<Node>),
}

/// A C type with its size and alignment in bytes.
#[derive(Debug, PartialEq, Eq)]
pub struct Type {
    pub ty: Ctype,
    pub size: usize,
    pub align: usize,
}

/// Where a variable lives.
#[derive(Debug, PartialEq, Eq)]
pub enum Scope {
    /// A local variable or struct member, with its byte offset. The parser leaves the
    /// offset of a local variable at 0; struct layout assigns the offsets of members.
    Local(usize),
    /// A global variable: the label of its data, its size in bytes, and whether it is
    /// only declared here and defined elsewhere.
    Global(String, usize, bool),
}

/// The syntactic construct that a node stands for.
#[derive(Debug, PartialEq, Eq)]
pub enum NodeType {
    /// Number literal.
    Num(i32),
    /// String literal: contents and length.
    Str(String, usize),
    /// Identifier.
    Ident(String),
    /// Variable definition: name, initializer, storage.
    Vardef(String, Option<Box<Node>>, Scope),
    /// Reference to a local variable.
    Lvar(Scope),
    /// Reference to a global variable: name, data, length.
    Gvar(String, String, usize),
    /// Binary operation tagged by its operator token: left-hand side, right-hand side.
    BinOp(TokenType, Box<Node>, Box<Node>),
    /// `if (cond) then else els`
    If(Box<Node>, Box<Node>, Option<Box<Node>>),
    /// `cond ? then : els`
    Ternary(Box<Node>, Box<Node>, Box<Node>),
    /// `for (init; cond; inc) body`
    For(Box<Node>, Box<Node>, Box<Node>, Box<Node>),
    /// `do body while (cond);`
    DoWhile(Box<Node>, Box<Node>),
    /// `&expr`
    Addr(Box<Node>),
    /// `*expr`
    Deref(Box<Node>),
    /// Struct member access: expression, member name, byte offset of the member.
    Dot(Box<Node>, String, usize),
    /// `!expr`
    Exclamation(Box<Node>),
    /// `-expr`
    Neg(Box<Node>),
    /// `return expr;`
    Return(Box<Node>),
    /// `sizeof expr`
    Sizeof(Box<Node>),
    /// `_Alignof expr`
    Alignof(Box<Node>),
    /// Function call: name and arguments.
    Call(String, Vec<Node>),
    /// Function definition: name, parameters, body, size of the stack frame.
    Func(String, Vec<Node>, Box<Node>, usize),
    /// Compound statement.
    CompStmt(Vec<Node>),
    /// A list of statements standing where one statement is expected; an array
    /// definition with an initializer list becomes one.
    VecStmt(Vec<Node>),
    /// Expression statement.
    ExprStmt(Box<Node>),
    /// Statement expression: a compound statement used as an expression.
    StmtExpr(Box<Node>),
    /// Empty statement.
    Null,
}

/// A node of the syntax tree: a construct and its C type.
#[derive(Debug, PartialEq, Eq)]
pub struct Node {
    pub op: NodeType,
    pub ty: Box<Type>,
}

/// Mathematical model of a [`Ctype`].
pub enum CtypeView {
    Int,
    Char,
    Void,
    Ptr(Box<TypeView>),
    Ary(Box<TypeView>, usize),
    Struct(Seq<NodeView>),
}

/// Mathematical model of a [`Type`].
pub struct TypeView {
    pub ty: CtypeView,
    pub size: usize,
    pub align: usize,
}

/// Mathematical model of a [`Scope`].
pub enum ScopeView {
    Local(usize),
    Global(Seq<char>, usize, bool),
}

/// Mathematical model of a [`NodeType`]: strings are sequences of characters, lists of
/// nodes are sequences of node models.
pub enum NodeTypeView {
    Num(i32),
    Str(Seq<char>, usize),
    Ident(Seq<char>),
    Vardef(Seq<char>, Option<Box<NodeView>>, ScopeView),
    Lvar(ScopeView),
    Gvar(Seq<char>, Seq<char>, usize),
    BinOp(TokenType, Box<NodeView>, Box<NodeView>),
    If(Box<NodeView>, Box<NodeView>, Option<Box<NodeView>>),
    Ternary(Box<NodeView>, Box<NodeView>, Box<NodeView>),
    For(Box<NodeView>, Box<NodeView>, Box<NodeView>, Box<NodeView>),
    DoWhile(Box<NodeView>, Box<NodeView>),
    Addr(Box<NodeView>),
    Deref(Box<NodeView>),
    Dot(Box<NodeView>, Seq<char>, usize),
    Exclamation(Box<NodeView>),
    Neg(Box<NodeView>),
    Return(Box<NodeView>),
    Sizeof(Box<NodeView>),
    Alignof(Box<NodeView>),
    Call(Seq<char>, Seq<NodeView>),
    Func(Seq<char>, Seq<NodeView>, Box<NodeView>, usize),
    CompStmt(Seq<NodeView>),
    VecStmt(Seq<NodeView>),
    ExprStmt(Box<NodeView>),
    StmtExpr(Box<NodeView>),
    Null,
}

/// Mathematical model of a [`Node`].
pub struct NodeView {
    pub op: NodeTypeView,
    pub ty: TypeView,
}

/// The model of a node.
#[verifier::opaque]
pub open spec fn node_view(n: Node) -> NodeView
    decreases n,
{
    NodeView { op: op_view(n.op), ty: type_view(*n.ty) }
}

/// The models of a list of nodes, in order.
#[verifier::opaque]
pub open spec fn nodes_view(ns: Seq<Node>) -> Seq<NodeView>
    decreases ns,
{
    Seq::new(
        ns.len(),
        |i: int|
            if 0 <= i < ns.len() {
                node_view(ns[i])
            } else {
                arbitrary()
            },
    )
}

/// The model of an optional node.
#[verifier::opaque]
pub open spec fn opt_view(n: Option<Box<Node>>) -> Option<Box<NodeView>>
    decreases n,
{
    match n {
        Some(e) => Some(Box::new(node_view(*e))),
        None => None,
    }
}

/// The model of a construct.
#[verifier::opaque]
pub open spec fn op_view(op: NodeType) -> NodeTypeView
    decreases op,
{
    match op {
        NodeType::Num(v) => NodeTypeView::Num(v),
        NodeType::Str(s, n) => NodeTypeView::Str(s@, n),
        NodeType::Ident(s) => NodeTypeView::Ident(s@),
        NodeType::Vardef(s, init, sc) => NodeTypeView::Vardef(s@, opt_view(init), sc@),
        NodeType::Lvar(sc) => NodeTypeView::Lvar(sc@),
        NodeType::Gvar(a, b, n) => NodeTypeView::Gvar(a@, b@, n),
        NodeType::BinOp(t, l, r) => NodeTypeView::BinOp(
            t,
            Box::new(node_view(*l)),
            Box::new(node_view(*r)),
        ),
        NodeType::If(c, t, e) => NodeTypeView::If(
            Box::new(node_view(*c)),
            Box::new(node_view(*t)),
            opt_view(e),
        ),
        NodeType::Ternary(c, t, e) => NodeTypeView::Ternary(
            Box::new(node_view(*c)),
            Box::new(node_view(*t)),
            Box::new(node_view(*e)),
        ),
        NodeType::For(i, c, s, b) => NodeTypeView::For(
            Box::new(node_view(*i)),
            Box::new(node_view(*c)),
            Box::new(node_view(*s)),
            Box::new(node_view(*b)),
        ),
        NodeType::DoWhile(b, c) => NodeTypeView::DoWhile(
            Box::new(node_view(*b)),
            Box::new(node_view(*c)),
        ),
        NodeType::Addr(e) => NodeTypeView::Addr(Box::new(node_view(*e))),
        NodeType::Deref(e) => NodeTypeView::Deref(Box::new(node_view(*e))),
        NodeType::Dot(e, s, n) => NodeTypeView::Dot(Box::new(node_view(*e)), s@, n),
        NodeType::Exclamation(e) => NodeTypeView::Exclamation(Box::new(node_view(*e))),
        NodeType::Neg(e) => NodeTypeView::Neg(Box::new(node_view(*e))),
        NodeType::Return(e) => NodeTypeView::Return(Box::new(node_view(*e))),
        NodeType::Sizeof(e) => NodeTypeView::Sizeof(Box::new(node_view(*e))),
        NodeType::Alignof(e) => NodeTypeView::Alignof(Box::new(node_view(*e))),
        NodeType::Call(s, args) => NodeTypeView::Call(s@, nodes_view(args@)),
        NodeType::Func(s, args, b, n) => NodeTypeView::Func(
            s@,
            nodes_view(args@),
            Box::new(node_view(*b)),
            n,
        ),
        NodeType::CompStmt(ss) => NodeTypeView::CompStmt(nodes_view(ss@)),
        NodeType::VecStmt(ss) => NodeTypeView::VecStmt(nodes_view(ss@)),
        NodeType::ExprStmt(e) => NodeTypeView::ExprStmt(Box::new(node_view(*e))),
        NodeType::StmtExpr(e) => NodeTypeView::StmtExpr(Box::new(node_view(*e))),
        NodeType::Null => NodeTypeView::Null,
    }
}

/// The model of a type.
#[verifier::opaque]
pub open spec fn type_view(t: Type) -> TypeView
    decreases t,
{
    TypeView { ty: ctype_view(t.ty), size: t.size, align: t.align }
}

/// The model of a kind of type.
#[verifier::opaque]
pub open spec fn ctype_view(c: Ctype) -> CtypeView
    decreases c,
{
    match c {
        Ctype::Int => CtypeView::Int,
        Ctype::Char => CtypeView::Char,
        Ctype::Void => CtypeView::Void,
        Ctype::Ptr(t) => CtypeView::Ptr(Box::new(type_view(*t))),
        Ctype::Ary(t, n) => CtypeView::Ary(Box::new(type_view(*t)), n),
        Ctype::Struct(ms) => CtypeView::Struct(nodes_view(ms@)),
    }
}

impl View for Scope {
    type V = ScopeView;

    open spec fn view(&self) -> ScopeView {
        match *self {
            Scope::Local(off) => ScopeView::Local(off),
            Scope::Global(label, size, is_extern) => ScopeView::Global(label@, size, is_extern),
        }
    }
}

impl View for Node {
    type V = NodeView;

    open spec fn view(&self) -> NodeView {
        node_view(*self)
    }
}

impl View for NodeType {
    type V = NodeTypeView;

    open spec fn view(&self) -> NodeTypeView {
        op_view(*self)
    }
}

impl View for Type {
    type V = TypeView;

    open spec fn view(&self) -> TypeView {
        type_view(*self)
    }
}

impl View for Ctype {
    type V = CtypeView;

    open spec fn view(&self) -> CtypeView {
        ctype_view(*self)
    }
}

/// The model of a list with one more node is the model of the list with one more model.
pub proof fn lemma_nodes_view_push(ns: Seq<Node>, n: Node)
    ensures
        nodes_view(ns.push(n)) == nodes_view(ns).push(n@),
{
    reveal_with_fuel(node_view, 1);
    reveal_with_fuel(nodes_view, 1);
    reveal_with_fuel(opt_view, 1);
    reveal_with_fuel(op_view, 1);
    reveal_with_fuel(type_view, 1);
    reveal_with_fuel(ctype_view, 1);
    assert(nodes_view(ns.push(n)) =~= nodes_view(ns).push(n@));
}

/// The model of the empty list is the empty sequence.
pub proof fn lemma_nodes_view_empty()
    ensures
        nodes_view(Seq::<Node>::empty()) == Seq::<NodeView>::empty(),
{
    reveal_with_fuel(node_view, 1);
    reveal_with_fuel(nodes_view, 1);
    reveal_with_fuel(opt_view, 1);
    reveal_with_fuel(op_view, 1);
    reveal_with_fuel(type_view, 1);
    reveal_with_fuel(ctype_view, 1);
    assert(nodes_view(Seq::<Node>::empty()) =~= Seq::<NodeView>::empty());
}

impl TypeView {
    /// The placeholder that a node carries until its type is known: `void`, of size and
    /// alignment 0.
    pub open spec fn placeholder() -> TypeView {
        TypeView { ty: CtypeView::Void, size: 0, align: 0 }
    }
}

impl NodeView {
    /// The node of the given construct with the placeholder type.
    pub open spec fn new(op: NodeTypeView) -> NodeView {
        NodeView { op, ty: TypeView::placeholder() }
    }

    /// The binary operation `lhs ty rhs` with the placeholder type.
    pub open spec fn binop(ty: TokenType, lhs: NodeView, rhs: NodeView) -> NodeView {
        NodeView::new(NodeTypeView::BinOp(ty, Box::new(lhs), Box::new(rhs)))
    }
}

impl Default for Type {
    /// The placeholder type.
    fn default() -> (t: Type)
        ensures
            t@ == TypeView::placeholder(),
    {
        proof {
            reveal_with_fuel(node_view, 1);
            reveal_with_fuel(nodes_view, 1);
            reveal_with_fuel(opt_view, 1);
            reveal_with_fuel(op_view, 1);
            reveal_with_fuel(type_view, 1);
            reveal_with_fuel(ctype_view, 1);
        }
        Type { ty: Ctype::Void, size: 0, align: 0 }
    }
}

impl Clone for Scope {
    fn clone(&self) -> (r: Scope)
        ensures
            r@ == self@,
    {
        match self {
            Scope::Local(off) => Scope::Local(*off),
            Scope::Global(label, size, is_extern) => Scope::Global(
                label.clone(),
                *size,
                *is_extern,
            ),
        }
    }
}

/// A deep copy of a list of nodes.
pub fn clone_nodes(v: &Vec<Node>) -> (r: Vec<Node>)
    ensures
        nodes_view(r@) == nodes_view(v@),
    decreases v,
{
    proof {
        reveal_with_fuel(node_view, 1);
        reveal_with_fuel(nodes_view, 1);
        reveal_with_fuel(opt_view, 1);
        reveal_with_fuel(op_view, 1);
        reveal_with_fuel(type_view, 1);
        reveal_with_fuel(ctype_view, 1);
    }
    let mut out: Vec<Node> = Vec::new();
    let mut i: usize = 0;
    while i < v.len()
        invariant
            i <= v.len(),
            out@.len() == i,
            forall|j: int| 0 <= j < i ==> node_view(out@[j]) == node_view(v@[j]),
        decreases v.len() - i,
    {
        proof {
            broadcast use vstd::std_specs::vec::axiom_vec_decreases_to_view;

            assert(decreases_to!(v => v@));
            assert(decreases_to!(v@ => v@[i as int]));
        }
        let n = v[i].clone();
        out.push(n);
        i += 1;
    }
    assert(nodes_view(out@) =~= nodes_view(v@));
    out
}

/// A deep copy of an optional node.
fn clone_opt(n: &Option<Box<Node>>) -> (r: Option<Box<Node>>)
    ensures
        opt_view(r) == opt_view(*n),
    decreases n,
{
    proof {
        reveal_with_fuel(node_view, 1);
        reveal_with_fuel(nodes_view, 1);
        reveal_with_fuel(opt_view, 1);
        reveal_with_fuel(op_view, 1);
        reveal_with_fuel(type_view, 1);
        reveal_with_fuel(ctype_view, 1);
    }
    match n {
        Some(e) => Some(Box::new((&**e).clone())),
        None => None,
    }
}

impl Clone for Type {
    fn clone(&self) -> (r: Type)
        ensures
            r@ == self@,
        decreases self,
    {
        proof {
            reveal_with_fuel(node_view, 1);
            reveal_with_fuel(nodes_view, 1);
            reveal_with_fuel(opt_view, 1);
            reveal_with_fuel(op_view, 1);
            reveal_with_fuel(type_view, 1);
            reveal_with_fuel(ctype_view, 1);
        }
        let ty = match &self.ty {
            Ctype::Int => Ctype::Int,
            Ctype::Char => Ctype::Char,
            Ctype::Void => Ctype::Void,
            Ctype::Ptr(t) => Ctype::Ptr(Box::new((&**t).clone())),
            Ctype::Ary(t, n) => Ctype::Ary(Box::new((&**t).clone()), *n),
            Ctype::Struct(ms) => {
                proof {
                    assert(decreases_to!(self => self.ty));
                    assert(decreases_to!(self.ty => self.ty->Struct_0));
                }
                Ctype::Struct(clone_nodes(ms))
            },
        };
        Type { ty, size: self.size, align: self.align }
    }
}

impl Clone for Node {
    fn clone(&self) -> (r: Node)
        ensures
            r@ == self@,
        decreases self,
    {
        proof {
            reveal_with_fuel(node_view, 1);
            reveal_with_fuel(nodes_view, 1);
            reveal_with_fuel(opt_view, 1);
            reveal_with_fuel(op_view, 1);
            reveal_with_fuel(type_view, 1);
            reveal_with_fuel(ctype_view, 1);
        }
        let op = match &self.op {
            NodeType::Num(v) => NodeType::Num(*v),
            NodeType::Str(s, n) => NodeType::Str(s.clone(), *n),
            NodeType::Ident(s) => NodeType::Ident(s.clone()),
            NodeType::Vardef(s, init, sc) => {
                proof {
                    assert(decreases_to!(self => self.op));
                    assert(decreases_to!(self.op => self.op->Vardef_1));
                }
                NodeType::Vardef(s.clone(), clone_opt(init), sc.clone())
            },
            NodeType::Lvar(sc) => NodeType::Lvar(sc.clone()),
            NodeType::Gvar(a, b, n) => NodeType::Gvar(a.clone(), b.clone(), *n),
            NodeType::BinOp(t, l, r) => NodeType::BinOp(
                t.clone(),
                Box::new((&**l).clone()),
                Box::new((&**r).clone()),
            ),
            NodeType::If(c, t, e) => {
                proof {
                    assert(decreases_to!(self => self.op));
                    assert(decreases_to!(self.op => self.op->If_2));
                }
                NodeType::If(
                    Box::new((&**c).clone()),
                    Box::new((&**t).clone()),
                    clone_opt(e),
                )
            },
            NodeType::Ternary(c, t, e) => NodeType::Ternary(
                Box::new((&**c).clone()),
                Box::new((&**t).clone()),
                Box::new((&**e).clone()),
            ),
            NodeType::For(i, c, s, b) => NodeType::For(
                Box::new((&**i).clone()),
                Box::new((&**c).clone()),
                Box::new((&**s).clone()),
                Box::new((&**b).clone()),
            ),
            NodeType::DoWhile(b, c) => NodeType::DoWhile(
                Box::new((&**b).clone()),
                Box::new((&**c).clone()),
            ),
            NodeType::Addr(e) => NodeType::Addr(Box::new((&**e).clone())),
            NodeType::Deref(e) => NodeType::Deref(Box::new((&**e).clone())),
            NodeType::Dot(e, s, n) => NodeType::Dot(Box::new((&**e).clone()), s.clone(), *n),
            NodeType::Exclamation(e) => NodeType::Exclamation(Box::new((&**e).clone())),
            NodeType::Neg(e) => NodeType::Neg(Box::new((&**e).clone())),
            NodeType::Return(e) => NodeType::Return(Box::new((&**e).clone())),
            NodeType::Sizeof(e) => NodeType::Sizeof(Box::new((&**e).clone())),
            NodeType::Alignof(e) => NodeType::Alignof(Box::new((&**e).clone())),
            NodeType::Call(s, args) => {
                proof {
                    assert(decreases_to!(self => self.op));
                    assert(decreases_to!(self.op => self.op->Call_1));
                }
                NodeType::Call(s.clone(), clone_nodes(args))
            },
            NodeType::Func(s, args, b, n) => {
                proof {
                    assert(decreases_to!(self => self.op));
                    assert(decreases_to!(self.op => self.op->Func_1));
                }
                NodeType::Func(s.clone(), clone_nodes(args), Box::new((&**b).clone()), *n)
            },
            NodeType::CompStmt(ss) => {
                proof {
                    assert(decreases_to!(self => self.op));
                    assert(decreases_to!(self.op => self.op->CompStmt_0));
                }
                NodeType::CompStmt(clone_nodes(ss))
            },
            NodeType::VecStmt(ss) => {
                proof {
                    assert(decreases_to!(self => self.op));
                    assert(decreases_to!(self.op => self.op->VecStmt_0));
                }
                NodeType::VecStmt(clone_nodes(ss))
            },
            NodeType::ExprStmt(e) => NodeType::ExprStmt(Box::new((&**e).clone())),
            NodeType::StmtExpr(e) => NodeType::StmtExpr(Box::new((&**e).clone())),
            NodeType::Null => NodeType::Null,
        };
        Node { op, ty: Box::new((&*self.ty).clone()) }
    }
}

impl Node {
    /// The node of the given construct, with the placeholder type.
    pub fn new(op: NodeType) -> (n: Node)
        ensures
            n@ == NodeView::new(op@),
    {
        proof {
            reveal_with_fuel(node_view, 1);
            reveal_with_fuel(nodes_view, 1);
            reveal_with_fuel(opt_view, 1);
            reveal_with_fuel(op_view, 1);
            reveal_with_fuel(type_view, 1);
            reveal_with_fuel(ctype_view, 1);
        }
        Node { op, ty: Box::new(Type::default()) }
    }

    /// The number literal `val`, with the placeholder type.
    pub fn int_ty(val: i32) -> (n: Node)
        ensures
            n@ == NodeView::new(NodeTypeView::Num(val)),
    {
        proof {
            reveal_with_fuel(node_view, 1);
            reveal_with_fuel(nodes_view, 1);
            reveal_with_fuel(opt_view, 1);
            reveal_with_fuel(op_view, 1);
            reveal_with_fuel(type_view, 1);
            reveal_with_fuel(ctype_view, 1);
        }
        Node::new(NodeType::Num(val))
    }

    /// The binary operation `lhs ty rhs`, with the placeholder type.
    pub fn new_binop(ty: TokenType, lhs: Node, rhs: Node) -> (n: Node)
        ensures
            n@ == NodeView::binop(ty, lhs@, rhs@),
    {
        proof {
            reveal_with_fuel(node_view, 1);
            reveal_with_fuel(nodes_view, 1);
            reveal_with_fuel(opt_view, 1);
            reveal_with_fuel(op_view, 1);
            reveal_with_fuel(type_view, 1);
            reveal_with_fuel(ctype_view, 1);
        }
        Node::new(NodeType::BinOp(ty, Box::new(lhs), Box::new(rhs)))
    }

    /// The node that wraps `inner` in one of the one-operand constructs.
    pub fn new_expr(kind: UnaryKind, inner: Node) -> (n: Node)
        ensures
            n@ == NodeView::new(kind.wrap(inner@)),
    {
        proof {
            reveal_with_fuel(node_view, 1);
            reveal_with_fuel(nodes_view, 1);
            reveal_with_fuel(opt_view, 1);
            reveal_with_fuel(op_view, 1);
            reveal_with_fuel(type_view, 1);
            reveal_with_fuel(ctype_view, 1);
        }
        let b = Box::new(inner);
        Node::new(
            match kind {
                UnaryKind::Addr => NodeType::Addr(b),
                UnaryKind::Deref => NodeType::Deref(b),
                UnaryKind::Exclamation => NodeType::Exclamation(b),
                UnaryKind::Neg => NodeType::Neg(b),
                UnaryKind::Return => NodeType::Return(b),
                UnaryKind::Sizeof => NodeType::Sizeof(b),
                UnaryKind::Alignof => NodeType::Alignof(b),
                UnaryKind::ExprStmt => NodeType::ExprStmt(b),
                UnaryKind::StmtExpr => NodeType::StmtExpr(b),
            },
        )
    }
}

/// What the model of a type says of its size and alignment, and of whether it is
/// `void`.
pub proof fn lemma_type_view(t: Type)
    ensures
        t@.size == t.size,
        t@.align == t.align,
        t@.ty is Void <==> t.ty is Void,
{
    reveal_with_fuel(node_view, 1);
    reveal_with_fuel(nodes_view, 1);
    reveal_with_fuel(opt_view, 1);
    reveal_with_fuel(op_view, 1);
    reveal_with_fuel(type_view, 1);
    reveal_with_fuel(ctype_view, 1);
}

/// The model of a node is the model of its construct with the model of its type.
pub proof fn lemma_node_view(n: Node)
    ensures
        n@ == (NodeView { op: n.op@, ty: (*n.ty)@ }),
{
    reveal_with_fuel(node_view, 1);
    reveal_with_fuel(nodes_view, 1);
    reveal_with_fuel(opt_view, 1);
    reveal_with_fuel(op_view, 1);
    reveal_with_fuel(type_view, 1);
    reveal_with_fuel(ctype_view, 1);
}

/// The model of a list has one model for each node.
pub proof fn lemma_nodes_view_len(ns: Seq<Node>)
    ensures
        nodes_view(ns).len() == ns.len(),
{
    reveal_with_fuel(nodes_view, 1);
}

/// The model of a list holds the models of its nodes, in order.
pub proof fn lemma_nodes_view_index(ns: Seq<Node>, i: int)
    requires
        0 <= i < ns.len(),
    ensures
        nodes_view(ns)[i] == ns[i]@,
{
    reveal_with_fuel(nodes_view, 1);
    reveal_with_fuel(node_view, 1);
}

impl Node {
    /// The node of the given construct with the given type.
    pub fn typed(op: NodeType, ty: Type) -> (n: Node)
        ensures
            n@ == (NodeView { op: op@, ty: ty@ }),
    {
        proof {
            reveal_with_fuel(node_view, 1);
            reveal_with_fuel(nodes_view, 1);
            reveal_with_fuel(opt_view, 1);
            reveal_with_fuel(op_view, 1);
            reveal_with_fuel(type_view, 1);
            reveal_with_fuel(ctype_view, 1);
        }
        Node { op, ty: Box::new(ty) }
    }

    /// The number literal `val` of type `int`.
    pub fn num(val: i32) -> (n: Node)
        ensures
            n@ == (NodeView { op: NodeTypeView::Num(val), ty: TypeView::new(CtypeView::Int, 4) }),
    {
        proof {
            reveal_with_fuel(node_view, 1);
            reveal_with_fuel(nodes_view, 1);
            reveal_with_fuel(opt_view, 1);
            reveal_with_fuel(op_view, 1);
            reveal_with_fuel(type_view, 1);
            reveal_with_fuel(ctype_view, 1);
        }
        let ty = Type { ty: Ctype::Int, size: 4, align: 4 };
        assert(ty.ty@ == CtypeView::Int);
        assert(ty@ == TypeView::new(CtypeView::Int, 4));
        let op = NodeType::Num(val);
        assert(op@ == NodeTypeView::Num(val));
        Node { op, ty: Box::new(ty) }
    }

    /// The string literal with the given contents and length, of type `ty`.
    pub fn string(s: String, len: usize, ty: Type) -> (n: Node)
        ensures
            n@ == (NodeView { op: NodeTypeView::Str(s@, len), ty: ty@ }),
    {
        proof {
            reveal_with_fuel(node_view, 1);
            reveal_with_fuel(nodes_view, 1);
            reveal_with_fuel(opt_view, 1);
            reveal_with_fuel(op_view, 1);
            reveal_with_fuel(type_view, 1);
            reveal_with_fuel(ctype_view, 1);
        }
        Node { op: NodeType::Str(s, len), ty: Box::new(ty) }
    }

    /// The identifier `name`.
    pub fn ident(name: String) -> (n: Node)
        ensures
            n@ == NodeView::new(NodeTypeView::Ident(name@)),
    {
        proof {
            reveal_with_fuel(node_view, 1);
            reveal_with_fuel(nodes_view, 1);
            reveal_with_fuel(opt_view, 1);
            reveal_with_fuel(op_view, 1);
            reveal_with_fuel(type_view, 1);
            reveal_with_fuel(ctype_view, 1);
        }
        Node::new(NodeType::Ident(name))
    }

    /// The call of `name` with the given arguments.
    pub fn call(name: String, args: Vec<Node>) -> (n: Node)
        ensures
            n@ == NodeView::new(NodeTypeView::Call(name@, nodes_view(args@))),
    {
        proof {
            reveal_with_fuel(node_view, 1);
            reveal_with_fuel(nodes_view, 1);
            reveal_with_fuel(opt_view, 1);
            reveal_with_fuel(op_view, 1);
            reveal_with_fuel(type_view, 1);
            reveal_with_fuel(ctype_view, 1);
        }
        Node::new(NodeType::Call(name, args))
    }

    /// The access to member `name` of `expr`; the offset of the member is left at 0.
    pub fn dot(expr: Node, name: String) -> (n: Node)
        ensures
            n@ == NodeView::new(NodeTypeView::Dot(Box::new(expr@), name@, 0)),
    {
        proof {
            reveal_with_fuel(node_view, 1);
            reveal_with_fuel(nodes_view, 1);
            reveal_with_fuel(opt_view, 1);
            reveal_with_fuel(op_view, 1);
            reveal_with_fuel(type_view, 1);
            reveal_with_fuel(ctype_view, 1);
        }
        Node::new(NodeType::Dot(Box::new(expr), name, 0))
    }

    /// `cond ? then : els`
    pub fn ternary(cond: Node, then: Node, els: Node) -> (n: Node)
        ensures
            n@ == NodeView::new(
                NodeTypeView::Ternary(Box::new(cond@), Box::new(then@), Box::new(els@)),
            ),
    {
        proof {
            reveal_with_fuel(node_view, 1);
            reveal_with_fuel(nodes_view, 1);
            reveal_with_fuel(opt_view, 1);
            reveal_with_fuel(op_view, 1);
            reveal_with_fuel(type_view, 1);
            reveal_with_fuel(ctype_view, 1);
        }
        Node::new(NodeType::Ternary(Box::new(cond), Box::new(then), Box::new(els)))
    }

    /// `if (cond) then`, with `else els` where there is one.
    pub fn if_else(cond: Node, then: Node, els: Option<Node>) -> (n: Node)
        ensures
            n@ == NodeView::new(
                NodeTypeView::If(
                    Box::new(cond@),
                    Box::new(then@),
                    match els {
                        Some(e) => Some(Box::new(e@)),
                        None => None,
                    },
                ),
            ),
    {
        proof {
            reveal_with_fuel(node_view, 1);
            reveal_with_fuel(nodes_view, 1);
            reveal_with_fuel(opt_view, 1);
            reveal_with_fuel(op_view, 1);
            reveal_with_fuel(type_view, 1);
            reveal_with_fuel(ctype_view, 1);
        }
        let boxed = match els {
            Some(e) => Some(Box::new(e)),
            None => None,
        };
        assert(opt_view(boxed) == match els {
            Some(e) => Some(Box::new(e@)),
            None => None,
        });
        Node::new(NodeType::If(Box::new(cond), Box::new(then), boxed))
    }

    /// `for (init; cond; inc) body`
    pub fn for_loop(init: Node, cond: Node, inc: Node, body: Node) -> (n: Node)
        ensures
            n@ == NodeView::new(
                NodeTypeView::For(
                    Box::new(init@),
                    Box::new(cond@),
                    Box::new(inc@),
                    Box::new(body@),
                ),
            ),
    {
        proof {
            reveal_with_fuel(node_view, 1);
            reveal_with_fuel(nodes_view, 1);
            reveal_with_fuel(opt_view, 1);
            reveal_with_fuel(op_view, 1);
            reveal_with_fuel(type_view, 1);
            reveal_with_fuel(ctype_view, 1);
        }
        Node::new(NodeType::For(Box::new(init), Box::new(cond), Box::new(inc), Box::new(body)))
    }

    /// `do body while (cond);`
    pub fn do_while(body: Node, cond: Node) -> (n: Node)
        ensures
            n@ == NodeView::new(NodeTypeView::DoWhile(Box::new(body@), Box::new(cond@))),
    {
        proof {
            reveal_with_fuel(node_view, 1);
            reveal_with_fuel(nodes_view, 1);
            reveal_with_fuel(opt_view, 1);
            reveal_with_fuel(op_view, 1);
            reveal_with_fuel(type_view, 1);
            reveal_with_fuel(ctype_view, 1);
        }
        Node::new(NodeType::DoWhile(Box::new(body), Box::new(cond)))
    }

    /// The compound statement of the given statements.
    pub fn comp_stmt(stmts: Vec<Node>) -> (n: Node)
        ensures
            n@ == NodeView::new(NodeTypeView::CompStmt(nodes_view(stmts@))),
    {
        proof {
            reveal_with_fuel(node_view, 1);
            reveal_with_fuel(nodes_view, 1);
            reveal_with_fuel(opt_view, 1);
            reveal_with_fuel(op_view, 1);
            reveal_with_fuel(type_view, 1);
            reveal_with_fuel(ctype_view, 1);
        }
        Node::new(NodeType::CompStmt(stmts))
    }

    /// The list of the given statements, standing for one statement.
    pub fn vec_stmt(stmts: Vec<Node>) -> (n: Node)
        ensures
            n@ == NodeView::new(NodeTypeView::VecStmt(nodes_view(stmts@))),
    {
        proof {
            reveal_with_fuel(node_view, 1);
            reveal_with_fuel(nodes_view, 1);
            reveal_with_fuel(opt_view, 1);
            reveal_with_fuel(op_view, 1);
            reveal_with_fuel(type_view, 1);
            reveal_with_fuel(ctype_view, 1);
        }
        Node::new(NodeType::VecStmt(stmts))
    }

    /// The name and type of a variable definition; `None` for every other node.
    pub fn into_vardef(self) -> (r: Option<(String, Type)>)
        ensures
            match r {
                Some((name, ty)) => self@.op matches NodeTypeView::Vardef(n, _, _) && n == name@
                    && ty@ == self@.ty,
                None => !(self@.op is Vardef),
            },
    {
        proof {
            reveal_with_fuel(node_view, 1);
            reveal_with_fuel(nodes_view, 1);
            reveal_with_fuel(opt_view, 1);
            reveal_with_fuel(op_view, 1);
            reveal_with_fuel(type_view, 1);
            reveal_with_fuel(ctype_view, 1);
        }
        match self.op {
            NodeType::Vardef(name, _, _) => Some((name, *self.ty)),
            _ => None,
        }
    }

    /// Whether the node is a number literal, and which.
    pub fn as_num(&self) -> (r: Option<i32>)
        ensures
            match r {
                Some(n) => self@.op == NodeTypeView::Num(n),
                None => !(self@.op is Num),
            },
    {
        proof {
            reveal_with_fuel(node_view, 1);
            reveal_with_fuel(nodes_view, 1);
            reveal_with_fuel(opt_view, 1);
            reveal_with_fuel(op_view, 1);
            reveal_with_fuel(type_view, 1);
            reveal_with_fuel(ctype_view, 1);
        }
        match &self.op {
            NodeType::Num(n) => Some(*n),
            _ => None,
        }
    }

    /// The empty statement.
    pub fn null() -> (n: Node)
        ensures
            n@ == NodeView::new(NodeTypeView::Null),
    {
        proof {
            reveal_with_fuel(node_view, 1);
            reveal_with_fuel(nodes_view, 1);
            reveal_with_fuel(opt_view, 1);
            reveal_with_fuel(op_view, 1);
            reveal_with_fuel(type_view, 1);
            reveal_with_fuel(ctype_view, 1);
        }
        Node::new(NodeType::Null)
    }

    /// The definition of the function `name`; the size of its stack frame is left at 0.
    pub fn func(name: String, args: Vec<Node>, body: Node) -> (n: Node)
        ensures
            n@ == NodeView::new(
                NodeTypeView::Func(name@, nodes_view(args@), Box::new(body@), 0),
            ),
    {
        proof {
            reveal_with_fuel(node_view, 1);
            reveal_with_fuel(nodes_view, 1);
            reveal_with_fuel(opt_view, 1);
            reveal_with_fuel(op_view, 1);
            reveal_with_fuel(type_view, 1);
            reveal_with_fuel(ctype_view, 1);
        }
        Node::new(NodeType::Func(name, args, Box::new(body), 0))
    }

    /// The definition of the variable `name` of type `ty`, with its initializer where
    /// there is one.
    pub fn vardef(name: String, init: Option<Node>, scope: Scope, ty: Type) -> (n: Node)
        ensures
            n@ == (NodeView {
                op: NodeTypeView::Vardef(
                    name@,
                    match init {
                        Some(e) => Some(Box::new(e@)),
                        None => None,
                    },
                    scope@,
                ),
                ty: ty@,
            }),
    {
        proof {
            reveal_with_fuel(node_view, 1);
            reveal_with_fuel(nodes_view, 1);
            reveal_with_fuel(opt_view, 1);
            reveal_with_fuel(op_view, 1);
            reveal_with_fuel(type_view, 1);
            reveal_with_fuel(ctype_view, 1);
        }
        let boxed = match init {
            Some(e) => Some(Box::new(e)),
            None => None,
        };
        assert(opt_view(boxed) == match init {
            Some(e) => Some(Box::new(e@)),
            None => None,
        });
        let op = NodeType::Vardef(name, boxed, scope);
        assert(op@ == NodeTypeView::Vardef(name@, opt_view(boxed), scope@));
        Node { op, ty: Box::new(ty) }
    }
}

/// The constructs that hold exactly one operand and nothing else.
#[derive(Debug, Clone, Copy, PartialEq, Eq, Structural)]
pub enum UnaryKind {
    Addr,
    Deref,
    Exclamation,
    Neg,
    Return,
    Sizeof,
    Alignof,
    ExprStmt,
    StmtExpr,
}

impl UnaryKind {
    /// The construct of this kind around `inner`.
    pub open spec fn wrap(self, inner: NodeView) -> NodeTypeView {
        match self {
            UnaryKind::Addr => NodeTypeView::Addr(Box::new(inner)),
            UnaryKind::Deref => NodeTypeView::Deref(Box::new(inner)),
            UnaryKind::Exclamation => NodeTypeView::Exclamation(Box::new(inner)),
            UnaryKind::Neg => NodeTypeView::Neg(Box::new(inner)),
            UnaryKind::Return => NodeTypeView::Return(Box::new(inner)),
            UnaryKind::Sizeof => NodeTypeView::Sizeof(Box::new(inner)),
            UnaryKind::Alignof => NodeTypeView::Alignof(Box::new(inner)),
            UnaryKind::ExprStmt => NodeTypeView::ExprStmt(Box::new(inner)),
            UnaryKind::StmtExpr => NodeTypeView::StmtExpr(Box::new(inner)),
        }
    }
}

} // verus!
