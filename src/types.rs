use vstd::prelude::*;

verus! {

/// The types of the language: `char`, `int` (8 bytes), pointers and arrays.
#[derive(Debug, PartialEq, Eq)]
pub enum Type {
    Char,
    Int,
    Pointer(Box<Type>),
    Array(Box<Type>, u32),
}

impl Type {
    /// Footprint of a value of this type, in bytes.
    pub open spec fn spec_size(&self) -> nat
        decreases self,
    {
        match self {
            Type::Char => 1,
            Type::Int => 8,
            Type::Pointer(_) => 8,
            Type::Array(el, n) => el.spec_size() * (*n as nat),
        }
    }

    /// Every size met while computing this type's size fits in `u32`.
    pub open spec fn valid(&self) -> bool
        decreases self,
    {
        match self {
            Type::Char | Type::Int => true,
            Type::Pointer(b) => b.valid(),
            Type::Array(el, n) => el.valid() && el.spec_size() * (*n as nat) <= u32::MAX,
        }
    }

    pub fn size(&self) -> (r: u32)
        requires
            self.valid(),
        ensures
            r == self.spec_size(),
        decreases self,
    {
        match self {
            Type::Char => 1,
            Type::Int | Type::Pointer(_) => 8,
            Type::Array(el, n) => el.size() * *n,
        }
    }

    /// A structural copy of this type.
    pub fn duplicate(&self) -> (r: Type)
        ensures
            r == *self,
        decreases self,
    {
        match self {
            Type::Char => Type::Char,
            Type::Int => Type::Int,
            Type::Pointer(b) => Type::Pointer(Box::new(b.duplicate())),
            Type::Array(el, n) => Type::Array(Box::new(el.duplicate()), *n),
        }
    }
}

} // verus!

verus! {

/// A named storage location: a local (at `offset` bytes below the frame
/// pointer) or a global (addressed by its label `name`).
#[derive(Debug, PartialEq, Eq)]
pub struct Variable {
    pub name: Vec<u8>,
    pub ty: Type,
    pub is_local: bool,
    pub offset: u32,
    pub content: Option<Vec<u8>>,
}

#[derive(Debug, PartialEq, Eq)]
pub enum NodeKind {
    Null,
    Number(u32),
    Add { lhs: Box<Node>, rhs: Box<Node> },
    Sub { lhs: Box<Node>, rhs: Box<Node> },
    Mul { lhs: Box<Node>, rhs: Box<Node> },
    Div { lhs: Box<Node>, rhs: Box<Node> },
    Equal { lhs: Box<Node>, rhs: Box<Node> },
    NotEqual { lhs: Box<Node>, rhs: Box<Node> },
    LessThan { lhs: Box<Node>, rhs: Box<Node> },
    LessThanEqual { lhs: Box<Node>, rhs: Box<Node> },
    Assign { lhs: Box<Node>, rhs: Box<Node> },
    Variable(Variable),
    Return(Box<Node>),
    If { cond: Box<Node>, then: Box<Node>, els: Option<Box<Node>> },
    While { cond: Box<Node>, then: Box<Node> },
    For {
        init: Option<Box<Node>>,
        cond: Option<Box<Node>>,
        inc: Option<Box<Node>>,
        then: Box<Node>,
    },
    Block(Vec<Node>),
    FunCall { name: Vec<u8>, args: Vec<Node> },
    Addr(Box<Node>),
    Deref(Box<Node>),
}

#[derive(Debug, PartialEq, Eq)]
pub struct Node {
    pub kind: NodeKind,
    pub ty: Option<Type>,
}

/// A function definition: its parameters (the first locals, in order), all
/// its locals, its statements and its frame size.
#[derive(Debug, PartialEq, Eq)]
pub struct Function {
    pub name: Vec<u8>,
    pub stack_size: u32,
    pub params: Vec<Variable>,
    pub locals: Vec<Variable>,
    pub nodes: Vec<Node>,
}

/// The functions and the globals (string literals included) of a program.
#[derive(Debug, PartialEq, Eq)]
pub struct Program {
    pub functions: Vec<Function>,
    pub globals: Vec<Variable>,
}

/// Number of nodes in the tree rooted at `n`.
pub open spec fn node_size(n: Node) -> nat
    decreases n,
{
    1 + match n.kind {
        NodeKind::Add { lhs, rhs } | NodeKind::Sub { lhs, rhs } | NodeKind::Mul { lhs, rhs }
        | NodeKind::Div { lhs, rhs } | NodeKind::Equal { lhs, rhs } | NodeKind::NotEqual {
            lhs,
            rhs,
        } | NodeKind::LessThan { lhs, rhs } | NodeKind::LessThanEqual { lhs, rhs }
        | NodeKind::Assign { lhs, rhs } => node_size(*lhs) + node_size(*rhs),
        NodeKind::Return(t) | NodeKind::Addr(t) | NodeKind::Deref(t) => node_size(*t),
        NodeKind::If { cond, then, els } => node_size(*cond) + node_size(*then) + opt_size(els),
        NodeKind::While { cond, then } => node_size(*cond) + node_size(*then),
        NodeKind::For { init, cond, inc, then } => opt_size(init) + opt_size(cond) + opt_size(inc)
            + node_size(*then),
        NodeKind::Block(v) => seq_size(v@),
        NodeKind::FunCall { name, args } => seq_size(args@),
        _ => 0,
    }
}

pub open spec fn opt_size(o: Option<Box<Node>>) -> nat
    decreases o,
{
    match o {
        Some(e) => node_size(*e),
        None => 0,
    }
}

pub open spec fn seq_size(s: Seq<Node>) -> nat
    decreases s,
{
    if s.len() == 0 {
        0
    } else {
        seq_size(s.drop_last()) + node_size(s.last())
    }
}

} // verus!

verus! {

impl Variable {
    /// A copy of this variable record.
    pub fn duplicate(&self) -> (r: Variable)
        ensures
            r.name@ == self.name@,
            r.ty == self.ty,
            r.is_local == self.is_local,
            r.offset == self.offset,
            r.content is Some <==> self.content is Some,
            r.content matches Some(c) ==> c@ == self.content->Some_0@,
            var_view(r) == var_view(*self),
    {
        let mut name: Vec<u8> = Vec::new();
        let mut i: usize = 0;
        while i < self.name.len()
            invariant
                i <= self.name@.len(),
                name@ == self.name@.subrange(0, i as int),
            decreases self.name@.len() - i,
        {
            name.push(self.name[i]);
            i = i + 1;
            assert(name@ =~= self.name@.subrange(0, i as int));
        }
        assert(self.name@.subrange(0, self.name@.len() as int) =~= self.name@);
        let content = match &self.content {
            Some(c) => {
                let mut v: Vec<u8> = Vec::new();
                let mut j: usize = 0;
                while j < c.len()
                    invariant
                        j <= c@.len(),
                        v@ == c@.subrange(0, j as int),
                    decreases c@.len() - j,
                {
                    v.push(c[j]);
                    j = j + 1;
                    assert(v@ =~= c@.subrange(0, j as int));
                }
                assert(c@.subrange(0, c@.len() as int) =~= c@);
                Some(v)
            },
            None => None,
        };
        Variable {
            name,
            ty: self.ty.duplicate(),
            is_local: self.is_local,
            offset: self.offset,
            content,
        }
    }
}

} // verus!

verus! {

/// The mathematical value of a variable record.
pub struct VarView {
    pub name: Seq<u8>,
    pub ty: Type,
    pub is_local: bool,
    pub offset: u32,
    pub content: Option<Seq<u8>>,
}

pub open spec fn var_view(v: Variable) -> VarView {
    VarView {
        name: v.name@,
        ty: v.ty,
        is_local: v.is_local,
        offset: v.offset,
        content: match v.content {
            Some(c) => Some(c@),
            None => None,
        },
    }
}

pub open spec fn var_views(s: Seq<Variable>) -> Seq<VarView> {
    s.map_values(|v: Variable| var_view(v))
}

/// The first variable named `name`, in order.
pub open spec fn first_named(s: Seq<VarView>, name: Seq<u8>) -> Option<VarView>
    decreases s.len(),
{
    if s.len() == 0 {
        None
    } else if s[0].name == name {
        Some(s[0])
    } else {
        first_named(s.drop_first(), name)
    }
}

/// The mathematical value of a node kind: children as values.
pub enum KindView {
    Null,
    Number(u32),
    Add(Box<NodeView>, Box<NodeView>),
    Sub(Box<NodeView>, Box<NodeView>),
    Mul(Box<NodeView>, Box<NodeView>),
    Div(Box<NodeView>, Box<NodeView>),
    Equal(Box<NodeView>, Box<NodeView>),
    NotEqual(Box<NodeView>, Box<NodeView>),
    LessThan(Box<NodeView>, Box<NodeView>),
    LessThanEqual(Box<NodeView>, Box<NodeView>),
    Assign(Box<NodeView>, Box<NodeView>),
    Variable(VarView),
    Return(Box<NodeView>),
    If(Box<NodeView>, Box<NodeView>, Option<Box<NodeView>>),
    While(Box<NodeView>, Box<NodeView>),
    For(Option<Box<NodeView>>, Option<Box<NodeView>>, Option<Box<NodeView>>, Box<NodeView>),
    Block(Seq<NodeView>),
    FunCall(Seq<u8>, Seq<NodeView>),
    Addr(Box<NodeView>),
    Deref(Box<NodeView>),
}

/// The mathematical value of a node.
pub struct NodeView {
    pub kind: KindView,
    pub ty: Option<Type>,
}

pub open spec fn node_view(n: Node) -> NodeView
    decreases n,
{
    NodeView { kind: kind_view(n.kind), ty: n.ty }
}

pub open spec fn opt_view(o: Option<Box<Node>>) -> Option<Box<NodeView>>
    decreases o,
{
    match o {
        Some(e) => Some(Box::new(node_view(*e))),
        None => None,
    }
}

pub open spec fn node_views(s: Seq<Node>) -> Seq<NodeView>
    decreases s,
{
    if s.len() == 0 {
        seq![]
    } else {
        node_views(s.drop_last()).push(node_view(s.last()))
    }
}

pub open spec fn kind_view(k: NodeKind) -> KindView
    decreases k,
{
    match k {
        NodeKind::Null => KindView::Null,
        NodeKind::Number(v) => KindView::Number(v),
        NodeKind::Add { lhs, rhs } => KindView::Add(
            Box::new(node_view(*lhs)),
            Box::new(node_view(*rhs)),
        ),
        NodeKind::Sub { lhs, rhs } => KindView::Sub(
            Box::new(node_view(*lhs)),
            Box::new(node_view(*rhs)),
        ),
        NodeKind::Mul { lhs, rhs } => KindView::Mul(
            Box::new(node_view(*lhs)),
            Box::new(node_view(*rhs)),
        ),
        NodeKind::Div { lhs, rhs } => KindView::Div(
            Box::new(node_view(*lhs)),
            Box::new(node_view(*rhs)),
        ),
        NodeKind::Equal { lhs, rhs } => KindView::Equal(
            Box::new(node_view(*lhs)),
            Box::new(node_view(*rhs)),
        ),
        NodeKind::NotEqual { lhs, rhs } => KindView::NotEqual(
            Box::new(node_view(*lhs)),
            Box::new(node_view(*rhs)),
        ),
        NodeKind::LessThan { lhs, rhs } => KindView::LessThan(
            Box::new(node_view(*lhs)),
            Box::new(node_view(*rhs)),
        ),
        NodeKind::LessThanEqual { lhs, rhs } => KindView::LessThanEqual(
            Box::new(node_view(*lhs)),
            Box::new(node_view(*rhs)),
        ),
        NodeKind::Assign { lhs, rhs } => KindView::Assign(
            Box::new(node_view(*lhs)),
            Box::new(node_view(*rhs)),
        ),
        NodeKind::Variable(v) => KindView::Variable(var_view(v)),
        NodeKind::Return(t) => KindView::Return(Box::new(node_view(*t))),
        NodeKind::If { cond, then, els } => KindView::If(
            Box::new(node_view(*cond)),
            Box::new(node_view(*then)),
            opt_view(els),
        ),
        NodeKind::While { cond, then } => KindView::While(
            Box::new(node_view(*cond)),
            Box::new(node_view(*then)),
        ),
        NodeKind::For { init, cond, inc, then } => KindView::For(
            opt_view(init),
            opt_view(cond),
            opt_view(inc),
            Box::new(node_view(*then)),
        ),
        NodeKind::Block(v) => KindView::Block(node_views(v@)),
        NodeKind::FunCall { name, args } => KindView::FunCall(name@, node_views(args@)),
        NodeKind::Addr(t) => KindView::Addr(Box::new(node_view(*t))),
        NodeKind::Deref(t) => KindView::Deref(Box::new(node_view(*t))),
    }
}

pub proof fn lemma_node_views_len(s: Seq<Node>)
    ensures
        node_views(s).len() == s.len(),
    decreases s.len(),
{
    if s.len() > 0 {
        lemma_node_views_len(s.drop_last());
    }
}

} // verus!
