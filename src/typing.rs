//! Type synthesis: the type of each expression node, fixed when the node
//! is built, and the checks that reject ill-typed nodes.
use crate::codegen::{addr_ok, emittable, is_array, is_lvalue};
use crate::error::ErrorKind;
use crate::types::{
    kind_view, lemma_node_views_len, node_view, node_views, KindView, Node, NodeKind, NodeView, Type, Variable,
};
use vstd::prelude::*;

verus! {

pub open spec fn is_pointer_like(ty: Option<Type>) -> bool {
    match ty {
        Some(Type::Pointer(_)) | Some(Type::Array(..)) => true,
        _ => false,
    }
}

/// Every type the node carries fits in 32 bits.
pub open spec fn ty_ok(ty: Option<Type>) -> bool {
    match ty {
        Some(t) => t.valid(),
        None => true,
    }
}

/// A node as the parser hands it on: lowerable, with a valid type.
pub open spec fn parsed_ok(n: Node) -> bool {
    &&& emittable(n)
    &&& ty_ok(n.ty)
    &&& is_lvalue(n) ==> n.ty is Some
}

pub open spec fn opt_ok(o: Option<Box<Node>>) -> bool {
    match o {
        Some(e) => parsed_ok(*e),
        None => true,
    }
}

/// The parts of a node of kind `kind` are as the parser hands them on.
pub open spec fn parts_ok(kind: NodeKind) -> bool {
    match kind {
        NodeKind::Add { lhs, rhs } | NodeKind::Sub { lhs, rhs } | NodeKind::Mul { lhs, rhs }
        | NodeKind::Div { lhs, rhs } | NodeKind::Equal { lhs, rhs } | NodeKind::NotEqual {
            lhs,
            rhs,
        } | NodeKind::LessThan { lhs, rhs } | NodeKind::LessThanEqual { lhs, rhs }
        | NodeKind::Assign { lhs, rhs } => parsed_ok(*lhs) && parsed_ok(*rhs),
        NodeKind::Return(t) | NodeKind::Addr(t) | NodeKind::Deref(t) => parsed_ok(*t),
        NodeKind::Variable(v) => v.ty.valid(),
        NodeKind::If { cond, then, els } => parsed_ok(*cond) && parsed_ok(*then) && opt_ok(els),
        NodeKind::While { cond, then } => parsed_ok(*cond) && parsed_ok(*then),
        NodeKind::For { init, cond, inc, then } => opt_ok(init) && opt_ok(cond) && opt_ok(inc)
            && parsed_ok(*then),
        NodeKind::Block(v) => forall|i: int| 0 <= i < v@.len() ==> parsed_ok(#[trigger] v@[i]),
        NodeKind::FunCall { name, args } => forall|i: int|
            0 <= i < args@.len() ==> parsed_ok(#[trigger] args@[i]),
        _ => true,
    }
}

/// Nodes built from good parts are good.
pub proof fn lemma_node_ok(kind: NodeKind)
    requires
        parts_ok(kind),
    ensures
        node_of(kind) matches Ok(n) ==> parsed_ok(n),
{
    match kind {
        NodeKind::Block(v) => {
            assert(forall|i: int| 0 <= i < v@.len() ==> emittable(#[trigger] v@[i]));
            assert(node_of(kind) matches Ok(n) ==> parsed_ok(n));
        },
        NodeKind::FunCall { name, args } => {
            assert(forall|i: int| 0 <= i < args@.len() ==> emittable(#[trigger] args@[i]));
            assert(node_of(kind) matches Ok(n) ==> parsed_ok(n));
        },
        NodeKind::If { cond, then, els } => {
            assert(node_of(kind) matches Ok(n) ==> parsed_ok(n));
        },
        NodeKind::For { init, cond, inc, then } => {
            match init {
                Some(e) => assert(emittable(*e)),
                None => {},
            }
            match cond {
                Some(e) => assert(emittable(*e)),
                None => {},
            }
            match inc {
                Some(e) => assert(emittable(*e)),
                None => {},
            }
            assert(node_of(kind) matches Ok(n) ==> parsed_ok(n));
        },
        NodeKind::Add { lhs, rhs } => {
            assert(node_of(kind) matches Ok(n) ==> parsed_ok(n));
        },
        NodeKind::Addr(t) => {
            match t.kind {
                NodeKind::Deref(inner) => assert(emittable(*inner)),
                _ => {},
            }
            if node_of(kind) is Ok {
                let n = node_of(kind)->Ok_0;
                assert(is_lvalue(*t));
                assert(addr_ok(*t));
                assert(n.kind == kind);
                assert(emittable(n));
                assert(ty_ok(n.ty));
            }
            assert(node_of(kind) matches Ok(n) ==> parsed_ok(n));
        },
        NodeKind::Deref(t) => {
            assert(node_of(kind) matches Ok(n) ==> parsed_ok(n));
        },
        NodeKind::Assign { lhs, rhs } => {
            match lhs.kind {
                NodeKind::Deref(inner) => assert(emittable(*inner)),
                _ => {},
            }
            if node_of(kind) is Ok {
                let n = node_of(kind)->Ok_0;
                assert(addr_ok(*lhs));
                assert(n.kind == kind);
                assert(n.ty == lhs.ty);
                assert(emittable(n));
            }
            assert(node_of(kind) matches Ok(n) ==> parsed_ok(n));
        },
        NodeKind::Sub { lhs, rhs } => {
            assert(node_of(kind) matches Ok(n) ==> parsed_ok(n));
        },
        NodeKind::Return(t) => {
            assert(node_of(kind) matches Ok(n) ==> parsed_ok(n));
        },
        NodeKind::While { cond, then } => {
            assert(node_of(kind) matches Ok(n) ==> parsed_ok(n));
        },
        NodeKind::Variable(v) => {
            assert(node_of(kind) matches Ok(n) ==> parsed_ok(n));
        },
        _ => {},
    }
}

/// `a + p` with `p` a pointer or array becomes `p + a`.
pub open spec fn canonical(kind: NodeKind) -> NodeKind {
    match kind {
        NodeKind::Add { lhs, rhs } => if is_pointer_like(rhs.ty) {
            NodeKind::Add { lhs: rhs, rhs: lhs }
        } else {
            NodeKind::Add { lhs, rhs }
        },
        _ => kind,
    }
}

/// The type of a node of this kind, or why it has none that is legal.
pub open spec fn synth(kind: NodeKind) -> Result<Option<Type>, ErrorKind> {
    match kind {
        NodeKind::Mul { .. } | NodeKind::Div { .. } | NodeKind::Equal { .. }
        | NodeKind::NotEqual { .. } | NodeKind::LessThan { .. } | NodeKind::LessThanEqual { .. }
        | NodeKind::Number(_) => Ok(Some(Type::Int)),
        NodeKind::FunCall { name, args } => if args@.len() <= 6 {
            Ok(Some(Type::Int))
        } else {
            Err(ErrorKind::TooManyArgs)
        },
        NodeKind::Add { lhs, rhs } | NodeKind::Sub { lhs, rhs } => if is_pointer_like(rhs.ty) {
            Err(ErrorKind::PointerOperand)
        } else {
            Ok(lhs.ty)
        },
        NodeKind::Variable(v) => Ok(Some(v.ty)),
        NodeKind::Assign { lhs, rhs } => if !is_lvalue(*lhs) {
            Err(ErrorKind::NotLvalue)
        } else if is_array(lhs.ty) {
            Err(ErrorKind::AssignToArray)
        } else {
            Ok(lhs.ty)
        },
        NodeKind::Addr(t) => if !is_lvalue(*t) {
            Err(ErrorKind::NotLvalue)
        } else {
            match t.ty {
                Some(Type::Array(b, _)) => Ok(Some(Type::Pointer(b))),
                Some(ty) => Ok(Some(Type::Pointer(Box::new(ty)))),
                None => Err(ErrorKind::NoType),
            }
        },
        NodeKind::Deref(t) => match t.ty {
            Some(Type::Pointer(b)) | Some(Type::Array(b, _)) => Ok(Some(*b)),
            _ => Err(ErrorKind::NotDereferenceable),
        },
        _ => Ok(None),
    }
}

/// The node of this kind, after canonicalization and type synthesis.
pub open spec fn node_of(kind: NodeKind) -> Result<Node, ErrorKind> {
    let k = canonical(kind);
    match synth(k) {
        Ok(ty) => Ok(Node { kind: k, ty }),
        Err(e) => Err(e),
    }
}

/// A copy of an optional type.
fn copy_ty(t: &Option<Type>) -> (r: Option<Type>)
    ensures
        r == *t,
{
    match t {
        Some(ty) => Some(ty.duplicate()),
        None => None,
    }
}

fn pointer_like(t: &Option<Type>) -> (r: bool)
    ensures
        r == is_pointer_like(*t),
{
    match t {
        Some(Type::Pointer(_)) | Some(Type::Array(..)) => true,
        _ => false,
    }
}

fn lvalue(n: &Node) -> (r: bool)
    ensures
        r == is_lvalue(*n),
{
    match n.kind {
        NodeKind::Variable(_) | NodeKind::Deref(_) => true,
        _ => false,
    }
}

/// The type of a node of kind `kind`, already canonical.
fn detect_type(kind: &NodeKind) -> (r: Result<Option<Type>, ErrorKind>)
    ensures
        r == synth(*kind),
{
    match kind {
        NodeKind::Mul { .. } | NodeKind::Div { .. } | NodeKind::Equal { .. }
        | NodeKind::NotEqual { .. } | NodeKind::LessThan { .. } | NodeKind::LessThanEqual { .. }
        | NodeKind::Number(_) => Ok(Some(Type::Int)),
        NodeKind::FunCall { args, .. } => if args.len() <= 6 {
            Ok(Some(Type::Int))
        } else {
            Err(ErrorKind::TooManyArgs)
        },
        NodeKind::Add { lhs, rhs } | NodeKind::Sub { lhs, rhs } => if pointer_like(&rhs.ty) {
            Err(ErrorKind::PointerOperand)
        } else {
            Ok(copy_ty(&lhs.ty))
        },
        NodeKind::Variable(v) => Ok(Some(v.ty.duplicate())),
        NodeKind::Assign { lhs, .. } => if !lvalue(lhs) {
            Err(ErrorKind::NotLvalue)
        } else if let Some(Type::Array(..)) = &lhs.ty {
            Err(ErrorKind::AssignToArray)
        } else {
            Ok(copy_ty(&lhs.ty))
        },
        NodeKind::Addr(t) => if !lvalue(t) {
            Err(ErrorKind::NotLvalue)
        } else {
            match &t.ty {
                Some(Type::Array(b, _)) => Ok(Some(Type::Pointer(Box::new(b.duplicate())))),
                Some(ty) => Ok(Some(Type::Pointer(Box::new(ty.duplicate())))),
                None => Err(ErrorKind::NoType),
            }
        },
        NodeKind::Deref(t) => match &t.ty {
            Some(Type::Pointer(b)) | Some(Type::Array(b, _)) => Ok(Some(b.duplicate())),
            _ => Err(ErrorKind::NotDereferenceable),
        },
        _ => Ok(None),
    }
}

/// Builds the node of kind `kind`: a pointer or array on the right of `+`
/// is moved to the left, then the node's type is synthesized.
pub fn make_node(kind: NodeKind) -> (r: Result<Node, ErrorKind>)
    ensures
        r == node_of(kind),
{
    let kind = match kind {
        NodeKind::Add { lhs, rhs } => if pointer_like(&rhs.ty) {
            NodeKind::Add { lhs: rhs, rhs: lhs }
        } else {
            NodeKind::Add { lhs, rhs }
        },
        k => k,
    };
    match detect_type(&kind) {
        Ok(ty) => Ok(Node { kind, ty }),
        Err(e) => Err(e),
    }
}

} // verus!

verus! {

pub open spec fn is_lvalue_v(n: NodeView) -> bool {
    n.kind is Variable || n.kind is Deref
}

/// `canonical` on values.
pub open spec fn canonical_v(k: KindView) -> KindView {
    match k {
        KindView::Add(l, r) => if is_pointer_like(r.ty) {
            KindView::Add(r, l)
        } else {
            KindView::Add(l, r)
        },
        _ => k,
    }
}

/// `synth` on values: the type, or `None` for a type error.
pub open spec fn synth_v(k: KindView) -> Option<Option<Type>> {
    match k {
        KindView::Mul(..) | KindView::Div(..) | KindView::Equal(..) | KindView::NotEqual(..)
        | KindView::LessThan(..) | KindView::LessThanEqual(..) | KindView::Number(_) => Some(
            Some(Type::Int),
        ),
        KindView::FunCall(_, args) => if args.len() <= 6 {
            Some(Some(Type::Int))
        } else {
            None
        },
        KindView::Add(l, r) | KindView::Sub(l, r) => if is_pointer_like(r.ty) {
            None
        } else {
            Some(l.ty)
        },
        KindView::Variable(v) => Some(Some(v.ty)),
        KindView::Assign(l, _) => if !is_lvalue_v(*l) || is_array(l.ty) {
            None
        } else {
            Some(l.ty)
        },
        KindView::Addr(t) => if !is_lvalue_v(*t) {
            None
        } else {
            match t.ty {
                Some(Type::Array(b, _)) => Some(Some(Type::Pointer(b))),
                Some(ty) => Some(Some(Type::Pointer(Box::new(ty)))),
                None => None,
            }
        },
        KindView::Deref(t) => match t.ty {
            Some(Type::Pointer(b)) | Some(Type::Array(b, _)) => Some(Some(*b)),
            _ => None,
        },
        _ => Some(None),
    }
}

/// The node of kind `k`, as values: `node_of` on values.
pub open spec fn build_v(k: KindView) -> Option<NodeView> {
    let c = canonical_v(k);
    match synth_v(c) {
        Some(ty) => Some(NodeView { kind: c, ty }),
        None => None,
    }
}

pub proof fn lemma_view_tags(n: Node)
    ensures
        node_view(n).ty == n.ty,
        is_lvalue_v(node_view(n)) == is_lvalue(n),
{
    match n.kind {
        NodeKind::Variable(_) => {},
        NodeKind::Deref(_) => {},
        _ => {},
    }
}

/// Building on values agrees with building on records.
pub proof fn lemma_build_view(kind: NodeKind)
    ensures
        node_of(kind) matches Ok(n) ==> build_v(kind_view(kind)) == Some(node_view(n)),
        node_of(kind) is Err ==> build_v(kind_view(kind)) is None,
{
    match kind {
        NodeKind::FunCall { name, args } => {
            lemma_node_views_len(args@);
            let kv = kind_view(kind);
            assert(kv == KindView::FunCall(name@, node_views(args@)));
            assert(canonical_v(kv) == kv);
            if args@.len() <= 6 {
                let n = node_of(kind)->Ok_0;
                assert(n.kind == kind);
                assert(node_view(n) == NodeView { kind: kv, ty: Some(Type::Int) });
            }
        },
        NodeKind::Assign { lhs, rhs } => {
            lemma_view_tags(*lhs);
        },
        NodeKind::Addr(t) => {
            lemma_view_tags(*t);
        },
        NodeKind::Deref(t) => {
            lemma_view_tags(*t);
        },
        NodeKind::Add { lhs, rhs } => {
            lemma_view_tags(*lhs);
            lemma_view_tags(*rhs);
        },
        NodeKind::Sub { lhs, rhs } => {
            lemma_view_tags(*lhs);
            lemma_view_tags(*rhs);
        },
        _ => {},
    }
}

} // verus!
