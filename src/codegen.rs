//! Lowering of the typed syntax tree to x86-64 assembly (Intel syntax),
//! using the machine stack as the evaluation stack.
use crate::fragments::{emit_op, emit_operand_pops, emit_rvalue, load};
use crate::listing::{decimal, lemma_cat2, lemma_cat5, text, Line, Listing};
use crate::types::{node_size, Node, NodeKind, Type, Variable};
use vstd::prelude::*;

verus! {

pub open spec fn is_lvalue(n: Node) -> bool {
    n.kind is Variable || n.kind is Deref
}

/// Number of label suffixes that emitting `n` takes from the counter.
pub open spec fn labels(n: Node) -> nat
    decreases n,
{
    match n.kind {
        NodeKind::Add { lhs, rhs } | NodeKind::Sub { lhs, rhs } | NodeKind::Mul { lhs, rhs }
        | NodeKind::Div { lhs, rhs } | NodeKind::Equal { lhs, rhs } | NodeKind::NotEqual {
            lhs,
            rhs,
        } | NodeKind::LessThan { lhs, rhs } | NodeKind::LessThanEqual { lhs, rhs }
        | NodeKind::Assign { lhs, rhs } => labels(*lhs) + labels(*rhs),
        NodeKind::Return(t) | NodeKind::Addr(t) | NodeKind::Deref(t) => labels(*t),
        NodeKind::If { cond, then, els } => 1 + labels(*cond) + labels(*then) + match els {
            Some(e) => labels(*e),
            None => 0,
        },
        NodeKind::While { cond, then } => 1 + labels(*cond) + labels(*then),
        NodeKind::For { init, cond, inc, then } => 1 + match init {
            Some(e) => labels(*e),
            None => 0,
        } + match cond {
            Some(e) => labels(*e),
            None => 0,
        } + labels(*then) + match inc {
            Some(e) => labels(*e),
            None => 0,
        },
        NodeKind::Block(v) => labels_seq(v@),
        NodeKind::FunCall { name, args } => labels_seq(args@) + 1,
        _ => 0,
    }
}

pub open spec fn labels_seq(s: Seq<Node>) -> nat
    decreases s,
{
    if s.len() == 0 {
        0
    } else {
        labels_seq(s.drop_last()) + labels(s.last())
    }
}

pub open spec fn opt_labels(o: Option<Box<Node>>) -> nat {
    match o {
        Some(e) => labels(*e),
        None => 0,
    }
}

pub open spec fn reg8(i: nat) -> Seq<u8> {
    if i == 0 {
        text("rdi")
    } else if i == 1 {
        text("rsi")
    } else if i == 2 {
        text("rdx")
    } else if i == 3 {
        text("rcx")
    } else if i == 4 {
        text("r8")
    } else {
        text("r9")
    }
}

pub open spec fn reg1(i: nat) -> Seq<u8> {
    if i == 0 {
        text("dil")
    } else if i == 1 {
        text("sil")
    } else if i == 2 {
        text("dl")
    } else if i == 3 {
        text("cl")
    } else if i == 4 {
        text("r8b")
    } else {
        text("r9b")
    }
}

pub open spec fn label_ref(purpose: &str, n: nat) -> Seq<u8> {
    text(purpose) + decimal(n)
}

/// `pop rax; <load by size>; push rax`: replaces an address by the value there.
pub open spec fn load_code(ty: Type) -> Seq<Line> {
    let load = if ty.spec_size() == 1 {
        Line::Instr(text("movsx rax, byte ptr [rax]"))
    } else {
        Line::Instr(text("mov rax, [rax]"))
    };
    seq![Line::Pop(text("rax"))] + seq![load] + seq![Line::Push(text("rax"))]
}

/// Stores the value on top into the address below it, leaving the value.
pub open spec fn store_code(ty: Type) -> Seq<Line> {
    let store = if ty.spec_size() == 1 {
        Line::Instr(text("mov [rax], dil"))
    } else {
        Line::Instr(text("mov [rax], rdi"))
    };
    seq![Line::Pop(text("rdi"))] + seq![Line::Pop(text("rax"))] + seq![store] + seq![
        Line::Push(text("rdi")),
    ]
}

/// Load unless the type is an array, whose value is its address.
pub open spec fn rvalue_code(ty: Option<Type>) -> Seq<Line> {
    match ty {
        Some(Type::Array(..)) => seq![],
        Some(t) => load_code(t),
        None => seq![],
    }
}

pub open spec fn var_addr_code(v: Variable) -> Seq<Line> {
    if v.is_local {
        seq![Line::Instr(text("mov rax, rbp"))] + seq![
            Line::Instr(text("sub rax, ") + decimal(v.offset as nat)),
        ] + seq![Line::Push(text("rax"))]
    } else {
        seq![Line::Push(text("offset ") + v.name@)]
    }
}

/// Scaling of the right operand in pointer arithmetic.
pub open spec fn scale_code(ty: Option<Type>) -> Seq<Line> {
    match ty {
        Some(Type::Pointer(b)) => seq![Line::Instr(text("imul rdi, ") + decimal(b.spec_size()))],
        Some(Type::Array(b, _)) => seq![Line::Instr(text("imul rdi, ") + decimal(b.spec_size()))],
        _ => seq![],
    }
}

pub open spec fn compare_code(set: &str) -> Seq<Line> {
    seq![Line::Instr(text("cmp rax, rdi"))] + seq![Line::Instr(text(set))] + seq![
        Line::Instr(text("movzx rax, al")),
    ]
}

/// What a binary node does with `rax` (left) and `rdi` (right).
pub open spec fn op_code(n: Node) -> Seq<Line> {
    match n.kind {
        NodeKind::Add { .. } => scale_code(n.ty) + seq![Line::Instr(text("add rax, rdi"))],
        NodeKind::Sub { .. } => scale_code(n.ty) + seq![Line::Instr(text("sub rax, rdi"))],
        NodeKind::Mul { .. } => seq![Line::Instr(text("imul rax, rdi"))],
        NodeKind::Div { .. } => seq![Line::Instr(text("cqo"))] + seq![
            Line::Instr(text("idiv rdi")),
        ],
        NodeKind::Equal { .. } => compare_code("sete al"),
        NodeKind::NotEqual { .. } => compare_code("setne al"),
        NodeKind::LessThan { .. } => compare_code("setl al"),
        NodeKind::LessThanEqual { .. } => compare_code("setle al"),
        _ => seq![],
    }
}

/// Pops `n` argument values into the argument registers, last one first.
pub open spec fn arg_pops(n: nat) -> Seq<Line>
    decreases n,
{
    if n == 0 {
        seq![]
    } else {
        seq![Line::Pop(reg8((n - 1) as nat))] + arg_pops((n - 1) as nat)
    }
}

/// The call itself, with `rsp` brought to a multiple of 16 on both paths.
pub open spec fn call_code(name: Seq<u8>, id: nat) -> Seq<Line> {
    seq![Line::Instr(text("mov rax, rsp"))]
        + seq![Line::Instr(text("and rax, 15"))]
        + seq![Line::Instr(label_ref("jnz .L.call.", id))]
        + seq![Line::Instr(text("mov rax, 0"))]
        + seq![Line::Instr(text("call ") + name)]
        + seq![Line::Instr(label_ref("jmp .L.end.", id))]
        + seq![Line::Label(label_ref(".L.call.", id))]
        + seq![Line::Instr(text("sub rsp, 8"))]
        + seq![Line::Instr(text("mov rax, 0"))]
        + seq![Line::Instr(text("call ") + name)]
        + seq![Line::Instr(text("add rsp, 8"))]
        + seq![Line::Label(label_ref(".L.end.", id))]
}

/// `pop rax; cmp rax, 0; je <label>`, where `je` is `je .L.<purpose>.`.
pub open spec fn test_code(je: &str, id: nat) -> Seq<Line> {
    seq![Line::Pop(text("rax"))] + seq![Line::Instr(text("cmp rax, 0"))] + seq![
        Line::Instr(label_ref(je, id)),
    ]
}

pub open spec fn operand_pops() -> Seq<Line> {
    seq![Line::Pop(text("rdi"))] + seq![Line::Pop(text("rax"))]
}

/// Return: the value on top goes to `rax`, then the frame is left.
pub open spec fn return_code() -> Seq<Line> {
    seq![Line::Pop(text("rax"))] + seq![Line::Instr(text("mov rsp, rbp"))] + seq![
        Line::Pop(text("rbp")),
    ] + seq![Line::Instr(text("ret"))]
}

pub open spec fn else_code(id: nat) -> Seq<Line> {
    seq![Line::Instr(label_ref("jmp .L.end.", id))] + seq![Line::Label(label_ref(".L.else.", id))]
}

pub open spec fn end_code(id: nat) -> Seq<Line> {
    seq![Line::Label(label_ref(".L.end.", id))]
}

pub open spec fn begin_code(id: nat) -> Seq<Line> {
    seq![Line::Label(label_ref(".L.begin.", id))]
}

/// The jump back to the start of a loop, and the label after it.
pub open spec fn loop_code(id: nat) -> Seq<Line> {
    seq![Line::Instr(label_ref("jmp .L.begin.", id))] + seq![Line::Label(label_ref(".L.end.", id))]
}

pub open spec fn store_opt_code(ty: Option<Type>) -> Seq<Line> {
    match ty {
        Some(t) => store_code(t),
        None => seq![],
    }
}

pub open spec fn opt_code(o: Option<Box<Node>>, id: nat) -> Seq<Line>
    decreases o,
{
    match o {
        Some(e) => gen_code(*e, id),
        None => seq![],
    }
}

/// The exit test of a `for` loop, when it has a condition.
pub open spec fn for_test_code(c: Option<Box<Node>>, cid: nat, id: nat) -> Seq<Line>
    decreases c,
{
    match c {
        Some(e) => gen_code(*e, cid) + test_code("je .L.end.", id),
        None => seq![],
    }
}

/// The code for `n`, with label suffixes taken from `id` on.
pub open spec fn gen_code(n: Node, id: nat) -> Seq<Line>
    decreases n,
{
    match n.kind {
        NodeKind::Null => seq![],
        NodeKind::Number(v) => seq![Line::Push(decimal(v as nat))],
        NodeKind::Add { lhs, rhs } | NodeKind::Sub { lhs, rhs } | NodeKind::Mul { lhs, rhs }
        | NodeKind::Div { lhs, rhs } | NodeKind::Equal { lhs, rhs } | NodeKind::NotEqual {
            lhs,
            rhs,
        } | NodeKind::LessThan { lhs, rhs } | NodeKind::LessThanEqual { lhs, rhs } => gen_code(
            *lhs,
            id,
        ) + gen_code(*rhs, id + labels(*lhs)) + operand_pops() + op_code(n) + seq![
            Line::Push(text("rax")),
        ],
        NodeKind::Assign { lhs, rhs } => addr_code(*lhs, id) + gen_code(*rhs, id + labels(*lhs))
            + store_opt_code(n.ty),
        NodeKind::Variable(v) => var_addr_code(v) + rvalue_code(n.ty),
        NodeKind::Return(t) => gen_code(*t, id) + return_code(),
        NodeKind::If { cond, then, els } => match els {
            Some(e) => gen_code(*cond, id + 1) + test_code("je .L.else.", id) + gen_code(
                *then,
                id + 1 + labels(*cond),
            ) + else_code(id) + gen_code(*e, id + 1 + labels(*cond) + labels(*then)) + end_code(
                id,
            ),
            None => gen_code(*cond, id + 1) + test_code("je .L.end.", id) + gen_code(
                *then,
                id + 1 + labels(*cond),
            ) + end_code(id),
        },
        NodeKind::While { cond, then } => begin_code(id) + gen_code(*cond, id + 1) + test_code(
            "je .L.end.",
            id,
        ) + gen_code(*then, id + 1 + labels(*cond)) + loop_code(id),
        NodeKind::For { init, cond, inc, then } => opt_code(init, id + 1) + begin_code(id)
            + for_test_code(cond, id + 1 + opt_labels(init), id) + gen_code(
            *then,
            id + 1 + opt_labels(init) + opt_labels(cond),
        ) + opt_code(inc, id + 1 + opt_labels(init) + opt_labels(cond) + labels(*then))
            + loop_code(id),
        NodeKind::Block(v) => seq_code(v@, id),
        NodeKind::FunCall { name, args } => seq_code(args@, id) + arg_pops(args@.len()) + call_code(
            name@,
            id + labels_seq(args@),
        ) + seq![Line::Push(text("rax"))],
        NodeKind::Addr(t) => addr_code(*t, id),
        NodeKind::Deref(t) => gen_code(*t, id) + rvalue_code(n.ty),
    }
}

/// The operands of a binary arithmetic or comparison node.
pub open spec fn operands(n: Node) -> Option<(Node, Node)> {
    match n.kind {
        NodeKind::Add { lhs, rhs } | NodeKind::Sub { lhs, rhs } | NodeKind::Mul { lhs, rhs }
        | NodeKind::Div { lhs, rhs } | NodeKind::Equal { lhs, rhs } | NodeKind::NotEqual {
            lhs,
            rhs,
        } | NodeKind::LessThan { lhs, rhs } | NodeKind::LessThanEqual { lhs, rhs } => Some(
            (*lhs, *rhs),
        ),
        _ => None,
    }
}

/// Both operands, then the operator on `rax` (left) and `rdi` (right).
pub open spec fn binary_code(n: Node, lhs: Node, rhs: Node, id: nat) -> Seq<Line> {
    gen_code(lhs, id) + gen_code(rhs, id + labels(lhs)) + operand_pops() + op_code(n) + seq![
        Line::Push(text("rax")),
    ]
}

/// Statements, and calls: the nodes whose code takes labels or holds a
/// sequence of nodes.
pub open spec fn is_compound(n: Node) -> bool {
    match n.kind {
        NodeKind::Return(_) | NodeKind::If { .. } | NodeKind::While { .. } | NodeKind::For { .. }
        | NodeKind::Block(_) | NodeKind::FunCall { .. } => true,
        _ => false,
    }
}

pub fn is_compound_kind(k: &NodeKind) -> (r: bool)
    ensures
        forall|n: Node| n.kind == *k ==> r == is_compound(n),
{
    match k {
        NodeKind::Return(_) | NodeKind::If { .. } | NodeKind::While { .. } | NodeKind::For { .. }
        | NodeKind::Block(_) | NodeKind::FunCall { .. } => true,
        _ => false,
    }
}

/// The code that pushes the address that the lvalue `n` designates.
pub open spec fn addr_code(n: Node, id: nat) -> Seq<Line>
    decreases n,
{
    match n.kind {
        NodeKind::Variable(v) => var_addr_code(v),
        NodeKind::Deref(t) => gen_code(*t, id),
        _ => seq![],
    }
}

/// The code of the nodes of `s` one after another.
pub open spec fn seq_code(s: Seq<Node>, id: nat) -> Seq<Line>
    decreases s,
{
    if s.len() == 0 {
        seq![]
    } else {
        seq_code(s.drop_last(), id) + gen_code(s.last(), id + labels_seq(s.drop_last()))
    }
}

} // verus!

verus! {

pub open spec fn value_ok(ty: Option<Type>) -> bool {
    match ty {
        Some(t) => t.valid(),
        None => false,
    }
}

pub open spec fn is_array(ty: Option<Type>) -> bool {
    match ty {
        Some(Type::Array(..)) => true,
        _ => false,
    }
}

/// What emission needs of a node: lvalues where an address is taken, sizes
/// that fit, at most six call arguments.
pub open spec fn emittable(n: Node) -> bool
    decreases n,
{
    match n.kind {
        NodeKind::Null | NodeKind::Number(_) => true,
        NodeKind::Add { lhs, rhs } | NodeKind::Sub { lhs, rhs } => emittable(*lhs) && emittable(
            *rhs,
        ) && match n.ty {
            Some(t) => t.valid(),
            None => true,
        },
        NodeKind::Mul { lhs, rhs } | NodeKind::Div { lhs, rhs } | NodeKind::Equal { lhs, rhs }
        | NodeKind::NotEqual { lhs, rhs } | NodeKind::LessThan { lhs, rhs }
        | NodeKind::LessThanEqual { lhs, rhs } => emittable(*lhs) && emittable(*rhs),
        NodeKind::Assign { lhs, rhs } => addr_ok(*lhs) && !is_array(lhs.ty) && value_ok(n.ty)
            && emittable(*rhs),
        NodeKind::Variable(_) => value_ok(n.ty),
        NodeKind::Return(t) => emittable(*t),
        NodeKind::If { cond, then, els } => emittable(*cond) && emittable(*then) && match els {
            Some(e) => emittable(*e),
            None => true,
        },
        NodeKind::While { cond, then } => emittable(*cond) && emittable(*then),
        NodeKind::For { init, cond, inc, then } => emittable(*then) && match init {
            Some(e) => emittable(*e),
            None => true,
        } && match cond {
            Some(e) => emittable(*e),
            None => true,
        } && match inc {
            Some(e) => emittable(*e),
            None => true,
        },
        NodeKind::Block(v) => forall|i: int| 0 <= i < v@.len() ==> emittable(#[trigger] v@[i]),
        NodeKind::FunCall { name, args } => args@.len() <= 6 && forall|i: int|
            0 <= i < args@.len() ==> emittable(#[trigger] args@[i]),
        NodeKind::Addr(t) => addr_ok(*t),
        NodeKind::Deref(t) => emittable(*t) && value_ok(n.ty),
    }
}

/// An lvalue whose address can be emitted.
pub open spec fn addr_ok(n: Node) -> bool
    decreases n,
{
    match n.kind {
        NodeKind::Variable(_) => true,
        NodeKind::Deref(t) => emittable(*t),
        _ => false,
    }
}

} // verus!

verus! {

/// The state of emission: the next free label suffix.
pub struct CodegenContext {
    pub label_id: u64,
}

impl CodegenContext {
    pub fn new() -> (r: CodegenContext)
        ensures
            r.label_id == 0,
    {
        CodegenContext { label_id: 0 }
    }

    pub(crate) fn generate_label_id(&mut self) -> (r: u64)
        requires
            old(self).label_id < u64::MAX,
        ensures
            r == old(self).label_id,
            final(self).label_id == old(self).label_id + 1,
    {
        let id = self.label_id;
        self.label_id = self.label_id + 1;
        id
    }

    /// Emits the code that pushes the address of the lvalue `node`.
    pub(crate) fn gen_addr(&mut self, node: &Node, out: &mut Listing)
        requires
            addr_ok(*node),
            old(self).label_id + labels(*node) <= u64::MAX,
            old(out).wf(),
        ensures
            final(out).wf(),
            final(out).lines@ == old(out).lines@ + addr_code(*node, old(self).label_id as nat),
            final(self).label_id == old(self).label_id + labels(*node),
        decreases 4 * node_size(*node),
    {
        match &node.kind {
            NodeKind::Variable(var) => {
                if var.is_local {
                    out.emit("mov rax, rbp");
                    out.emit_num("sub rax, ", var.offset as u64);
                    out.emit_push("rax");
                } else {
                    out.emit_push_name("offset ", &var.name);
                }
                assert(out.lines@ =~= old(out).lines@ + addr_code(
                    *node,
                    old(self).label_id as nat,
                ));
            },
            NodeKind::Deref(inner) => {
                self.gen(inner, out);
            },
            _ => {},
        }
    }

    /// Emits the address of an assignment target, which is no array.
    pub(crate) fn gen_lvar(&mut self, node: &Node, out: &mut Listing)
        requires
            addr_ok(*node),
            !is_array(node.ty),
            old(self).label_id + labels(*node) <= u64::MAX,
            old(out).wf(),
        ensures
            final(out).wf(),
            final(out).lines@ == old(out).lines@ + addr_code(*node, old(self).label_id as nat),
            final(self).label_id == old(self).label_id + labels(*node),
        decreases 4 * node_size(*node) + 1,
    {
        self.gen_addr(node, out);
    }

    /// Emits a binary operation: both operands, then the operator on
    /// `rax` and `rdi`, then the result pushed.
    pub fn gen_binary_ops(&mut self, node: &Node, lhs: &Node, rhs: &Node, out: &mut Listing)
        requires
            operands(*node) == Some((*lhs, *rhs)),
            emittable(*lhs),
            emittable(*rhs),
            node.kind is Add || node.kind is Sub ==> match node.ty {
                Some(t) => t.valid(),
                None => true,
            },
            old(self).label_id + labels(*lhs) + labels(*rhs) <= u64::MAX,
            old(out).wf(),
        ensures
            final(out).wf(),
            final(out).lines@ == old(out).lines@ + binary_code(
                *node,
                *lhs,
                *rhs,
                old(self).label_id as nat,
            ),
            final(self).label_id == old(self).label_id + labels(*lhs) + labels(*rhs),
        decreases 4 * node_size(*node) + 1,
    {
        let ghost id = self.label_id as nat;
        let ghost l0 = out.lines@;
        self.gen(lhs, out);
        self.gen(rhs, out);
        emit_operand_pops(out);
        emit_op(node, out);
        out.emit_push("rax");
        proof {
            lemma_cat5(
                l0,
                gen_code(*lhs, id),
                gen_code(*rhs, id + labels(*lhs)),
                operand_pops(),
                op_code(*node),
                seq![Line::Push(text("rax"))],
            );
        }
    }

    /// Emits the code of a node without labels or nested sequences.
    fn gen_simple(&mut self, node: &Node, out: &mut Listing)
        requires
            !is_compound(*node),
            emittable(*node),
            old(self).label_id + labels(*node) <= u64::MAX,
            old(out).wf(),
        ensures
            final(out).wf(),
            final(out).lines@ == old(out).lines@ + gen_code(*node, old(self).label_id as nat),
            final(self).label_id == old(self).label_id + labels(*node),
        decreases 4 * node_size(*node) + 2,
    {
        let ghost id = self.label_id as nat;
        let ghost l0 = out.lines@;
        match &node.kind {
            NodeKind::Null => {
                assert(out.lines@ =~= l0 + gen_code(*node, id));
            },
            NodeKind::Number(n) => {
                out.emit_push_num(*n as u64);
            },
            NodeKind::Add { lhs, rhs } | NodeKind::Sub { lhs, rhs } | NodeKind::Mul { lhs, rhs }
            | NodeKind::Div { lhs, rhs } | NodeKind::Equal { lhs, rhs } | NodeKind::NotEqual {
                lhs,
                rhs,
            } | NodeKind::LessThan { lhs, rhs } | NodeKind::LessThanEqual { lhs, rhs } => {
                self.gen_binary_ops(node, lhs, rhs, out);
                assert(binary_code(*node, **lhs, **rhs, id) == gen_code(*node, id));
            },
            NodeKind::Assign { .. } => {
                self.gen_assign(node, out);
            },
            NodeKind::Variable(v) => {
                self.gen_addr(node, out);
                emit_rvalue(&node.ty, out);
                proof {
                    lemma_cat2(l0, var_addr_code(*v), rvalue_code(node.ty));
                }
            },
            NodeKind::Addr(target) => {
                self.gen_addr(target, out);
            },
            NodeKind::Deref(target) => {
                self.gen(target, out);
                emit_rvalue(&node.ty, out);
                proof {
                    lemma_cat2(l0, gen_code(**target, id), rvalue_code(node.ty));
                }
            },

            _ => {},
        }
    }

    /// Emits the code of `node`: for an expression, code that pushes its
    /// value; for a statement, code that carries it out.
    pub fn gen(&mut self, node: &Node, out: &mut Listing)
        requires
            emittable(*node),
            old(self).label_id + labels(*node) <= u64::MAX,
            old(out).wf(),
        ensures
            final(out).wf(),
            final(out).lines@ == old(out).lines@ + gen_code(*node, old(self).label_id as nat),
            final(self).label_id == old(self).label_id + labels(*node),
        decreases 4 * node_size(*node) + 3,
    {
        if is_compound_kind(&node.kind) {
            self.gen_compound(node, out);
        } else {
            self.gen_simple(node, out);
        }
    }

}

} // verus!
