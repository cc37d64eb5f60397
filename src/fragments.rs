//! The fixed instruction sequences of the code generator: loads, stores,
//! tests, jumps, argument moves and the aligned call.
use crate::codegen::{
    arg_pops, call_code, else_code, load_code, loop_code, operand_pops, reg1, reg8, return_code,
    rvalue_code, store_code, test_code, value_ok, op_code, operands,
};
use crate::listing::{text, Listing};
use crate::types::{Node, NodeKind, Type};
use vstd::prelude::*;

verus! {

/// Emits the load of a value of type `ty` from the address on top.
pub fn load(ty: &Type, out: &mut Listing)
    requires
        ty.valid(),
        old(out).wf(),
    ensures
        final(out).wf(),
        final(out).lines@ == old(out).lines@ + load_code(*ty),
{
    out.emit_pop("rax");
    if ty.size() == 1 {
        out.emit("movsx rax, byte ptr [rax]");
    } else {
        out.emit("mov rax, [rax]");
    }
    out.emit_push("rax");
    assert(out.lines@ =~= old(out).lines@ + load_code(*ty));
}

/// Emits the store of a value of type `ty`.
pub fn store(ty: &Type, out: &mut Listing)
    requires
        ty.valid(),
        old(out).wf(),
    ensures
        final(out).wf(),
        final(out).lines@ == old(out).lines@ + store_code(*ty),
{
    out.emit_pop("rdi");
    out.emit_pop("rax");
    if ty.size() == 1 {
        out.emit("mov [rax], dil");
    } else {
        out.emit("mov [rax], rdi");
    }
    out.emit_push("rdi");
    assert(out.lines@ =~= old(out).lines@ + store_code(*ty));
}

/// Argument register `i` of the calling convention, for 8-byte values.
pub fn argreg8(i: usize) -> (r: &'static str)
    requires
        i < 6,
    ensures
        text(r) == reg8(i as nat),
{
    if i == 0 {
        "rdi"
    } else if i == 1 {
        "rsi"
    } else if i == 2 {
        "rdx"
    } else if i == 3 {
        "rcx"
    } else if i == 4 {
        "r8"
    } else {
        "r9"
    }
}

/// Argument register `i` of the calling convention, for 1-byte values.
pub fn argreg1(i: usize) -> (r: &'static str)
    requires
        i < 6,
    ensures
        text(r) == reg1(i as nat),
{
    if i == 0 {
        "dil"
    } else if i == 1 {
        "sil"
    } else if i == 2 {
        "dl"
    } else if i == 3 {
        "cl"
    } else if i == 4 {
        "r8b"
    } else {
        "r9b"
    }
}

pub fn emit_test(out: &mut Listing, je: &str, id: u64)
    requires
        old(out).wf(),
    ensures
        final(out).wf(),
        final(out).lines@ == old(out).lines@ + test_code(je, id as nat),
{
    out.emit_pop("rax");
    out.emit("cmp rax, 0");
    out.emit_num(je, id);
    assert(out.lines@ =~= old(out).lines@ + test_code(je, id as nat));
}

pub fn emit_return(out: &mut Listing)
    requires
        old(out).wf(),
    ensures
        final(out).wf(),
        final(out).lines@ == old(out).lines@ + return_code(),
{
    out.emit_pop("rax");
    out.emit("mov rsp, rbp");
    out.emit_pop("rbp");
    out.emit("ret");
    assert(out.lines@ =~= old(out).lines@ + return_code());
}

pub fn emit_else(out: &mut Listing, id: u64)
    requires
        old(out).wf(),
    ensures
        final(out).wf(),
        final(out).lines@ == old(out).lines@ + else_code(id as nat),
{
    out.emit_num("jmp .L.end.", id);
    out.emit_label(".L.else.", id);
    assert(out.lines@ =~= old(out).lines@ + else_code(id as nat));
}

pub fn emit_loop(out: &mut Listing, id: u64)
    requires
        old(out).wf(),
    ensures
        final(out).wf(),
        final(out).lines@ == old(out).lines@ + loop_code(id as nat),
{
    out.emit_num("jmp .L.begin.", id);
    out.emit_label(".L.end.", id);
    assert(out.lines@ =~= old(out).lines@ + loop_code(id as nat));
}

pub fn emit_operand_pops(out: &mut Listing)
    requires
        old(out).wf(),
    ensures
        final(out).wf(),
        final(out).lines@ == old(out).lines@ + operand_pops(),
{
    out.emit_pop("rdi");
    out.emit_pop("rax");
    assert(out.lines@ =~= old(out).lines@ + operand_pops());
}

/// Pops `n` argument values into their registers, the last one first.
pub fn emit_arg_pops(out: &mut Listing, n: usize)
    requires
        old(out).wf(),
        n <= 6,
    ensures
        final(out).wf(),
        final(out).lines@ == old(out).lines@ + arg_pops(n as nat),
{
    let mut i: usize = n;
    while i > 0
        invariant
            i <= n <= 6,
            out.wf(),
            out.lines@ + arg_pops(i as nat) == old(out).lines@ + arg_pops(n as nat),
        decreases i,
    {
        let r = argreg8(i - 1);
        let ghost before = out.lines@;
        out.emit_pop(r);
        assert(before + arg_pops(i as nat) =~= out.lines@ + arg_pops((i - 1) as nat));
        i = i - 1;
    }
    assert(out.lines@ + arg_pops(0) =~= out.lines@);
}

/// The call of `name`, with `rsp` brought to a multiple of 16 first.
pub fn emit_call(out: &mut Listing, name: &Vec<u8>, id: u64)
    requires
        old(out).wf(),
    ensures
        final(out).wf(),
        final(out).lines@ == old(out).lines@ + call_code(name@, id as nat),
{
    out.emit("mov rax, rsp");
    out.emit("and rax, 15");
    out.emit_num("jnz .L.call.", id);
    out.emit("mov rax, 0");
    out.emit_name("call ", name);
    out.emit_num("jmp .L.end.", id);
    out.emit_label(".L.call.", id);
    out.emit("sub rsp, 8");
    out.emit("mov rax, 0");
    out.emit_name("call ", name);
    out.emit("add rsp, 8");
    out.emit_label(".L.end.", id);
    assert(out.lines@ =~= old(out).lines@ + call_code(name@, id as nat));
}

/// Emits the value of an lvalue read as an rvalue: nothing for an array,
/// whose value is its address; otherwise a load.
pub fn emit_rvalue(ty: &Option<Type>, out: &mut Listing)
    requires
        old(out).wf(),
        value_ok(*ty),
    ensures
        final(out).wf(),
        final(out).lines@ == old(out).lines@ + rvalue_code(*ty),
{
    match ty {
        Some(Type::Array(..)) => {
            assert(out.lines@ =~= old(out).lines@ + rvalue_code(*ty));
        },
        Some(t) => load(t, out),
        None => {},
    }
}

/// Emits what a binary node does with `rax` (left) and `rdi` (right).
pub fn emit_op(node: &Node, out: &mut Listing)
    requires
        operands(*node) is Some,
        node.kind is Add || node.kind is Sub ==> match node.ty {
            Some(t) => t.valid(),
            None => true,
        },
        old(out).wf(),
    ensures
        final(out).wf(),
        final(out).lines@ == old(out).lines@ + op_code(*node),
{
    match &node.kind {
        NodeKind::Add { .. } | NodeKind::Sub { .. } => {
            match &node.ty {
                Some(Type::Pointer(base)) => {
                    out.emit_num("imul rdi, ", base.size() as u64);
                },
                Some(Type::Array(base, _)) => {
                    out.emit_num("imul rdi, ", base.size() as u64);
                },
                _ => {},
            }
            if let NodeKind::Add { .. } = &node.kind {
                out.emit("add rax, rdi");
            } else {
                out.emit("sub rax, rdi");
            }
        },
        NodeKind::Mul { .. } => {
            out.emit("imul rax, rdi");
        },
        NodeKind::Div { .. } => {
            out.emit("cqo");
            out.emit("idiv rdi");
        },
        NodeKind::Equal { .. } => {
            out.emit("cmp rax, rdi");
            out.emit("sete al");
            out.emit("movzx rax, al");
        },
        NodeKind::NotEqual { .. } => {
            out.emit("cmp rax, rdi");
            out.emit("setne al");
            out.emit("movzx rax, al");
        },
        NodeKind::LessThan { .. } => {
            out.emit("cmp rax, rdi");
            out.emit("setl al");
            out.emit("movzx rax, al");
        },
        _ => {
            out.emit("cmp rax, rdi");
            out.emit("setle al");
            out.emit("movzx rax, al");
        },
    }
    assert(out.lines@ =~= old(out).lines@ + op_code(*node));
}

} // verus!
