//! Properties of the compiler stated over the models of its stages.
use crate::codegen::{
    addr_code, arg_pops, begin_code, else_code, end_code, test_code, call_code, compare_code,
    for_test_code, gen_code, is_lvalue, labels, labels_seq, load_code, loop_code, op_code,
    operand_pops, opt_code, opt_labels, rvalue_code, scale_code, seq_code, store_code,
};
use crate::emitter::program_text;
use crate::error::ErrorKind;
use crate::function_parser::frame_ok;
use crate::grammar::{
    bin_kind, expr_at, for_clause_at, num_v, postfix_rest, primary_at, unary_at, Scope,
};
use crate::holders::{align_up, sizes_sum};
use crate::token_cursor::sign_tok;
use crate::tokenizer::{Keyword, Lexeme};
use crate::typing::build_v;
use vstd::string::StringSliceAdditionalSpecFns;
use crate::listing::{decimal, lemma_effect_concat, lemma_effect_one, stack_effect, text, Line};
use crate::parse::program_parsed;
use crate::types::{
    node_size, opt_size, seq_size, KindView, Node, NodeKind, NodeView, Program, Type,
};
use crate::typing::node_of;
use vstd::arithmetic::div_mod::{
    lemma_fundamental_div_mod, lemma_mod_bound, lemma_mod_multiples_basic,
};
use vstd::prelude::*;

verus! {

broadcast use {lemma_effect_concat, lemma_effect_one};

/// An expression that yields a value: arithmetic, comparisons, assignments,
/// variables, address-of, dereference and calls, over such expressions.
pub open spec fn is_value(n: Node) -> bool
    decreases n,
{
    match n.kind {
        NodeKind::Number(_) | NodeKind::Variable(_) => true,
        NodeKind::Add { lhs, rhs } | NodeKind::Sub { lhs, rhs } | NodeKind::Mul { lhs, rhs }
        | NodeKind::Div { lhs, rhs } | NodeKind::Equal { lhs, rhs } | NodeKind::NotEqual {
            lhs,
            rhs,
        } | NodeKind::LessThan { lhs, rhs } | NodeKind::LessThanEqual { lhs, rhs } => is_value(
            *lhs,
        ) && is_value(*rhs),
        NodeKind::Assign { lhs, rhs } => is_place(*lhs) && is_value(*rhs) && n.ty is Some,
        NodeKind::Addr(t) => is_place(*t),
        NodeKind::Deref(t) => is_value(*t),
        NodeKind::FunCall { name, args } => forall|i: int|
            0 <= i < args@.len() ==> is_value(#[trigger] args@[i]),
        _ => false,
    }
}

/// An lvalue over value expressions.
pub open spec fn is_place(n: Node) -> bool
    decreases n,
{
    match n.kind {
        NodeKind::Variable(_) => true,
        NodeKind::Deref(t) => is_value(*t),
        _ => false,
    }
}

proof fn lemma_fixed_effects(ty: Type, t: Option<Type>, n: Node, name: Seq<u8>, id: nat)
    ensures
        stack_effect(load_code(ty)) == 0,
        stack_effect(store_code(ty)) == -1,
        stack_effect(rvalue_code(t)) == 0,
        stack_effect(operand_pops()) == -2,
        stack_effect(op_code(n)) == 0,
        stack_effect(call_code(name, id)) == 0,
{
    assert(stack_effect(scale_code(n.ty)) == 0);
    assert(stack_effect(compare_code("sete al")) == 0);
    assert(stack_effect(compare_code("setne al")) == 0);
    assert(stack_effect(compare_code("setl al")) == 0);
    assert(stack_effect(compare_code("setle al")) == 0);
}

proof fn lemma_arg_pops_effect(k: nat)
    ensures
        stack_effect(arg_pops(k)) == -(k as int),
    decreases k,
{
    if k > 0 {
        lemma_arg_pops_effect((k - 1) as nat);
    }
}

/// The code of a value expression leaves exactly one more 8-byte value on
/// the stack than it found: the expression's value.
pub proof fn lemma_expression_pushes_one(n: Node, id: nat)
    requires
        is_value(n),
    ensures
        stack_effect(gen_code(n, id)) == 1,
    decreases n,
{
    lemma_fixed_effects(Type::Int, n.ty, n, seq![], id);
    match n.kind {
        NodeKind::Add { lhs, rhs } | NodeKind::Sub { lhs, rhs } | NodeKind::Mul { lhs, rhs }
        | NodeKind::Div { lhs, rhs } | NodeKind::Equal { lhs, rhs } | NodeKind::NotEqual {
            lhs,
            rhs,
        } | NodeKind::LessThan { lhs, rhs } | NodeKind::LessThanEqual { lhs, rhs } => {
            lemma_expression_pushes_one(*lhs, id);
            lemma_expression_pushes_one(*rhs, id + labels(*lhs));
        },
        NodeKind::Assign { lhs, rhs } => {
            lemma_place_pushes_one(*lhs, id);
            lemma_expression_pushes_one(*rhs, id + labels(*lhs));
            lemma_fixed_effects(n.ty.unwrap(), n.ty, n, seq![], id);
        },
        NodeKind::Variable(v) => {
            match n.ty {
                Some(t) => lemma_fixed_effects(t, n.ty, n, seq![], id),
                None => {},
            }
        },
        NodeKind::Addr(t) => {
            lemma_place_pushes_one(*t, id);
        },
        NodeKind::Deref(t) => {
            lemma_expression_pushes_one(*t, id);
            match n.ty {
                Some(ty) => lemma_fixed_effects(ty, n.ty, n, seq![], id),
                None => {},
            }
        },
        NodeKind::FunCall { name, args } => {
            lemma_values_push_each(args@, id);
            lemma_arg_pops_effect(args@.len());
            lemma_fixed_effects(Type::Int, n.ty, n, name@, id + labels_seq(args@));
        },
        _ => {},
    }
}

/// The address of a place is one pushed value.
pub proof fn lemma_place_pushes_one(n: Node, id: nat)
    requires
        is_place(n),
    ensures
        stack_effect(addr_code(n, id)) == 1,
    decreases n,
{
    match n.kind {
        NodeKind::Deref(t) => lemma_expression_pushes_one(*t, id),
        _ => {},
    }
}

/// A sequence of value expressions pushes one value for each.
pub proof fn lemma_values_push_each(s: Seq<Node>, id: nat)
    requires
        forall|i: int| 0 <= i < s.len() ==> is_value(#[trigger] s[i]),
    ensures
        stack_effect(seq_code(s, id)) == s.len(),
    decreases s,
{
    if s.len() > 0 {
        assert(forall|i: int| 0 <= i < s.len() - 1 ==> s.drop_last()[i] == s[i]);
        assert(s.drop_last().len() < s.len());
        lemma_values_push_each(s.drop_last(), id);
        lemma_expression_pushes_one(s.last(), id + labels_seq(s.drop_last()));
    }
}

} // verus!

verus! {

/// The frame of every parsed function: the `k`-th local sits at the sum of
/// the sizes of the locals up to and including it, and the frame size is
/// that total for all locals rounded up to the next multiple of 8.
pub proof fn lemma_frame_layout(p: Program, i: int, k: int)
    requires
        program_parsed(p),
        0 <= i < p.functions@.len(),
        0 <= k < p.functions@[i].locals@.len(),
    ensures
        p.functions@[i].locals@[k].offset == sizes_sum(
            p.functions@[i].locals@.subrange(0, k + 1),
        ),
        p.functions@[i].stack_size == align_up(sizes_sum(p.functions@[i].locals@), 8),
        p.functions@[i].stack_size % 8 == 0,
        sizes_sum(p.functions@[i].locals@) <= p.functions@[i].stack_size,
        p.functions@[i].stack_size < sizes_sum(p.functions@[i].locals@) + 8,
{
    let f = p.functions@[i];
    assert(frame_ok(f));
    lemma_align_up_8(sizes_sum(f.locals@));
}

/// Rounding up to a multiple of 8 gives the least multiple of 8 at or
/// above `n`.
pub proof fn lemma_align_up_8(n: nat)
    ensures
        align_up(n, 8) % 8 == 0,
        n <= align_up(n, 8) < n + 8,
{
    let m = (n + 7) as int;
    lemma_fundamental_div_mod(m, 8);
    lemma_mod_bound(m, 8);
    lemma_mod_multiples_basic(m / 8, 8);
}

/// Emission is a function of the program: equal programs get the same text.
pub proof fn lemma_emission_deterministic(p1: Program, p2: Program)
    requires
        p1 == p2,
    ensures
        program_text(p1) == program_text(p2),
{
}

/// `sizeof e` is the constant size of the type of `e`: its code pushes that
/// number and holds none of the code of `e`.
pub proof fn lemma_sizeof_constant(e: Node, id: nat)
    requires
        e.ty matches Some(t) && t.valid(),
    ensures
        e.ty->Some_0.spec_size() <= u32::MAX,
        node_of(NodeKind::Number(e.ty->Some_0.spec_size() as u32)) matches Ok(n) && gen_code(n, id)
            == seq![Line::Push(decimal(e.ty->Some_0.spec_size()))],
{
    lemma_valid_size_fits(e.ty->Some_0);
}

/// A valid type's size fits in 32 bits.
pub proof fn lemma_valid_size_fits(t: Type)
    requires
        t.valid(),
    ensures
        t.spec_size() <= u32::MAX,
{
}

/// `&*p` has the code of `p`: taking the address of a dereference emits
/// the pointer's own code.
pub proof fn lemma_addr_of_deref(p: Node, id: nat)
    requires
        p.ty matches Some(Type::Pointer(_)),
    ensures
        node_of(NodeKind::Deref(Box::new(p))) matches Ok(d) && node_of(
            NodeKind::Addr(Box::new(d)),
        ) matches Ok(a) && gen_code(a, id) == gen_code(p, id),
{
    let d = node_of(NodeKind::Deref(Box::new(p)))->Ok_0;
    assert(d.kind == NodeKind::Deref(Box::new(p)));
    assert(d.ty is Some);
    let a = node_of(NodeKind::Addr(Box::new(d)))->Ok_0;
    assert(a.kind == NodeKind::Addr(Box::new(d)));
    assert(addr_code(d, id) == gen_code(p, id));
}

/// A `for` loop without a condition has no exit test: its code is the
/// initializer, the loop label, the body, the increment and the jump back.
pub proof fn lemma_for_without_condition(
    init: Option<Box<Node>>,
    inc: Option<Box<Node>>,
    then: Node,
    ty: Option<Type>,
    id: nat,
)
    ensures
        gen_code(
            Node { kind: NodeKind::For { init, cond: None, inc, then: Box::new(then) }, ty },
            id,
        ) == opt_code(init, id + 1) + begin_code(id) + gen_code(then, id + 1 + opt_labels(init))
            + opt_code(inc, id + 1 + opt_labels(init) + labels(then)) + loop_code(id),
{
    assert(for_test_code(None, id + 1 + opt_labels(init), id) =~= Seq::<Line>::empty());
    let a = opt_code(init, id + 1) + begin_code(id);
    assert(a + Seq::<Line>::empty() =~= a);
}

/// Every call, whatever its number of arguments, is emitted inside the
/// alignment test of `rsp`, and both of its paths leave the stack as they
/// found it.
pub proof fn lemma_call_scaffold(n: Node, id: nat)
    requires
        n.kind is FunCall,
    ensures
        gen_code(n, id) == seq_code(n.kind->FunCall_args@, id) + arg_pops(
            n.kind->FunCall_args@.len(),
        ) + call_code(n.kind->FunCall_name@, id + labels_seq(n.kind->FunCall_args@)) + seq![
            Line::Push(text("rax")),
        ],
        call_code(n.kind->FunCall_name@, id + labels_seq(n.kind->FunCall_args@))[1] == Line::Instr(
            text("and rax, 15"),
        ),
        stack_effect(call_code(n.kind->FunCall_name@, id + labels_seq(n.kind->FunCall_args@)))
            == 0,
{
    lemma_fixed_effects(Type::Int, None, n, n.kind->FunCall_name@, id + labels_seq(
        n.kind->FunCall_args@,
    ));
}

/// Assigning to an array is a type error.
pub proof fn lemma_array_assignment_rejected(lhs: Node, rhs: Node)
    requires
        is_lvalue(lhs),
        lhs.ty matches Some(Type::Array(..)),
    ensures
        node_of(NodeKind::Assign { lhs: Box::new(lhs), rhs: Box::new(rhs) }) == Err::<
            Node,
            ErrorKind,
        >(ErrorKind::AssignToArray),
{
}

} // verus!

verus! {

/// A statement whose code leaves the stack as it found it: an empty
/// statement, or a block, `if`, `while` or condition-only `for` built of
/// such statements around value conditions.
pub open spec fn is_balanced(n: Node) -> bool
    decreases n,
{
    match n.kind {
        NodeKind::Null => true,
        NodeKind::Block(v) => forall|i: int| 0 <= i < v@.len() ==> is_balanced(#[trigger] v@[i]),
        NodeKind::If { cond, then, els } => is_value(*cond) && is_balanced(*then) && match els {
            Some(e) => is_balanced(*e),
            None => true,
        },
        NodeKind::While { cond, then } => is_value(*cond) && is_balanced(*then),
        NodeKind::For { init, cond, inc, then } => init is None && inc is None && is_balanced(
            *then,
        ) && match cond {
            Some(c) => is_value(*c),
            None => true,
        },
        _ => false,
    }
}

proof fn lemma_control_effects(id: nat)
    ensures
        stack_effect(test_code("je .L.end.", id)) == -1,
        stack_effect(test_code("je .L.else.", id)) == -1,
        stack_effect(begin_code(id)) == 0,
        stack_effect(end_code(id)) == 0,
        stack_effect(else_code(id)) == 0,
        stack_effect(loop_code(id)) == 0,
        stack_effect(Seq::<Line>::empty()) == 0,
{
}

proof fn lemma_effect_sum(
    a: Seq<Line>,
    b: Seq<Line>,
    c: Seq<Line>,
    d: Seq<Line>,
    e: Seq<Line>,
    f: Seq<Line>,
)
    ensures
        stack_effect(a + b + c + d + e + f) == stack_effect(a) + stack_effect(b) + stack_effect(c)
            + stack_effect(d) + stack_effect(e) + stack_effect(f),
        stack_effect(a + b + c + d + e) == stack_effect(a) + stack_effect(b) + stack_effect(c)
            + stack_effect(d) + stack_effect(e),
        stack_effect(a + b + c + d) == stack_effect(a) + stack_effect(b) + stack_effect(c)
            + stack_effect(d),
{
}

proof fn lemma_if_balanced(n: Node, id: nat)
    requires
        n.kind is If,
        is_balanced(n),
        forall|m: Node, j: nat|
            node_size(m) < node_size(n) && is_balanced(m) ==> stack_effect(
                #[trigger] gen_code(m, j),
            ) == 0,
    ensures
        stack_effect(gen_code(n, id)) == 0,
{
    lemma_control_effects(id);
    match n.kind {
        NodeKind::If { cond, then, els } => {
            lemma_expression_pushes_one(*cond, id + 1);
            match els {
                Some(e) => {
                    assert(opt_size(els) == node_size(*e));
                    let parts = gen_code(*cond, id + 1) + test_code("je .L.else.", id) + gen_code(
                        *then,
                        id + 1 + labels(*cond),
                    ) + else_code(id) + gen_code(*e, id + 1 + labels(*cond) + labels(*then))
                        + end_code(id);
                    assert(gen_code(n, id) == parts);
                    assert(stack_effect(gen_code(*then, id + 1 + labels(*cond))) == 0);
                    assert(stack_effect(gen_code(*e, id + 1 + labels(*cond) + labels(*then))) == 0);
                    lemma_effect_sum(
                        gen_code(*cond, id + 1),
                        test_code("je .L.else.", id),
                        gen_code(*then, id + 1 + labels(*cond)),
                        else_code(id),
                        gen_code(*e, id + 1 + labels(*cond) + labels(*then)),
                        end_code(id),
                    );
                },
                None => {
                    assert(stack_effect(gen_code(*then, id + 1 + labels(*cond))) == 0);
                    lemma_effect_sum(
                        gen_code(*cond, id + 1),
                        test_code("je .L.end.", id),
                        gen_code(*then, id + 1 + labels(*cond)),
                        end_code(id),
                        seq![],
                        seq![],
                    );
                },
            }
        },
        _ => {},
    }
}

proof fn lemma_loop_balanced(n: Node, id: nat)
    requires
        n.kind is While || n.kind is For,
        is_balanced(n),
        forall|m: Node, j: nat|
            node_size(m) < node_size(n) && is_balanced(m) ==> stack_effect(
                #[trigger] gen_code(m, j),
            ) == 0,
    ensures
        stack_effect(gen_code(n, id)) == 0,
{
    lemma_control_effects(id);
    match n.kind {
        NodeKind::While { cond, then } => {
            lemma_expression_pushes_one(*cond, id + 1);
            assert(stack_effect(gen_code(*then, id + 1 + labels(*cond))) == 0);
            lemma_effect_sum(
                begin_code(id),
                gen_code(*cond, id + 1),
                test_code("je .L.end.", id),
                gen_code(*then, id + 1 + labels(*cond)),
                loop_code(id),
                seq![],
            );
        },
        NodeKind::For { init, cond, inc, then } => {
            match cond {
                Some(c) => {
                    lemma_expression_pushes_one(*c, id + 1);
                    lemma_effect_sum(
                        gen_code(*c, id + 1),
                        test_code("je .L.end.", id),
                        seq![],
                        seq![],
                        seq![],
                        seq![],
                    );
                    assert(stack_effect(for_test_code(cond, id + 1, id)) == 0);
                },
                None => {
                    assert(stack_effect(for_test_code(cond, id + 1, id)) == 0);
                },
            }
            assert(stack_effect(gen_code(*then, id + 1 + opt_labels(cond))) == 0);
            lemma_effect_sum(
                opt_code(init, id + 1),
                begin_code(id),
                for_test_code(cond, id + 1, id),
                gen_code(*then, id + 1 + opt_labels(cond)),
                opt_code(inc, id + 1 + opt_labels(cond) + labels(*then)),
                loop_code(id),
            );
        },
        _ => {},
    }
}

/// The code of a balanced statement has no net effect on the stack.
pub proof fn lemma_balanced_statement(n: Node, id: nat)
    requires
        is_balanced(n),
    ensures
        stack_effect(gen_code(n, id)) == 0,
    decreases node_size(n), 1nat,
{
    assert forall|m: Node, j: nat|
        node_size(m) < node_size(n) && is_balanced(m) implies stack_effect(
            #[trigger] gen_code(m, j),
        ) == 0 by {
        lemma_balanced_statement(m, j);
    }
    match n.kind {
        NodeKind::Block(v) => {
            lemma_balanced_sequence(v@, id);
        },
        NodeKind::If { .. } => lemma_if_balanced(n, id),
        NodeKind::While { .. } | NodeKind::For { .. } => lemma_loop_balanced(n, id),
        _ => {},
    }
}

/// A sequence of balanced statements has no net effect on the stack.
pub proof fn lemma_balanced_sequence(s: Seq<Node>, id: nat)
    requires
        forall|i: int| 0 <= i < s.len() ==> is_balanced(#[trigger] s[i]),
    ensures
        stack_effect(seq_code(s, id)) == 0,
    decreases seq_size(s), 2nat,
{
    if s.len() > 0 {
        assert(forall|i: int| 0 <= i < s.len() - 1 ==> s.drop_last()[i] == s[i]);
        assert(node_size(s.last()) >= 1);
        lemma_balanced_sequence(s.drop_last(), id);
        lemma_balanced_statement(s.last(), id + labels_seq(s.drop_last()));
    }
}

} // verus!

verus! {

/// `a > b` is read as `b < a`, and `a >= b` as `b <= a`: the comparison
/// level builds for `>` and `>=` the nodes it builds for `<` and `<=` with
/// the operands swapped.
pub proof fn lemma_greater_is_swapped_less(a: NodeView, b: NodeView)
    ensures
        bin_kind(2, 2, a, b) == bin_kind(2, 0, b, a),
        bin_kind(2, 3, a, b) == bin_kind(2, 1, b, a),
{
}

/// `-x` is read as `0 - x`: the node that the minus sign builds over an
/// operand is the node that the subtraction level builds for the literal
/// `0` minus that operand.
pub proof fn lemma_minus_is_zero_minus(x: NodeView)
    ensures
        KindView::Sub(Box::new(num_v(0)), Box::new(x)) == bin_kind(1, 1, num_v(0), x),
{
}

/// `a[i]` is read as `*(a + i)`: one index step dereferences the sum of the
/// indexed value and the index, as a `*` over the parenthesized sum does.
pub proof fn lemma_index_is_deref_of_sum(
    ts: Seq<(Lexeme, nat)>,
    j: int,
    sc: Scope,
    a: NodeView,
    i: NodeView,
    k: int,
    sc2: Scope,
)
    requires
        sign_tok(ts, j, "[".spec_bytes()),
        expr_at(ts, j + 1, sc) == Some((i, k, sc2)),
        sign_tok(ts, k, "]".spec_bytes()),
        j < k,
        build_v(KindView::Add(Box::new(a), Box::new(i))) matches Some(sum) && build_v(
            KindView::Deref(Box::new(sum)),
        ) is Some,
    ensures
        postfix_rest(ts, j, sc, a) == postfix_rest(
            ts,
            k + 1,
            sc2,
            build_v(
                KindView::Deref(Box::new(build_v(KindView::Add(Box::new(a), Box::new(i)))->Some_0)),
            )->Some_0,
        ),
        build_v(KindView::Add(Box::new(a), Box::new(i))) == build_v(
            bin_kind(1, 0, a, i),
        ),
{
}

/// `sizeof e` is the number of bytes of the type of `e`, which is read and
/// dropped: the node is that constant.
pub proof fn lemma_sizeof_reads_operand_type(ts: Seq<(Lexeme, nat)>, i: int, sc: Scope)
    requires
        0 <= i < ts.len(),
        ts[i].0 == Lexeme::Keyword(Keyword::SizeOf),
    ensures
        primary_at(ts, i, sc) == match unary_at(ts, i + 1, sc) {
            Some((t, j, sc2)) => Some((num_v(t.ty->Some_0.spec_size() as u32), j, sc2)),
            None => None,
        },
{
}

/// An absent clause of a `for` header is `None`; a present one is the
/// expression there.
pub proof fn lemma_for_clause_absent(ts: Seq<(Lexeme, nat)>, i: int, sc: Scope, end: Seq<u8>)
    ensures
        sign_tok(ts, i, end) ==> for_clause_at(ts, i, sc, end) == Some(
            (None::<Box<NodeView>>, i + 1, sc),
        ),
        !sign_tok(ts, i, end) ==> (for_clause_at(ts, i, sc, end) matches Some((o, j, sc2))
            ==> o is Some),
{
}

} // verus!
