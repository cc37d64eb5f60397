//! The grammar of programs, as spec functions over the token sequence: what
//! each parsing function reads from a position, what it builds, and how it
//! changes the symbol tables.
use crate::holders::{align_up, literal_fits, literal_view, local_view};
use crate::token_cursor::{base_type_at, sign_tok, suffix_at};
use crate::tokenizer::{Keyword, Lexeme};
use crate::types::{
    first_named, node_views, var_views, Function, KindView, NodeView, Program, Type, VarView,
};
use crate::typing::build_v;
use vstd::prelude::*;
use vstd::string::StringSliceAdditionalSpecFns;

verus! {

/// The symbol tables as values: the locals with the bytes they take, and
/// the globals with the count of string literals.
pub struct Scope {
    pub locals: Seq<VarView>,
    pub total: nat,
    pub globals: Seq<VarView>,
    pub label: nat,
}

/// A function definition as values.
pub struct FunctionView {
    pub name: Seq<u8>,
    pub stack_size: u32,
    pub params: Seq<VarView>,
    pub locals: Seq<VarView>,
    pub nodes: Seq<NodeView>,
}

/// A program as values.
pub struct ProgramView {
    pub functions: Seq<FunctionView>,
    pub globals: Seq<VarView>,
}

pub open spec fn function_view(f: Function) -> FunctionView {
    FunctionView {
        name: f.name@,
        stack_size: f.stack_size,
        params: var_views(f.params@),
        locals: var_views(f.locals@),
        nodes: node_views(f.nodes@),
    }
}

pub open spec fn function_views(s: Seq<Function>) -> Seq<FunctionView> {
    s.map_values(|f: Function| function_view(f))
}

pub open spec fn program_view(p: Program) -> ProgramView {
    ProgramView { functions: function_views(p.functions@), globals: var_views(p.globals@) }
}

/// The variable `name` resolves to: the first local so named, else the
/// first global.
pub open spec fn lookup_v(sc: Scope, name: Seq<u8>) -> Option<VarView> {
    match first_named(sc.locals, name) {
        Some(v) => Some(v),
        None => first_named(sc.globals, name),
    }
}

/// A new local `name` of type `ty`, after the others; `None` where the frame
/// would not fit in 32 bits.
pub open spec fn declare_v(sc: Scope, name: Seq<u8>, ty: Type) -> Option<(VarView, Scope)> {
    if sc.total + ty.spec_size() + 7 > u32::MAX {
        None
    } else {
        let v = local_view(name, ty, sc.total);
        Some((v, Scope { locals: sc.locals.push(v), total: sc.total + ty.spec_size(), ..sc }))
    }
}

/// The string literal `body` installed as the next global.
pub open spec fn literal_v(sc: Scope, body: Seq<u8>) -> Option<(VarView, Scope)> {
    if literal_fits(body, sc.label) {
        let v = literal_view(body, sc.label);
        Some((v, Scope { globals: sc.globals.push(v), label: sc.label + 1, ..sc }))
    } else {
        None
    }
}

pub open spec fn num_v(v: u32) -> NodeView {
    NodeView { kind: KindView::Number(v), ty: Some(Type::Int) }
}

pub open spec fn var_node_v(v: VarView) -> NodeView {
    NodeView { kind: KindView::Variable(v), ty: Some(v.ty) }
}

pub open spec fn null_v() -> NodeView {
    NodeView { kind: KindView::Null, ty: None }
}

pub open spec fn kw_tok(ts: Seq<(Lexeme, nat)>, i: int, k: Keyword) -> bool {
    0 <= i < ts.len() && ts[i].0 == Lexeme::Keyword(k)
}

/// The result of a parsing function: a node, the position after it and the
/// tables after it.
pub open spec fn then_node(b: Option<NodeView>, j: int, sc: Scope) -> Option<(NodeView, int, Scope)> {
    match b {
        Some(n) => Some((n, j, sc)),
        None => None,
    }
}

/// `sizeof` unary, `(` expr `)`, a call, a variable, a string literal or a
/// number.
pub open spec fn primary_at(ts: Seq<(Lexeme, nat)>, i: int, sc: Scope) -> Option<
    (NodeView, int, Scope),
>
    decreases ts.len() - i, 1nat,
{
    if !(0 <= i < ts.len()) {
        None
    } else if ts[i].0 == Lexeme::Keyword(Keyword::SizeOf) {
        match unary_at(ts, i + 1, sc) {
            Some((t, j, sc2)) => Some((num_v(t.ty->Some_0.spec_size() as u32), j, sc2)),
            None => None,
        }
    } else if ts[i].0 == Lexeme::Sign("(".spec_bytes()) {
        match expr_at(ts, i + 1, sc) {
            Some((n, j, sc2)) => if sign_tok(ts, j, ")".spec_bytes()) {
                Some((n, j + 1, sc2))
            } else {
                None
            },
            None => None,
        }
    } else if ts[i].0 is Ident {
        let name = ts[i].0->Ident_0;
        if sign_tok(ts, i + 1, "(".spec_bytes()) {
            match args_at(ts, i + 2, sc) {
                Some((args, j, sc2)) => then_node(build_v(KindView::FunCall(name, args)), j, sc2),
                None => None,
            }
        } else {
            match lookup_v(sc, name) {
                Some(v) => Some((var_node_v(v), i + 1, sc)),
                None => None,
            }
        }
    } else if ts[i].0 is Str {
        match literal_v(sc, ts[i].0->Str_0) {
            Some((v, sc2)) => Some((var_node_v(v), i + 1, sc2)),
            None => None,
        }
    } else if ts[i].0 is Number {
        Some((num_v(ts[i].0->Number_0), i + 1, sc))
    } else {
        None
    }
}

/// The arguments of a call after its `(`, up to `)`.
pub open spec fn args_at(ts: Seq<(Lexeme, nat)>, i: int, sc: Scope) -> Option<
    (Seq<NodeView>, int, Scope),
>
    decreases ts.len() - i, 9nat,
{
    if sign_tok(ts, i, ")".spec_bytes()) {
        Some((seq![], i + 1, sc))
    } else {
        match assign_at(ts, i, sc) {
            Some((n, j, sc2)) => if i < j <= ts.len() {
                args_rest(ts, j, sc2, seq![n])
            } else {
                None
            },
            None => None,
        }
    }
}

pub open spec fn args_rest(
    ts: Seq<(Lexeme, nat)>,
    j: int,
    sc: Scope,
    acc: Seq<NodeView>,
) -> Option<(Seq<NodeView>, int, Scope)>
    decreases ts.len() - j, 9nat,
{
    if sign_tok(ts, j, ",".spec_bytes()) {
        match assign_at(ts, j + 1, sc) {
            Some((n, k, sc2)) => if j < k <= ts.len() {
                args_rest(ts, k, sc2, acc.push(n))
            } else {
                None
            },
            None => None,
        }
    } else if sign_tok(ts, j, ")".spec_bytes()) {
        Some((acc, j + 1, sc))
    } else {
        None
    }
}

/// A primary followed by `[` index `]`s: `a[i]` is `*(a + i)`.
pub open spec fn postfix_at(ts: Seq<(Lexeme, nat)>, i: int, sc: Scope) -> Option<
    (NodeView, int, Scope),
>
    decreases ts.len() - i, 2nat,
{
    match primary_at(ts, i, sc) {
        Some((n, j, sc2)) => if i < j <= ts.len() {
            postfix_rest(ts, j, sc2, n)
        } else {
            None
        },
        None => None,
    }
}

pub open spec fn postfix_rest(ts: Seq<(Lexeme, nat)>, j: int, sc: Scope, acc: NodeView) -> Option<
    (NodeView, int, Scope),
>
    decreases ts.len() - j, 2nat,
{
    if sign_tok(ts, j, "[".spec_bytes()) {
        match expr_at(ts, j + 1, sc) {
            Some((idx, k, sc2)) => match build_v(KindView::Add(Box::new(acc), Box::new(idx))) {
                Some(sum) => if sign_tok(ts, k, "]".spec_bytes()) && j < k {
                    match build_v(KindView::Deref(Box::new(sum))) {
                        Some(d) => postfix_rest(ts, k + 1, sc2, d),
                        None => None,
                    }
                } else {
                    None
                },
                None => None,
            },
            None => None,
        }
    } else {
        Some((acc, j, sc))
    }
}

/// `+` primary, `-` primary read as `0 -` primary, `&` unary, `*` unary,
/// or a postfix expression.
pub open spec fn unary_at(ts: Seq<(Lexeme, nat)>, i: int, sc: Scope) -> Option<
    (NodeView, int, Scope),
>
    decreases ts.len() - i, 3nat,
{
    if sign_tok(ts, i, "+".spec_bytes()) {
        primary_at(ts, i + 1, sc)
    } else if sign_tok(ts, i, "-".spec_bytes()) {
        match primary_at(ts, i + 1, sc) {
            Some((x, j, sc2)) => then_node(
                build_v(KindView::Sub(Box::new(num_v(0)), Box::new(x))),
                j,
                sc2,
            ),
            None => None,
        }
    } else if sign_tok(ts, i, "&".spec_bytes()) {
        match unary_at(ts, i + 1, sc) {
            Some((x, j, sc2)) => then_node(build_v(KindView::Addr(Box::new(x))), j, sc2),
            None => None,
        }
    } else if sign_tok(ts, i, "*".spec_bytes()) {
        match unary_at(ts, i + 1, sc) {
            Some((x, j, sc2)) => then_node(build_v(KindView::Deref(Box::new(x))), j, sc2),
            None => None,
        }
    } else {
        postfix_at(ts, i, sc)
    }
}

/// The operator of binary level `lvl` at `j`, as its index in the level:
/// level 0 `*` `/`, level 1 `+` `-`, level 2 `<` `<=` `>` `>=`, level 3
/// `==` `!=`.
pub open spec fn op_at(ts: Seq<(Lexeme, nat)>, j: int, lvl: nat) -> Option<nat> {
    if lvl == 0 {
        if sign_tok(ts, j, "*".spec_bytes()) {
            Some(0)
        } else if sign_tok(ts, j, "/".spec_bytes()) {
            Some(1)
        } else {
            None
        }
    } else if lvl == 1 {
        if sign_tok(ts, j, "+".spec_bytes()) {
            Some(0)
        } else if sign_tok(ts, j, "-".spec_bytes()) {
            Some(1)
        } else {
            None
        }
    } else if lvl == 2 {
        if sign_tok(ts, j, "<".spec_bytes()) {
            Some(0)
        } else if sign_tok(ts, j, "<=".spec_bytes()) {
            Some(1)
        } else if sign_tok(ts, j, ">".spec_bytes()) {
            Some(2)
        } else if sign_tok(ts, j, ">=".spec_bytes()) {
            Some(3)
        } else {
            None
        }
    } else {
        if sign_tok(ts, j, "==".spec_bytes()) {
            Some(0)
        } else if sign_tok(ts, j, "!=".spec_bytes()) {
            Some(1)
        } else {
            None
        }
    }
}

/// The node of operator `o` of level `lvl` on `l` and `r`; `a > b` is
/// `b < a` and `a >= b` is `b <= a`.
pub open spec fn bin_kind(lvl: nat, o: nat, l: NodeView, r: NodeView) -> KindView {
    let bl = Box::new(l);
    let br = Box::new(r);
    if lvl == 0 {
        if o == 0 {
            KindView::Mul(bl, br)
        } else {
            KindView::Div(bl, br)
        }
    } else if lvl == 1 {
        if o == 0 {
            KindView::Add(bl, br)
        } else {
            KindView::Sub(bl, br)
        }
    } else if lvl == 2 {
        if o == 0 {
            KindView::LessThan(bl, br)
        } else if o == 1 {
            KindView::LessThanEqual(bl, br)
        } else if o == 2 {
            KindView::LessThan(br, bl)
        } else {
            KindView::LessThanEqual(br, bl)
        }
    } else {
        if o == 0 {
            KindView::Equal(bl, br)
        } else {
            KindView::NotEqual(bl, br)
        }
    }
}

/// Operands of level `lvl` joined left to right by its operators; the
/// operands of level 0 are unary expressions, those of level `k + 1` are
/// of level `k`.
pub open spec fn level_at(ts: Seq<(Lexeme, nat)>, i: int, sc: Scope, lvl: nat) -> Option<
    (NodeView, int, Scope),
>
    decreases ts.len() - i, lvl + 4,
{
    let first = if lvl == 0 {
        unary_at(ts, i, sc)
    } else {
        level_at(ts, i, sc, (lvl - 1) as nat)
    };
    match first {
        Some((n, j, sc2)) => if i < j <= ts.len() {
            level_rest(ts, j, sc2, lvl, n)
        } else {
            None
        },
        None => None,
    }
}

pub open spec fn level_rest(
    ts: Seq<(Lexeme, nat)>,
    j: int,
    sc: Scope,
    lvl: nat,
    acc: NodeView,
) -> Option<(NodeView, int, Scope)>
    decreases ts.len() - j, lvl + 4,
{
    match op_at(ts, j, lvl) {
        Some(o) => {
            let next = if lvl == 0 {
                unary_at(ts, j + 1, sc)
            } else {
                level_at(ts, j + 1, sc, (lvl - 1) as nat)
            };
            match next {
                Some((r, k, sc2)) => match build_v(bin_kind(lvl, o, acc, r)) {
                    Some(n) => if j < k <= ts.len() {
                        level_rest(ts, k, sc2, lvl, n)
                    } else {
                        None
                    },
                    None => None,
                },
                None => None,
            }
        },
        None => Some((acc, j, sc)),
    }
}

/// An equality, or an assignment to one, grouping to the right.
pub open spec fn assign_at(ts: Seq<(Lexeme, nat)>, i: int, sc: Scope) -> Option<
    (NodeView, int, Scope),
>
    decreases ts.len() - i, 8nat,
{
    match level_at(ts, i, sc, 3) {
        Some((n, j, sc2)) => if sign_tok(ts, j, "=".spec_bytes()) && i < j {
            match assign_at(ts, j + 1, sc2) {
                Some((rhs, k, sc3)) => then_node(
                    build_v(KindView::Assign(Box::new(n), Box::new(rhs))),
                    k,
                    sc3,
                ),
                None => None,
            }
        } else {
            Some((n, j, sc2))
        },
        None => None,
    }
}

pub open spec fn expr_at(ts: Seq<(Lexeme, nat)>, i: int, sc: Scope) -> Option<
    (NodeView, int, Scope),
>
    decreases ts.len() - i, 9nat,
{
    assign_at(ts, i, sc)
}

/// A declarator after its base type `bt` at `i`: the name, then array
/// dimensions; the local it declares.
pub open spec fn declarator_at(ts: Seq<(Lexeme, nat)>, i: int, sc: Scope, bt: Type) -> Option<
    (VarView, int, Scope),
> {
    if 0 <= i < ts.len() && ts[i].0 is Ident {
        match suffix_at(ts, i + 1, bt) {
            Some((ty, k)) => match declare_v(sc, ts[i].0->Ident_0, ty) {
                Some((v, sc2)) => Some((v, k, sc2)),
                None => None,
            },
            None => None,
        }
    } else {
        None
    }
}

/// `int` or `char` declaration: the local is declared; with `= e` the node
/// assigns `e` to it, else it is the empty statement.
pub open spec fn decl_at(ts: Seq<(Lexeme, nat)>, i: int, sc: Scope) -> Option<
    (NodeView, int, Scope),
>
    decreases ts.len() - i, 9nat,
{
    match base_type_at(ts, i) {
        Some((bt, j)) => match declarator_at(ts, j, sc, bt) {
            Some((v, k, sc2)) => if sign_tok(ts, k, ";".spec_bytes()) {
                Some((null_v(), k + 1, sc2))
            } else if sign_tok(ts, k, "=".spec_bytes()) && i < k {
                match expr_at(ts, k + 1, sc2) {
                    Some((e, m, sc3)) => if sign_tok(ts, m, ";".spec_bytes()) {
                        then_node(
                            build_v(KindView::Assign(Box::new(var_node_v(v)), Box::new(e))),
                            m + 1,
                            sc3,
                        )
                    } else {
                        None
                    },
                    None => None,
                }
            } else {
                None
            },
            None => None,
        },
        None => None,
    }
}

/// A clause of a `for` header up to `end`: absent (`None`) when `end`
/// comes at once, else the expression.
pub open spec fn for_clause_at(ts: Seq<(Lexeme, nat)>, i: int, sc: Scope, end: Seq<u8>) -> Option<
    (Option<Box<NodeView>>, int, Scope),
>
    decreases ts.len() - i, 10nat,
{
    if sign_tok(ts, i, end) {
        Some((None, i + 1, sc))
    } else {
        match expr_at(ts, i, sc) {
            Some((e, j, sc2)) => if sign_tok(ts, j, end) {
                Some((Some(Box::new(e)), j + 1, sc2))
            } else {
                None
            },
            None => None,
        }
    }
}

/// A block after its `{`: the statements up to `}`.
pub open spec fn block_v(ts: Seq<(Lexeme, nat)>, i: int, sc: Scope) -> Option<(NodeView, int, Scope)>
    decreases ts.len() - i, 10nat,
{
    if 0 <= i < ts.len() {
        match block_rest(ts, i + 1, sc, seq![]) {
            Some((ns, j, sc2)) => then_node(build_v(KindView::Block(ns)), j, sc2),
            None => None,
        }
    } else {
        None
    }
}

/// `if (` expr `)` statement, with an optional `else` statement.
pub open spec fn if_v(ts: Seq<(Lexeme, nat)>, i: int, sc: Scope) -> Option<(NodeView, int, Scope)>
    decreases ts.len() - i, 10nat,
{
    if sign_tok(ts, i + 1, "(".spec_bytes()) {
        match expr_at(ts, i + 2, sc) {
            Some((c, j, sc2)) => if sign_tok(ts, j, ")".spec_bytes()) && i < j {
                match stmt_at(ts, j + 1, sc2) {
                    Some((t, k, sc3)) => if kw_tok(ts, k, Keyword::Else) && i < k {
                        match stmt_at(ts, k + 1, sc3) {
                            Some((e, m, sc4)) => then_node(
                                build_v(
                                    KindView::If(Box::new(c), Box::new(t), Some(Box::new(e))),
                                ),
                                m,
                                sc4,
                            ),
                            None => None,
                        }
                    } else {
                        then_node(build_v(KindView::If(Box::new(c), Box::new(t), None)), k, sc3)
                    },
                    None => None,
                }
            } else {
                None
            },
            None => None,
        }
    } else {
        None
    }
}

/// `while (` expr `)` statement.
pub open spec fn while_v(ts: Seq<(Lexeme, nat)>, i: int, sc: Scope) -> Option<(NodeView, int, Scope)>
    decreases ts.len() - i, 10nat,
{
    if sign_tok(ts, i + 1, "(".spec_bytes()) {
        match expr_at(ts, i + 2, sc) {
            Some((c, j, sc2)) => if sign_tok(ts, j, ")".spec_bytes()) && i < j {
                match stmt_at(ts, j + 1, sc2) {
                    Some((t, k, sc3)) => then_node(
                        build_v(KindView::While(Box::new(c), Box::new(t))),
                        k,
                        sc3,
                    ),
                    None => None,
                }
            } else {
                None
            },
            None => None,
        }
    } else {
        None
    }
}

/// `for (` init `;` cond `;` inc `)` statement, each clause optional.
pub open spec fn for_v(ts: Seq<(Lexeme, nat)>, i: int, sc: Scope) -> Option<(NodeView, int, Scope)>
    decreases ts.len() - i, 10nat,
{
    if sign_tok(ts, i + 1, "(".spec_bytes()) {
        match for_clause_at(ts, i + 2, sc, ";".spec_bytes()) {
            Some((init, j, sc2)) => if i < j {
                match for_clause_at(ts, j, sc2, ";".spec_bytes()) {
                    Some((cond, k, sc3)) => if i < k {
                        match for_clause_at(ts, k, sc3, ")".spec_bytes()) {
                            Some((inc, m, sc4)) => if i < m {
                                match stmt_at(ts, m, sc4) {
                                    Some((t, n, sc5)) => then_node(
                                        build_v(KindView::For(init, cond, inc, Box::new(t))),
                                        n,
                                        sc5,
                                    ),
                                    None => None,
                                }
                            } else {
                                None
                            },
                            None => None,
                        }
                    } else {
                        None
                    },
                    None => None,
                }
            } else {
                None
            },
            None => None,
        }
    } else {
        None
    }
}

/// `return` expr `;`.
pub open spec fn return_v(ts: Seq<(Lexeme, nat)>, i: int, sc: Scope) -> Option<(NodeView, int, Scope)>
    decreases ts.len() - i, 10nat,
{
    match expr_at(ts, i + 1, sc) {
        Some((v, j, sc2)) => if sign_tok(ts, j, ";".spec_bytes()) {
            then_node(build_v(KindView::Return(Box::new(v))), j + 1, sc2)
        } else {
            None
        },
        None => None,
    }
}

/// A statement: a block, `if`, `while`, `for`, `return`, a declaration or
/// an expression followed by `;`.
pub open spec fn stmt_at(ts: Seq<(Lexeme, nat)>, i: int, sc: Scope) -> Option<
    (NodeView, int, Scope),
>
    decreases ts.len() - i, 11nat,
{
    if !(0 <= i < ts.len()) {
        None
    } else if ts[i].0 == Lexeme::Sign("{".spec_bytes()) {
        block_v(ts, i, sc)
    } else if ts[i].0 == Lexeme::Keyword(Keyword::If) {
        if_v(ts, i, sc)
    } else if ts[i].0 == Lexeme::Keyword(Keyword::While) {
        while_v(ts, i, sc)
    } else if ts[i].0 == Lexeme::Keyword(Keyword::For) {
        for_v(ts, i, sc)
    } else if ts[i].0 == Lexeme::Keyword(Keyword::Return) {
        return_v(ts, i, sc)
    } else if ts[i].0 == Lexeme::Keyword(Keyword::Int) || ts[i].0 == Lexeme::Keyword(
        Keyword::Char,
    ) {
        decl_at(ts, i, sc)
    } else {
        match expr_at(ts, i, sc) {
            Some((n, j, sc2)) => if sign_tok(ts, j, ";".spec_bytes()) {
                Some((n, j + 1, sc2))
            } else {
                None
            },
            None => None,
        }
    }
}

/// Statements up to the closing `}`, after `acc`.
pub open spec fn block_rest(
    ts: Seq<(Lexeme, nat)>,
    j: int,
    sc: Scope,
    acc: Seq<NodeView>,
) -> Option<(Seq<NodeView>, int, Scope)>
    decreases ts.len() - j, 12nat,
{
    if sign_tok(ts, j, "}".spec_bytes()) {
        Some((acc, j + 1, sc))
    } else {
        match stmt_at(ts, j, sc) {
            Some((n, k, sc2)) => if j < k <= ts.len() {
                block_rest(ts, k, sc2, acc.push(n))
            } else {
                None
            },
            None => None,
        }
    }
}

/// The parameters from `i` up to `)`, after `acc`: each a declarator of
/// one or eight bytes, at most six.
pub open spec fn params_rest(
    ts: Seq<(Lexeme, nat)>,
    i: int,
    sc: Scope,
    acc: Seq<VarView>,
) -> Option<(Seq<VarView>, int, Scope)>
    decreases ts.len() - i,
{
    match base_type_at(ts, i) {
        Some((bt, j)) => match declarator_at(ts, j, sc, bt) {
            Some((v, k, sc2)) => if v.ty.spec_size() != 1 && v.ty.spec_size() != 8 {
                None
            } else if acc.len() == 6 {
                None
            } else if sign_tok(ts, k, ")".spec_bytes()) {
                Some((acc.push(v), k + 1, sc2))
            } else if sign_tok(ts, k, ",".spec_bytes()) && i < k + 1 <= ts.len() {
                params_rest(ts, k + 1, sc2, acc.push(v))
            } else {
                None
            },
            None => None,
        },
        None => None,
    }
}

pub open spec fn params_at(ts: Seq<(Lexeme, nat)>, i: int, sc: Scope) -> Option<
    (Seq<VarView>, int, Scope),
> {
    if sign_tok(ts, i, ")".spec_bytes()) {
        Some((seq![], i + 1, sc))
    } else {
        params_rest(ts, i, sc, seq![])
    }
}

/// A function definition after its `(`: parameters, then the body; its
/// locals start empty and its frame is their total rounded up to 8.
pub open spec fn function_at(ts: Seq<(Lexeme, nat)>, i: int, name: Seq<u8>, sc: Scope) -> Option<
    (FunctionView, int, Scope),
> {
    let fresh = Scope { locals: seq![], total: 0, ..sc };
    match params_at(ts, i, fresh) {
        Some((ps, j, sc2)) => if sign_tok(ts, j, "{".spec_bytes()) {
            match block_rest(ts, j + 1, sc2, seq![]) {
                Some((ns, k, sc3)) => Some(
                    (
                        FunctionView {
                            name,
                            stack_size: align_up(sc3.total, 8) as u32,
                            params: ps,
                            locals: sc3.locals,
                            nodes: ns,
                        },
                        k,
                        sc3,
                    ),
                ),
                None => None,
            }
        } else {
            None
        },
        None => None,
    }
}

/// The top-level items from `i` to `Eof`, after the functions `fs`, with
/// the globals `gs` and `label` string literals so far.
pub open spec fn program_at(
    ts: Seq<(Lexeme, nat)>,
    i: int,
    gs: Seq<VarView>,
    label: nat,
    fs: Seq<FunctionView>,
) -> Option<ProgramView>
    decreases ts.len() - i,
{
    if !(0 <= i < ts.len()) {
        None
    } else if ts[i].0 is Eof {
        Some(ProgramView { functions: fs, globals: gs })
    } else {
        match base_type_at(ts, i) {
            Some((bt, j)) => if 0 <= j < ts.len() && ts[j].0 is Ident {
                let name = ts[j].0->Ident_0;
                if sign_tok(ts, j + 1, "(".spec_bytes()) {
                    let sc = Scope { locals: seq![], total: 0, globals: gs, label };
                    match function_at(ts, j + 2, name, sc) {
                        Some((f, k, sc2)) => if i < k <= ts.len() {
                            program_at(ts, k, sc2.globals, sc2.label, fs.push(f))
                        } else {
                            None
                        },
                        None => None,
                    }
                } else {
                    match suffix_at(ts, j + 1, bt) {
                        Some((ty, k)) => if sign_tok(ts, k, ";".spec_bytes()) && i < k + 1 {
                            let g = VarView {
                                name,
                                ty,
                                is_local: false,
                                offset: 0,
                                content: None,
                            };
                            program_at(ts, k + 1, gs.push(g), label, fs)
                        } else {
                            None
                        },
                        None => None,
                    }
                }
            } else {
                None
            },
            None => None,
        }
    }
}

/// The program the tokens spell, if they spell one.
pub open spec fn program_of(ts: Seq<(Lexeme, nat)>) -> Option<ProgramView> {
    program_at(ts, 0, seq![], 0, seq![])
}

} // verus!
