//! The recursive-descent parser of one function definition, with scoped
//! name resolution and a typed node for every expression.
use crate::error::{CompileError, ErrorKind};
use crate::codegen::emittable;
use crate::emitter::function_ok;
use crate::holders::{align_up, sizes_sum, GlobalHolder, LocalHolder};
use crate::listing::lemma_unary_sign_texts;
use crate::token_cursor::{lemma_view_kinds, sign_tok, suffix_at, TokenCursor};
use crate::tokenizer::{Keyword, Lexeme};
use crate::types::{
    kind_view, node_view, node_views, opt_view, KindView, var_view, var_views, Function, Node, NodeKind, NodeView, Type,
    VarView, Variable,
};
use crate::typing::{build_v, lemma_build_view, make_node, node_of, parsed_ok, parts_ok, lemma_node_ok};
use crate::grammar::{
    args_at, args_rest, assign_at, expr_at, level_at, level_rest, lookup_v, postfix_at, postfix_rest,
    block_rest, block_v, function_at, function_view, params_at, params_rest, decl_at, for_v, if_v, return_v, while_v, declare_v, for_clause_at, stmt_at, num_v, primary_at, then_node, unary_at, Scope,
};
use vstd::prelude::*;
use vstd::string::StringSliceAdditionalSpecFns;

verus! {

/// The state of parsing one function: the globals seen so far, the
/// function's locals, and the position in the tokens.
pub struct FunctionParser<'a> {
    pub globals: GlobalHolder,
    pub locals: LocalHolder,
    pub cursor: TokenCursor<'a>,
}

/// `new` follows `old`: the same tokens, never an earlier position.
pub open spec fn step<'a>(old: FunctionParser<'a>, new: FunctionParser<'a>) -> bool {
    &&& new.wf()
    &&& new.cursor.tokens == old.cursor.tokens
    &&& new.cursor.index >= old.cursor.index
    &&& new.scope().locals.len() >= old.scope().locals.len()
    &&& forall|k: int|
        0 <= k < old.scope().locals.len() ==> #[trigger] new.scope().locals[k]
            == old.scope().locals[k]
}

/// A parse of a node: on success a good node, and tokens consumed.
pub open spec fn made<'a>(
    old: FunctionParser<'a>,
    new: FunctionParser<'a>,
    r: Result<Node, CompileError>,
) -> bool {
    &&& step(old, new)
    &&& r matches Ok(n) ==> parsed_ok(n) && new.cursor.index > old.cursor.index
}

/// A parse of an expression: as `made`, and the node has a type.
pub open spec fn made_expr<'a>(
    old: FunctionParser<'a>,
    new: FunctionParser<'a>,
    r: Result<Node, CompileError>,
) -> bool {
    &&& made(old, new, r)
    &&& r matches Ok(n) ==> n.ty is Some
}

/// The frame of a parsed function: each local at the running total of
/// the sizes up to it, itself included, and the frame that total rounded
/// up to a multiple of 8.
pub open spec fn frame_ok(f: Function) -> bool {
    &&& forall|k: int|
        0 <= k < f.locals@.len() ==> (#[trigger] f.locals@[k]).offset == sizes_sum(
            f.locals@.subrange(0, k + 1),
        )
    &&& f.stack_size == align_up(sizes_sum(f.locals@), 8)
}

/// The literal `0`.
pub open spec fn zero_node() -> Node {
    Node { kind: NodeKind::Number(0), ty: Some(Type::Int) }
}

/// The kind of the node that `-x` is read as: `0 - x`.
pub open spec fn minus_kind(x: Node) -> NodeKind {
    NodeKind::Sub { lhs: Box::new(zero_node()), rhs: Box::new(x) }
}

/// The value of `sizeof e`: the size of the type of `e`.
pub fn sizeof_value(e: &Node) -> (r: u32)
    requires
        e.ty matches Some(t) && t.valid(),
    ensures
        r == e.ty->Some_0.spec_size(),
{
    match &e.ty {
        Some(t) => t.size(),
        None => 0,
    }
}

/// The parse `s` predicts is what came out: `r` is the node, the cursor
/// stands after it and the tables are as predicted; or `s` predicts no
/// parse and `r` is an error.
pub open spec fn follows<'a>(
    s: Option<(NodeView, int, Scope)>,
    r: Result<Node, CompileError>,
    p: FunctionParser<'a>,
) -> bool {
    match s {
        Some((n, j, sc)) => r matches Ok(m) && node_view(m) == n && p.cursor.index == j
            && p.scope() == sc,
        None => r is Err,
    }
}

impl<'a> FunctionParser<'a> {
    /// The symbol tables as values.
    pub open spec fn scope(&self) -> Scope {
        Scope {
            locals: var_views(self.locals.locals@),
            total: self.locals.total as nat,
            globals: var_views(self.globals.vars@),
            label: self.globals.label_id as nat,
        }
    }

    /// The token values.
    pub open spec fn ts(&self) -> Seq<(Lexeme, nat)> {
        self.cursor.view()
    }

    /// The position of the current token.
    pub open spec fn at(&self) -> int {
        self.cursor.index as int
    }

    pub open spec fn wf(&self) -> bool {
        &&& self.cursor.wf()
        &&& self.locals.wf()
        &&& self.globals.wf()
    }

    /// Whether `name` resolves, to a local or to a global.
    pub open spec fn resolves(&self, name: Seq<u8>) -> bool {
        self.locals.has(name) || self.globals.has(name)
    }

    fn new(cursor: TokenCursor<'a>, globals: GlobalHolder) -> (r: FunctionParser<'a>)
        requires
            cursor.wf(),
            globals.wf(),
        ensures
            r.wf(),
            r.cursor == cursor,
            r.globals == globals,
            r.locals.locals@.len() == 0,
    {
        FunctionParser { locals: LocalHolder::new(), cursor, globals }
    }

    /// The variable `name`: a local first, else a global.
    fn find_var(&self, name: &Vec<u8>) -> (r: Option<Variable>)
        requires
            self.wf(),
        ensures
            r is Some <==> self.resolves(name@),
            r matches Some(v) ==> v.ty.valid(),
            match lookup_v(self.scope(), name@) {
                Some(w) => r matches Some(v) && var_view(v) == w,
                None => r is None,
            },
    {
        match self.locals.find(name) {
            Some(v) => Some(v),
            None => self.globals.find_var(name),
        }
    }

    /// The node of kind `kind`, or its type error at the current token.
    fn build(&self, kind: NodeKind) -> (r: Result<Node, CompileError>)
        requires
            self.wf(),
            parts_ok(kind),
        ensures
            node_of(kind) matches Ok(n) ==> r == Ok::<Node, CompileError>(n) && parsed_ok(n),
            node_of(kind) matches Err(k) ==> r matches Err(e) && e.kind == k,
            match build_v(kind_view(kind)) {
                Some(v) => r matches Ok(n) && node_view(n) == v,
                None => r is Err,
            },
    {
        proof {
            lemma_node_ok(kind);
            lemma_build_view(kind);
        }
        match make_node(kind) {
            Ok(n) => Ok(n),
            Err(k) => Err(self.cursor.report_error(k)),
        }
    }

    /// A local declared with the type written after its name.
    fn declare(&mut self, base: Type, name: &Vec<u8>) -> (r: Result<Variable, CompileError>)
        requires
            old(self).wf(),
            base.valid(),
        ensures
            step(*old(self), *final(self)),
            r matches Ok(v) ==> v.ty.valid(),
            r is Ok ==> final(self).locals.locals@.len() == old(self).locals.locals@.len() + 1,
            match suffix_at(old(self).ts(), old(self).at(), base) {
                Some((ty, k)) => match declare_v(old(self).scope(), name@, ty) {
                    Some((v, sc)) => r matches Ok(var) && var_view(var) == v && final(self).at()
                        == k && final(self).scope() == sc,
                    None => r is Err,
                },
                None => r is Err,
            },
    {
        let ty = match self.cursor.read_type_suffix(base) {
            Ok(t) => t,
            Err(e) => {
                return Err(e);
            },
        };
        match self.locals.new_var(name, ty) {
            Ok(v) => Ok(v),
            Err(k) => Err(self.cursor.report_error(k)),
        }
    }

    /// The parameters up to `)`, each declared as a local.
    fn read_func_params(&mut self) -> (r: Result<Vec<Variable>, CompileError>)
        requires
            old(self).wf(),
        ensures
            step(*old(self), *final(self)),
            r matches Ok(ps) ==> ps@.len() <= 6 && forall|i: int|
                0 <= i < ps@.len() ==> {
                    let t = (#[trigger] ps@[i]).ty;
                    t.valid() && (t.spec_size() == 1 || t.spec_size() == 8)
                },
            match params_at(old(self).ts(), old(self).at(), old(self).scope()) {
                Some((ps, j, sc)) => r matches Ok(v) && var_views(v@) == ps && final(self).at() == j
                    && final(self).scope() == sc,
                None => r is Err,
            },
            r matches Ok(ps) ==> final(self).scope().locals == old(self).scope().locals
                + var_views(ps@),
        decreases old(self).cursor.left(),
    {
        proof {
            lemma_view_kinds(self.cursor);
        }
        let mut params: Vec<Variable> = Vec::new();
        assert(var_views(params@) =~= Seq::<VarView>::empty());
        assert(old(self).scope().locals + var_views(params@) =~= old(self).scope().locals);
        if self.cursor.consume_sign(")") {
            return Ok(params);
        }
        loop
            invariant
                step(*old(self), *self),
                self.ts() == old(self).ts(),
                params_at(old(self).ts(), old(self).at(), old(self).scope()) == params_rest(
                    self.ts(),
                    self.at(),
                    self.scope(),
                    var_views(params@),
                ),
                self.scope().locals == old(self).scope().locals + var_views(params@),
                params@.len() <= 6,
                forall|i: int|
                    0 <= i < params@.len() ==> {
                        let t = (#[trigger] params@[i]).ty;
                        t.valid() && (t.spec_size() == 1 || t.spec_size() == 8)
                    },
            decreases self.cursor.left(),
        {
            proof {
                lemma_view_kinds(self.cursor);
            }
            let base = match self.cursor.read_base_type() {
                Ok(t) => t,
                Err(e) => {
                    return Err(e);
                },
            };
            let name = match self.cursor.expect_ident() {
                Ok(n) => n,
                Err(e) => {
                    return Err(e);
                },
            };
            let var = match self.declare(base, &name) {
                Ok(v) => v,
                Err(e) => {
                    return Err(e);
                },
            };
            proof {
                lemma_view_kinds(self.cursor);
            }
            let size = var.ty.size();
            if size != 1 && size != 8 {
                return Err(self.cursor.report_error(ErrorKind::ParamSize));
            }
            if params.len() == 6 {
                return Err(self.cursor.report_error(ErrorKind::TooManyArgs));
            }
            let ghost prev = params@;
            params.push(var);
            proof {
                assert(var_views(params@) =~= var_views(prev).push(var_view(params@.last())));
                assert(old(self).scope().locals + var_views(params@) =~= (old(self).scope().locals
                    + var_views(prev)).push(var_view(params@.last())));
                lemma_view_kinds(self.cursor);
            }
            if self.cursor.consume_sign(")") {
                return Ok(params);
            }
            match self.cursor.expect_sign(",") {
                Ok(()) => {},
                Err(e) => {
                    return Err(e);
                },
            }
        }
    }

    /// `0 - operand`: what unary minus stands for.
    fn negate(&self, operand: Node) -> (r: Result<Node, CompileError>)
        requires
            self.wf(),
            parsed_ok(operand),
            operand.ty is Some,
        ensures
            node_of(minus_kind(operand)) matches Ok(n) ==> r == Ok::<Node, CompileError>(n),
            r matches Ok(n) ==> node_of(minus_kind(operand)) == Ok::<Node, ErrorKind>(n),
            r matches Ok(n) ==> parsed_ok(n) && n.ty is Some,
            match build_v(KindView::Sub(Box::new(num_v(0)), Box::new(node_view(operand)))) {
                Some(v) => r matches Ok(n) && node_view(n) == v,
                None => r is Err,
            },
    {
        let zero = Node { kind: NodeKind::Number(0), ty: Some(Type::Int) };
        assert(parsed_ok(zero));
        assert(node_view(zero) == num_v(0));
        self.build(NodeKind::Sub { lhs: Box::new(zero), rhs: Box::new(operand) })
    }

    /// The arguments of a call, after its `(`, up to `)`.
    #[verifier::rlimit(40)]
    fn func_args(&mut self) -> (r: Result<Vec<Node>, CompileError>)
        requires
            old(self).wf(),
        ensures
            step(*old(self), *final(self)),
            r matches Ok(args) ==> final(self).cursor.index > old(self).cursor.index && forall|
                i: int,
            | 0 <= i < args@.len() ==> parsed_ok(#[trigger] args@[i]),
            match args_at(old(self).ts(), old(self).at(), old(self).scope()) {
                Some((vs, j, sc)) => r matches Ok(args) && node_views(args@) == vs
                    && final(self).cursor.index == j && final(self).scope() == sc,
                None => r is Err,
            },
        decreases old(self).cursor.left(), 9nat,
    {
        proof {
            lemma_view_kinds(self.cursor);
        }
        let mut args: Vec<Node> = Vec::new();
        if self.cursor.consume_sign(")") {
            return Ok(args);
        }
        let first = match self.assign() {
            Ok(n) => n,
            Err(e) => {
                return Err(e);
            },
        };
        let ghost before = args@;
        args.push(first);
        assert(args@.drop_last() =~= before);
        assert(node_views(before) == Seq::<NodeView>::empty());
        assert(node_views(args@) == seq![node_view(first)]);
        while self.cursor.consume_sign(",")
            invariant
                step(*old(self), *self),
                self.cursor.index > old(self).cursor.index,
                forall|i: int| 0 <= i < args@.len() ==> parsed_ok(#[trigger] args@[i]),
                self.ts() == old(self).ts(),
                args_at(old(self).ts(), old(self).at(), old(self).scope()) == args_rest(
                    self.ts(),
                    self.at(),
                    self.scope(),
                    node_views(args@),
                ),
            decreases self.cursor.left(),
        {
            proof {
                lemma_view_kinds(self.cursor);
            }
            let a = match self.assign() {
                Ok(n) => n,
                Err(e) => {
                    return Err(e);
                },
            };
            let ghost prev = args@;
            args.push(a);
            assert(args@.drop_last() =~= prev);
        }
        proof {
            lemma_view_kinds(self.cursor);
        }
        match self.cursor.expect_sign(")") {
            Ok(()) => {},
            Err(e) => {
                return Err(e);
            },
        }
        Ok(args)
    }

    /// `sizeof` operand, `(` expression `)`, a call, a variable, a string
    /// literal or a number.
    fn primary(&mut self) -> (r: Result<Node, CompileError>)
        requires
            old(self).wf(),
        ensures
            made_expr(*old(self), *final(self), r),
            follows(primary_at(old(self).ts(), old(self).at(), old(self).scope()), r, *final(self)),
            old(self).cursor.cur() matches Lexeme::Number(v) ==> r == Ok::<Node, CompileError>(
                Node { kind: NodeKind::Number(v), ty: Some(Type::Int) },
            ),
            old(self).cursor.cur() == Lexeme::Keyword(Keyword::SizeOf) ==> (r matches Ok(n)
                ==> n.kind is Number),
            old(self).cursor.cur() is Str ==> (r matches Ok(n) ==> n.kind is Variable),
            ({
                let c = old(self).cursor;
                (c.cur() is Ident && c.tokens@[c.index + 1].kind@ != Lexeme::Sign("(".spec_bytes())
                    && !old(self).resolves(c.cur()->Ident_0)) ==> (r matches Err(e) && e.index
                    == c.tokens@[c.index as int].index && (e.kind matches ErrorKind::UndefinedVariable(
                    v,
                ) && v@ == c.cur()->Ident_0))
            }),
        decreases old(self).cursor.left(), 1nat,
    {
        proof {
            lemma_view_kinds(self.cursor);
        }
        if self.cursor.consume_keyword(Keyword::SizeOf) {
            let target = match self.unary() {
                Ok(n) => n,
                Err(e) => {
                    return Err(e);
                },
            };
            return self.build(NodeKind::Number(sizeof_value(&target)));
        }
        if self.cursor.consume_sign("(") {
            let node = match self.expr() {
                Ok(n) => n,
                Err(e) => {
                    return Err(e);
                },
            };
            match self.cursor.expect_sign(")") {
                Ok(()) => {},
                Err(e) => {
                    return Err(e);
                },
            }
            return Ok(node);
        }
        if let Some(name) = self.cursor.consume_ident() {
            if self.cursor.consume_sign("(") {
                let args = match self.func_args() {
                    Ok(a) => a,
                    Err(e) => {
                        return Err(e);
                    },
                };
                return self.build(NodeKind::FunCall { name, args });
            }
            match self.find_var(&name) {
                Some(var) => {
                    return self.build(NodeKind::Variable(var));
                },
                None => {
                    let err = self.cursor.previous().report_error(
                        ErrorKind::UndefinedVariable(name),
                    );
                    return Err(err);
                },
            }
        }
        if let Some(s) = self.cursor.consume_str() {
            let var = match self.globals.string_literal(&s) {
                Ok(v) => v,
                Err(k) => {
                    return Err(self.cursor.report_error(k));
                },
            };
            return self.build(NodeKind::Variable(var));
        }
        let n = match self.cursor.expect_number() {
            Ok(n) => n,
            Err(e) => {
                return Err(e);
            },
        };
        self.build(NodeKind::Number(n))
    }

    /// A primary followed by any number of `[` index `]`.
    fn postfix(&mut self) -> (r: Result<Node, CompileError>)
        requires
            old(self).wf(),
        ensures
            made_expr(*old(self), *final(self), r),
            follows(postfix_at(old(self).ts(), old(self).at(), old(self).scope()), r, *final(self)),
        decreases old(self).cursor.left(), 2nat,
    {
        proof {
            lemma_view_kinds(self.cursor);
        }
        let mut node = match self.primary() {
            Ok(n) => n,
            Err(e) => {
                return Err(e);
            },
        };
        while self.cursor.consume_sign("[")
            invariant
                step(*old(self), *self),
                self.cursor.index > old(self).cursor.index,
                parsed_ok(node),
                node.ty is Some,
                self.ts() == old(self).ts(),
                postfix_at(old(self).ts(), old(self).at(), old(self).scope()) == postfix_rest(
                    self.ts(),
                    self.at(),
                    self.scope(),
                    node_view(node),
                ),
            decreases self.cursor.left(),
        {
            proof {
                lemma_view_kinds(self.cursor);
            }
            let index = match self.expr() {
                Ok(n) => n,
                Err(e) => {
                    return Err(e);
                },
            };
            let kind = NodeKind::Add { lhs: Box::new(node), rhs: Box::new(index) };
            let sum = match self.build(kind) {
                Ok(n) => n,
                Err(e) => {
                    return Err(e);
                },
            };
            proof {
                lemma_view_kinds(self.cursor);
            }
            match self.cursor.expect_sign("]") {
                Ok(()) => {},
                Err(e) => {
                    return Err(e);
                },
            }
            node = match self.build(NodeKind::Deref(Box::new(sum))) {
                Ok(n) => n,
                Err(e) => {
                    return Err(e);
                },
            };
        }
        proof {
            lemma_view_kinds(self.cursor);
        }
        Ok(node)
    }

    /// `+` primary, `-` primary (as `0 -` primary), `&` unary, `*` unary,
    /// or a postfix expression.
    fn unary(&mut self) -> (r: Result<Node, CompileError>)
        requires
            old(self).wf(),
        ensures
            made_expr(*old(self), *final(self), r),
            follows(unary_at(old(self).ts(), old(self).at(), old(self).scope()), r, *final(self)),
            r matches Ok(n) ==> {
                let c = old(self).cursor.cur();
                &&& c == Lexeme::Sign("-".spec_bytes()) ==> exists|x: Node|
                    node_of(#[trigger] minus_kind(x)) == Ok::<Node, ErrorKind>(n)
                &&& c == Lexeme::Sign("&".spec_bytes()) ==> n.kind is Addr
                &&& c == Lexeme::Sign("*".spec_bytes()) ==> n.kind is Deref
            },
        decreases old(self).cursor.left(), 3nat,
    {
        proof {
            lemma_view_kinds(self.cursor);
        }
        proof {
            lemma_unary_sign_texts();
        }
        if self.cursor.consume_sign("+") {
            return self.primary();
        }
        let ghost ts = self.ts();
        let ghost sc0 = self.scope();
        let ghost i0 = self.at();
        if self.cursor.consume_sign("-") {
            assert(sign_tok(ts, i0, "-".spec_bytes()));
            assert(!sign_tok(ts, i0, "+".spec_bytes()));
            let operand = match self.primary() {
                Ok(n) => n,
                Err(e) => {
                    return Err(e);
                },
            };
            assert(primary_at(ts, i0 + 1, sc0) == Some((node_view(operand), self.at(), self.scope())));
            let ghost x = node_view(operand);
            assert(unary_at(ts, i0, sc0) == then_node(
                build_v(KindView::Sub(Box::new(num_v(0)), Box::new(x))),
                self.at(),
                self.scope(),
            ));
            let r = self.negate(operand);
            proof {
                if r is Ok {
                    assert(node_of(minus_kind(operand)) == Ok::<Node, ErrorKind>(r->Ok_0));
                }
                match build_v(KindView::Sub(Box::new(num_v(0)), Box::new(x))) {
                    Some(v) => {
                        assert(r is Ok);
                        assert(node_view(r->Ok_0) == v);
                    },
                    None => {
                        assert(r is Err);
                    },
                }
                assert(old(self).ts() == ts && old(self).at() == i0 && old(self).scope() == sc0);
            }
            return r;
        }
        if self.cursor.consume_sign("&") {
            let operand = match self.unary() {
                Ok(n) => n,
                Err(e) => {
                    return Err(e);
                },
            };
            return self.build(NodeKind::Addr(Box::new(operand)));
        }
        if self.cursor.consume_sign("*") {
            let operand = match self.unary() {
                Ok(n) => n,
                Err(e) => {
                    return Err(e);
                },
            };
            return self.build(NodeKind::Deref(Box::new(operand)));
        }
        self.postfix()
    }

    /// Unary expressions joined by `*` and `/`, left to right.
    fn mul(&mut self) -> (r: Result<Node, CompileError>)
        requires
            old(self).wf(),
        ensures
            made_expr(*old(self), *final(self), r),
            follows(level_at(old(self).ts(), old(self).at(), old(self).scope(), 0), r, *final(self)),
        decreases old(self).cursor.left(), 4nat,
    {
        proof {
            lemma_view_kinds(self.cursor);
        }
        let mut node = match self.unary() {
            Ok(n) => n,
            Err(e) => {
                return Err(e);
            },
        };
        loop
            invariant
                step(*old(self), *self),
                self.cursor.index > old(self).cursor.index,
                parsed_ok(node),
                node.ty is Some,
                self.ts() == old(self).ts(),
                level_at(old(self).ts(), old(self).at(), old(self).scope(), 0) == level_rest(
                    self.ts(),
                    self.at(),
                    self.scope(),
                    0,
                    node_view(node),
                ),
            decreases self.cursor.left(),
        {
            proof {
                lemma_view_kinds(self.cursor);
            }
            if self.cursor.consume_sign("*") {
                let rhs = match self.unary() {
                    Ok(n) => n,
                    Err(e) => {
                        return Err(e);
                    },
                };
                let kind = NodeKind::Mul { lhs: Box::new(node), rhs: Box::new(rhs) };
                node = match self.build(kind) {
                    Ok(n) => n,
                    Err(e) => {
                        return Err(e);
                    },
                };
            } else if self.cursor.consume_sign("/") {
                let rhs = match self.unary() {
                    Ok(n) => n,
                    Err(e) => {
                        return Err(e);
                    },
                };
                let kind = NodeKind::Div { lhs: Box::new(node), rhs: Box::new(rhs) };
                node = match self.build(kind) {
                    Ok(n) => n,
                    Err(e) => {
                        return Err(e);
                    },
                };
            } else {
                return Ok(node);
            }
        }
    }

    /// Products joined by `+` and `-`, left to right.
    fn add(&mut self) -> (r: Result<Node, CompileError>)
        requires
            old(self).wf(),
        ensures
            made_expr(*old(self), *final(self), r),
            follows(level_at(old(self).ts(), old(self).at(), old(self).scope(), 1), r, *final(self)),
        decreases old(self).cursor.left(), 5nat,
    {
        proof {
            lemma_view_kinds(self.cursor);
        }
        let mut node = match self.mul() {
            Ok(n) => n,
            Err(e) => {
                return Err(e);
            },
        };
        loop
            invariant
                step(*old(self), *self),
                self.cursor.index > old(self).cursor.index,
                parsed_ok(node),
                node.ty is Some,
                self.ts() == old(self).ts(),
                level_at(old(self).ts(), old(self).at(), old(self).scope(), 1) == level_rest(
                    self.ts(),
                    self.at(),
                    self.scope(),
                    1,
                    node_view(node),
                ),
            decreases self.cursor.left(),
        {
            proof {
                lemma_view_kinds(self.cursor);
            }
            if self.cursor.consume_sign("+") {
                let rhs = match self.mul() {
                    Ok(n) => n,
                    Err(e) => {
                        return Err(e);
                    },
                };
                let kind = NodeKind::Add { lhs: Box::new(node), rhs: Box::new(rhs) };
                node = match self.build(kind) {
                    Ok(n) => n,
                    Err(e) => {
                        return Err(e);
                    },
                };
            } else if self.cursor.consume_sign("-") {
                let rhs = match self.mul() {
                    Ok(n) => n,
                    Err(e) => {
                        return Err(e);
                    },
                };
                let kind = NodeKind::Sub { lhs: Box::new(node), rhs: Box::new(rhs) };
                node = match self.build(kind) {
                    Ok(n) => n,
                    Err(e) => {
                        return Err(e);
                    },
                };
            } else {
                return Ok(node);
            }
        }
    }

    /// Sums compared by `<`, `<=`, `>`, `>=`; `a > b` is read as `b < a`,
    /// and `a >= b` as `b <= a`.
    fn relational(&mut self) -> (r: Result<Node, CompileError>)
        requires
            old(self).wf(),
        ensures
            made_expr(*old(self), *final(self), r),
            follows(level_at(old(self).ts(), old(self).at(), old(self).scope(), 2), r, *final(self)),
        decreases old(self).cursor.left(), 6nat,
    {
        proof {
            lemma_view_kinds(self.cursor);
        }
        let mut node = match self.add() {
            Ok(n) => n,
            Err(e) => {
                return Err(e);
            },
        };
        loop
            invariant
                step(*old(self), *self),
                self.cursor.index > old(self).cursor.index,
                parsed_ok(node),
                node.ty is Some,
                self.ts() == old(self).ts(),
                level_at(old(self).ts(), old(self).at(), old(self).scope(), 2) == level_rest(
                    self.ts(),
                    self.at(),
                    self.scope(),
                    2,
                    node_view(node),
                ),
            decreases self.cursor.left(),
        {
            proof {
                lemma_view_kinds(self.cursor);
            }
            if self.cursor.consume_sign("<") {
                let rhs = match self.add() {
                    Ok(n) => n,
                    Err(e) => {
                        return Err(e);
                    },
                };
                let kind = NodeKind::LessThan { lhs: Box::new(node), rhs: Box::new(rhs) };
                node = match self.build(kind) {
                    Ok(n) => n,
                    Err(e) => {
                        return Err(e);
                    },
                };
            } else if self.cursor.consume_sign("<=") {
                let rhs = match self.add() {
                    Ok(n) => n,
                    Err(e) => {
                        return Err(e);
                    },
                };
                let kind = NodeKind::LessThanEqual { lhs: Box::new(node), rhs: Box::new(rhs) };
                node = match self.build(kind) {
                    Ok(n) => n,
                    Err(e) => {
                        return Err(e);
                    },
                };
            } else if self.cursor.consume_sign(">") {
                let rhs = match self.add() {
                    Ok(n) => n,
                    Err(e) => {
                        return Err(e);
                    },
                };
                let kind = NodeKind::LessThan { lhs: Box::new(rhs), rhs: Box::new(node) };
                node = match self.build(kind) {
                    Ok(n) => n,
                    Err(e) => {
                        return Err(e);
                    },
                };
            } else if self.cursor.consume_sign(">=") {
                let rhs = match self.add() {
                    Ok(n) => n,
                    Err(e) => {
                        return Err(e);
                    },
                };
                let kind = NodeKind::LessThanEqual { lhs: Box::new(rhs), rhs: Box::new(node) };
                node = match self.build(kind) {
                    Ok(n) => n,
                    Err(e) => {
                        return Err(e);
                    },
                };
            } else {
                return Ok(node);
            }
        }
    }

    /// Comparisons joined by `==` and `!=`, left to right.
    fn equality(&mut self) -> (r: Result<Node, CompileError>)
        requires
            old(self).wf(),
        ensures
            made_expr(*old(self), *final(self), r),
            follows(level_at(old(self).ts(), old(self).at(), old(self).scope(), 3), r, *final(self)),
        decreases old(self).cursor.left(), 7nat,
    {
        proof {
            lemma_view_kinds(self.cursor);
        }
        let mut node = match self.relational() {
            Ok(n) => n,
            Err(e) => {
                return Err(e);
            },
        };
        loop
            invariant
                step(*old(self), *self),
                self.cursor.index > old(self).cursor.index,
                parsed_ok(node),
                node.ty is Some,
                self.ts() == old(self).ts(),
                level_at(old(self).ts(), old(self).at(), old(self).scope(), 3) == level_rest(
                    self.ts(),
                    self.at(),
                    self.scope(),
                    3,
                    node_view(node),
                ),
            decreases self.cursor.left(),
        {
            proof {
                lemma_view_kinds(self.cursor);
            }
            if self.cursor.consume_sign("==") {
                let rhs = match self.relational() {
                    Ok(n) => n,
                    Err(e) => {
                        return Err(e);
                    },
                };
                let kind = NodeKind::Equal { lhs: Box::new(node), rhs: Box::new(rhs) };
                node = match self.build(kind) {
                    Ok(n) => n,
                    Err(e) => {
                        return Err(e);
                    },
                };
            } else if self.cursor.consume_sign("!=") {
                let rhs = match self.relational() {
                    Ok(n) => n,
                    Err(e) => {
                        return Err(e);
                    },
                };
                let kind = NodeKind::NotEqual { lhs: Box::new(node), rhs: Box::new(rhs) };
                node = match self.build(kind) {
                    Ok(n) => n,
                    Err(e) => {
                        return Err(e);
                    },
                };
            } else {
                return Ok(node);
            }
        }
    }

    /// An equality, or an assignment to one: `=` groups to the right.
    fn assign(&mut self) -> (r: Result<Node, CompileError>)
        requires
            old(self).wf(),
        ensures
            made_expr(*old(self), *final(self), r),
            follows(assign_at(old(self).ts(), old(self).at(), old(self).scope()), r, *final(self)),
        decreases old(self).cursor.left(), 8nat,
    {
        proof {
            lemma_view_kinds(self.cursor);
        }
        let node = match self.equality() {
            Ok(n) => n,
            Err(e) => {
                return Err(e);
            },
        };
        if self.cursor.consume_sign("=") {
            let rhs = match self.assign() {
                Ok(n) => n,
                Err(e) => {
                    return Err(e);
                },
            };
            return self.build(NodeKind::Assign { lhs: Box::new(node), rhs: Box::new(rhs) });
        }
        Ok(node)
    }

    fn expr(&mut self) -> (r: Result<Node, CompileError>)
        requires
            old(self).wf(),
        ensures
            made_expr(*old(self), *final(self), r),
            follows(expr_at(old(self).ts(), old(self).at(), old(self).scope()), r, *final(self)),
        decreases old(self).cursor.left(), 9nat,
    {
        self.assign()
    }

    /// `int` or `char` declarator with an optional initializer; a local
    /// is declared either way.
    fn declaretion(&mut self) -> (r: Result<Node, CompileError>)
        requires
            old(self).wf(),
        ensures
            made(*old(self), *final(self), r),
            r matches Ok(n) ==> n.kind is Null || n.kind is Assign,
            follows(decl_at(old(self).ts(), old(self).at(), old(self).scope()), r, *final(self)),
        decreases old(self).cursor.left(), 9nat,
    {
        proof {
            lemma_view_kinds(self.cursor);
        }
        let base = match self.cursor.read_base_type() {
            Ok(t) => t,
            Err(e) => {
                return Err(e);
            },
        };
        let name = match self.cursor.expect_ident() {
            Ok(v) => v,
            Err(e) => {
                return Err(e);
            },
        };
        let var = match self.declare(base, &name) {
            Ok(v) => v,
            Err(e) => {
                return Err(e);
            },
        };
        proof {
            lemma_view_kinds(self.cursor);
        }
        if self.cursor.consume_sign(";") {
            return self.build(NodeKind::Null);
        }
        match self.cursor.expect_sign("=") {
            Ok(()) => {},
            Err(e) => {
                return Err(e);
            },
        }
        let lhs = match self.build(NodeKind::Variable(var)) {
            Ok(n) => n,
            Err(e) => {
                return Err(e);
            },
        };
        let rhs = match self.expr() {
            Ok(n) => n,
            Err(e) => {
                return Err(e);
            },
        };
        proof {
            lemma_view_kinds(self.cursor);
        }
        match self.cursor.expect_sign(";") {
            Ok(()) => {},
            Err(e) => {
                return Err(e);
            },
        }
        self.build(NodeKind::Assign { lhs: Box::new(lhs), rhs: Box::new(rhs) })
    }

    /// An expression of a `for` header up to `end`, or nothing before it.
    fn for_clause(&mut self, end: &str) -> (r: Result<Option<Box<Node>>, CompileError>)
        requires
            old(self).wf(),
        ensures
            step(*old(self), *final(self)),
            r matches Ok(o) ==> crate::typing::opt_ok(o) && final(self).cursor.index
                > old(self).cursor.index,
            match for_clause_at(old(self).ts(), old(self).at(), old(self).scope(), end.spec_bytes()) {
                Some((o, j, sc)) => r matches Ok(x) && opt_view(x) == o && final(self).at() == j
                    && final(self).scope() == sc,
                None => r is Err,
            },
        decreases old(self).cursor.left(), 10nat,
    {
        proof {
            lemma_view_kinds(self.cursor);
        }
        if self.cursor.consume_sign(end) {
            return Ok(None);
        }
        let node = match self.expr() {
            Ok(n) => n,
            Err(e) => {
                return Err(e);
            },
        };
        proof {
            lemma_view_kinds(self.cursor);
        }
        match self.cursor.expect_sign(end) {
            Ok(()) => {},
            Err(e) => {
                return Err(e);
            },
        }
        Ok(Some(Box::new(node)))
    }

    /// The statement at a `block` token.
    #[verifier::rlimit(50)]
    fn stmt_block(&mut self) -> (r: Result<Node, CompileError>)
        requires
            old(self).wf(),
            old(self).cursor.cur() == Lexeme::Sign("{".spec_bytes()),
        ensures
            made(*old(self), *final(self), r),
            follows(block_v(old(self).ts(), old(self).at(), old(self).scope()), r, *final(self)),
        decreases old(self).cursor.left(), 10nat,
    {
        proof {
            lemma_view_kinds(self.cursor);
        }
        if self.cursor.consume_sign("{") {
            let mut nodes: Vec<Node> = Vec::new();
            assert(node_views(nodes@) == Seq::<NodeView>::empty());
            while !self.cursor.consume_sign("}")
                invariant
                    step(*old(self), *self),
                    self.cursor.index > old(self).cursor.index,
                    forall|i: int| 0 <= i < nodes@.len() ==> parsed_ok(#[trigger] nodes@[i]),
                    self.ts() == old(self).ts(),
                    block_rest(old(self).ts(), old(self).at() + 1, old(self).scope(), seq![])
                        == block_rest(self.ts(), self.at(), self.scope(), node_views(nodes@)),
                decreases self.cursor.left(),
            {
                let n = match self.stmt() {
                    Ok(n) => n,
                    Err(e) => {
                        return Err(e);
                    },
                };
                let ghost prev = nodes@;
                nodes.push(n);
                assert(nodes@.drop_last() =~= prev);
            }
            return self.build(NodeKind::Block(nodes));
        }
        Err(self.cursor.report_error(ErrorKind::ExpectedNumber))
    }

    /// The statement at a `if` token.
    #[verifier::rlimit(50)]
    fn stmt_if(&mut self) -> (r: Result<Node, CompileError>)
        requires
            old(self).wf(),
            old(self).cursor.cur() == Lexeme::Keyword(Keyword::If),
        ensures
            made(*old(self), *final(self), r),
            follows(if_v(old(self).ts(), old(self).at(), old(self).scope()), r, *final(self)),
        decreases old(self).cursor.left(), 10nat,
    {
        proof {
            lemma_view_kinds(self.cursor);
        }
        if self.cursor.consume_keyword(Keyword::If) {
            match self.cursor.expect_sign("(") {
                Ok(()) => {},
                Err(e) => {
                    return Err(e);
                },
            }
            let cond = match self.expr() {
                Ok(n) => n,
                Err(e) => {
                    return Err(e);
                },
            };
            match self.cursor.expect_sign(")") {
                Ok(()) => {},
                Err(e) => {
                    return Err(e);
                },
            }
            let then = match self.stmt() {
                Ok(n) => n,
                Err(e) => {
                    return Err(e);
                },
            };
            let els = if self.cursor.consume_keyword(Keyword::Else) {
                let e = match self.stmt() {
                    Ok(n) => n,
                    Err(e) => {
                        return Err(e);
                    },
                };
                Some(Box::new(e))
            } else {
                None
            };
            return self.build(NodeKind::If { cond: Box::new(cond), then: Box::new(then), els });
        }
        Err(self.cursor.report_error(ErrorKind::ExpectedNumber))
    }

    /// The statement at a `while` token.
    #[verifier::rlimit(50)]
    fn stmt_while(&mut self) -> (r: Result<Node, CompileError>)
        requires
            old(self).wf(),
            old(self).cursor.cur() == Lexeme::Keyword(Keyword::While),
        ensures
            made(*old(self), *final(self), r),
            follows(while_v(old(self).ts(), old(self).at(), old(self).scope()), r, *final(self)),
        decreases old(self).cursor.left(), 10nat,
    {
        proof {
            lemma_view_kinds(self.cursor);
        }
        if self.cursor.consume_keyword(Keyword::While) {
            match self.cursor.expect_sign("(") {
                Ok(()) => {},
                Err(e) => {
                    return Err(e);
                },
            }
            let cond = match self.expr() {
                Ok(n) => n,
                Err(e) => {
                    return Err(e);
                },
            };
            match self.cursor.expect_sign(")") {
                Ok(()) => {},
                Err(e) => {
                    return Err(e);
                },
            }
            let then = match self.stmt() {
                Ok(n) => n,
                Err(e) => {
                    return Err(e);
                },
            };
            return self.build(NodeKind::While { cond: Box::new(cond), then: Box::new(then) });
        }
        Err(self.cursor.report_error(ErrorKind::ExpectedNumber))
    }

    /// The statement at a `for` token.
    #[verifier::rlimit(50)]
    fn stmt_for(&mut self) -> (r: Result<Node, CompileError>)
        requires
            old(self).wf(),
            old(self).cursor.cur() == Lexeme::Keyword(Keyword::For),
        ensures
            made(*old(self), *final(self), r),
            follows(for_v(old(self).ts(), old(self).at(), old(self).scope()), r, *final(self)),
        decreases old(self).cursor.left(), 10nat,
    {
        proof {
            lemma_view_kinds(self.cursor);
        }
        if self.cursor.consume_keyword(Keyword::For) {
            match self.cursor.expect_sign("(") {
                Ok(()) => {},
                Err(e) => {
                    return Err(e);
                },
            }
            let init = match self.for_clause(";") {
                Ok(c) => c,
                Err(e) => {
                    return Err(e);
                },
            };
            let cond = match self.for_clause(";") {
                Ok(c) => c,
                Err(e) => {
                    return Err(e);
                },
            };
            let inc = match self.for_clause(")") {
                Ok(c) => c,
                Err(e) => {
                    return Err(e);
                },
            };
            let then = match self.stmt() {
                Ok(n) => n,
                Err(e) => {
                    return Err(e);
                },
            };
            return self.build(NodeKind::For { init, cond, inc, then: Box::new(then) });
        }
        Err(self.cursor.report_error(ErrorKind::ExpectedNumber))
    }

    /// The statement at a `return` token.
    #[verifier::rlimit(50)]
    fn stmt_return(&mut self) -> (r: Result<Node, CompileError>)
        requires
            old(self).wf(),
            old(self).cursor.cur() == Lexeme::Keyword(Keyword::Return),
        ensures
            made(*old(self), *final(self), r),
            follows(return_v(old(self).ts(), old(self).at(), old(self).scope()), r, *final(self)),
        decreases old(self).cursor.left(), 10nat,
    {
        proof {
            lemma_view_kinds(self.cursor);
        }
        if self.cursor.consume_keyword(Keyword::Return) {
            let value = match self.expr() {
                Ok(n) => n,
                Err(e) => {
                    return Err(e);
                },
            };
            match self.cursor.expect_sign(";") {
                Ok(()) => {},
                Err(e) => {
                    return Err(e);
                },
            }
            return self.build(NodeKind::Return(Box::new(value)));
        }
        Err(self.cursor.report_error(ErrorKind::ExpectedNumber))
    }

    /// A statement: a block, `if`, `while`, `for`, `return`, a declaration
    /// or an expression followed by `;`.
    fn stmt(&mut self) -> (r: Result<Node, CompileError>)
        requires
            old(self).wf(),
        ensures
            made(*old(self), *final(self), r),
            r matches Ok(n) ==> {
                let c = old(self).cursor.cur();
                &&& c == Lexeme::Sign("{".spec_bytes()) ==> n.kind is Block
                &&& c == Lexeme::Keyword(Keyword::If) ==> n.kind is If
                &&& c == Lexeme::Keyword(Keyword::While) ==> n.kind is While
                &&& c == Lexeme::Keyword(Keyword::For) ==> n.kind is For
                &&& c == Lexeme::Keyword(Keyword::Return) ==> n.kind is Return
                &&& c == Lexeme::Keyword(Keyword::Int) || c == Lexeme::Keyword(Keyword::Char)
                    ==> n.kind is Null || n.kind is Assign
            },
            follows(stmt_at(old(self).ts(), old(self).at(), old(self).scope()), r, *final(self)),
        decreases old(self).cursor.left(), 11nat,
    {
        proof {
            lemma_view_kinds(self.cursor);
        }
        if self.cursor.peek_sign("{") {
            return self.stmt_block();
        }
        if self.cursor.peek_keyword(Keyword::If) {
            return self.stmt_if();
        }
        if self.cursor.peek_keyword(Keyword::While) {
            return self.stmt_while();
        }
        if self.cursor.peek_keyword(Keyword::For) {
            return self.stmt_for();
        }
        if self.cursor.peek_keyword(Keyword::Return) {
            return self.stmt_return();
        }
        if self.cursor.is_typename() {
            return self.declaretion();
        }
        let node = match self.expr() {
            Ok(n) => n,
            Err(e) => {
                return Err(e);
            },
        };
        match self.cursor.expect_sign(";") {
            Ok(()) => {},
            Err(e) => {
                return Err(e);
            },
        }
        Ok(node)
    }

    /// Statements up to the closing `}` of a body.
    #[verifier::rlimit(50)]
    fn statements(&mut self) -> (r: Result<Vec<Node>, CompileError>)
        requires
            old(self).wf(),
        ensures
            step(*old(self), *final(self)),
            r matches Ok(v) ==> final(self).cursor.index > old(self).cursor.index && forall|i: int|
                0 <= i < v@.len() ==> parsed_ok(#[trigger] v@[i]),
            match block_rest(old(self).ts(), old(self).at(), old(self).scope(), seq![]) {
                Some((ns, k, sc)) => r matches Ok(v) && node_views(v@) == ns && final(self).at()
                    == k && final(self).scope() == sc,
                None => r is Err,
            },
        decreases old(self).cursor.left(), 13nat,
    {
        proof {
            lemma_view_kinds(self.cursor);
        }
        let mut nodes: Vec<Node> = Vec::new();
        assert(node_views(nodes@) == Seq::<NodeView>::empty());
        while !self.cursor.consume_sign("}")
            invariant
                step(*old(self), *self),
                forall|i: int| 0 <= i < nodes@.len() ==> parsed_ok(#[trigger] nodes@[i]),
                self.ts() == old(self).ts(),
                block_rest(old(self).ts(), old(self).at(), old(self).scope(), seq![])
                    == block_rest(self.ts(), self.at(), self.scope(), node_views(nodes@)),
            decreases self.cursor.left(),
        {
            let n = match self.stmt() {
                Ok(n) => n,
                Err(e) => {
                    return Err(e);
                },
            };
            let ghost prev = nodes@;
            nodes.push(n);
            assert(nodes@.drop_last() =~= prev);
        }
        Ok(nodes)
    }

    /// Parameters, then the body in braces, of the function `name`.
    fn function_body(&mut self, name: Vec<u8>) -> (r: Result<Function, CompileError>)
        requires
            old(self).wf(),
            old(self).locals.locals@.len() == 0,
            old(self).locals.total == 0,
        ensures
            final(self).wf(),
            final(self).cursor.tokens == old(self).cursor.tokens,
            final(self).cursor.index >= old(self).cursor.index,
            r matches Ok(f) ==> function_ok(f) && frame_ok(f) && f.name@ == name@
                && final(self).cursor.index > old(self).cursor.index,
            r matches Ok(f) ==> var_views(f.params@) == var_views(f.locals@).subrange(
                0,
                f.params@.len() as int,
            ),
            match function_at(old(self).ts(), old(self).at(), name@, old(self).scope()) {
                Some((fv, k, sc)) => r matches Ok(f) && function_view(f) == fv && final(self).at()
                    == k && final(self).scope().globals == sc.globals && final(self).scope().label
                    == sc.label,
                None => r is Err,
            },
    {
        proof {
            lemma_view_kinds(self.cursor);
            assert(var_views(self.locals.locals@) =~= Seq::<VarView>::empty());
            assert(self.scope() == Scope { locals: seq![], total: 0, ..self.scope() });
        }
        let params = match self.read_func_params() {
            Ok(p) => p,
            Err(e) => {
                return Err(e);
            },
        };
        let ghost param_locals = self.scope().locals;
        proof {
            lemma_view_kinds(self.cursor);
        }
        match self.cursor.expect_sign("{") {
            Ok(()) => {},
            Err(e) => {
                return Err(e);
            },
        }
        let nodes = match self.statements() {
            Ok(v) => v,
            Err(e) => {
                return Err(e);
            },
        };
        let stack_size = self.locals.stack_size();
        let ghost final_locals = self.scope().locals;
        let mut holder = LocalHolder::new();
        core::mem::swap(&mut holder, &mut self.locals);
        let locals = holder.dump_to_vec();
        let f = Function { name, stack_size, params, locals, nodes };
        assert(forall|i: int| 0 <= i < f.nodes@.len() ==> emittable(#[trigger] f.nodes@[i]));
        assert(var_views(f.locals@) == final_locals);
        assert(var_views(f.params@) =~= final_locals.subrange(0, f.params@.len() as int));
        Ok(f)
    }

    /// After a function's name: its definition, or `None` where no `(`
    /// follows, the name then being a global's.
    pub fn parse(ident: Vec<u8>, cursor: &mut TokenCursor<'a>, globals: &mut GlobalHolder) -> (r:
        Result<Option<Function>, CompileError>)
        requires
            old(cursor).wf(),
            old(globals).wf(),
        ensures
            final(cursor).wf(),
            final(globals).wf(),
            final(cursor).tokens == old(cursor).tokens,
            final(cursor).index >= old(cursor).index,
            r matches Ok(Some(f)) ==> function_ok(f) && frame_ok(f) && f.name@ == ident@
                && final(cursor).index > old(cursor).index,
            (old(cursor).cur() != Lexeme::Sign("(".spec_bytes())) == (r matches Ok(None)),
            r matches Ok(None) ==> *final(cursor) == *old(cursor) && *final(globals) == *old(
                globals,
            ),
            r matches Ok(Some(f)) ==> var_views(f.params@) == var_views(f.locals@).subrange(
                0,
                f.params@.len() as int,
            ),
            old(cursor).cur() == Lexeme::Sign("(".spec_bytes()) ==> match function_at(
                old(cursor).view(),
                old(cursor).index + 1,
                ident@,
                Scope {
                    locals: seq![],
                    total: 0,
                    globals: var_views(old(globals).vars@),
                    label: old(globals).label_id as nat,
                },
            ) {
                Some((fv, k, sc)) => r matches Ok(Some(f)) && function_view(f) == fv
                    && final(cursor).index == k && var_views(final(globals).vars@) == sc.globals
                    && final(globals).label_id == sc.label,
                None => r is Err,
            },
    {
        if !cursor.consume_sign("(") {
            return Ok(None);
        }
        let mut g = GlobalHolder::new();
        core::mem::swap(&mut g, globals);
        let inner = TokenCursor { tokens: cursor.tokens, index: cursor.index };
        let mut ctx = FunctionParser::new(inner, g);
        assert(var_views(ctx.locals.locals@) =~= Seq::<VarView>::empty());
        let result = ctx.function_body(ident);
        cursor.index = ctx.cursor.index;
        core::mem::swap(globals, &mut ctx.globals);
        match result {
            Ok(f) => Ok(Some(f)),
            Err(e) => Err(e),
        }
    }
}

} // verus!
