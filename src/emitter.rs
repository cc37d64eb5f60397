//! The whole listing of a program: header, data section, then each
//! function with its prologue and epilogue.
use crate::codegen::{emittable, labels_seq, reg1, reg8, seq_code, CodegenContext};
use crate::fragments::{argreg1, argreg8};
use crate::listing::{decimal, lemma_cat2, lemma_cat4, put_str, render, text, Line, Listing};
use crate::types::{Function, Program, Variable};
use vstd::prelude::*;

verus! {

/// `.global <name>`, `<name>:`, then the frame set up for `stack_size` bytes.
pub open spec fn prologue_code(f: Function) -> Seq<Line> {
    seq![Line::Directive(text(".global ") + f.name@)] + seq![Line::Label(f.name@)] + seq![
        Line::Push(text("rbp")),
    ] + seq![Line::Instr(text("mov rbp, rsp"))] + seq![
        Line::Instr(text("sub rsp, ") + decimal(f.stack_size as nat)),
    ]
}

/// The move of argument register `i` into the slot of parameter `p`.
pub open spec fn param_line(p: Variable, i: nat) -> Line {
    Line::Instr(
        text("mov [rbp-") + decimal(p.offset as nat) + (text("], ") + if p.ty.spec_size() == 1 {
            reg1(i)
        } else {
            reg8(i)
        }),
    )
}

pub open spec fn params_code(ps: Seq<Variable>) -> Seq<Line>
    decreases ps.len(),
{
    if ps.len() == 0 {
        seq![]
    } else {
        params_code(ps.drop_last()) + seq![param_line(ps.last(), (ps.len() - 1) as nat)]
    }
}

/// The fallthrough end of a function: the last value on the stack is the
/// result.
pub open spec fn epilogue_code() -> Seq<Line> {
    seq![Line::Pop(text("rax"))] + seq![Line::Instr(text("mov rsp, rbp"))] + seq![
        Line::Pop(text("rbp")),
    ] + seq![Line::Instr(text("ret"))]
}

pub open spec fn function_code(f: Function, id: nat) -> Seq<Line> {
    prologue_code(f) + params_code(f.params@) + seq_code(f.nodes@, id) + epilogue_code()
}

pub open spec fn function_labels(f: Function) -> nat {
    labels_seq(f.nodes@)
}

pub open spec fn functions_labels(fs: Seq<Function>) -> nat
    decreases fs.len(),
{
    if fs.len() == 0 {
        0
    } else {
        functions_labels(fs.drop_last()) + function_labels(fs.last())
    }
}

/// The functions one after another, label suffixes counted on from `id`.
pub open spec fn functions_code(fs: Seq<Function>, id: nat) -> Seq<Line>
    decreases fs.len(),
{
    if fs.len() == 0 {
        seq![]
    } else {
        functions_code(fs.drop_last(), id) + function_code(
            fs.last(),
            id + functions_labels(fs.drop_last()),
        )
    }
}

/// One label and a zeroed area of the global's size, for each global.
pub open spec fn globals_code(gs: Seq<Variable>) -> Seq<Line>
    decreases gs.len(),
{
    if gs.len() == 0 {
        seq![]
    } else {
        globals_code(gs.drop_last()) + seq![Line::Label(gs.last().name@)] + seq![
            Line::Instr(text(".zero ") + decimal(gs.last().ty.spec_size())),
        ]
    }
}

/// The listing of a whole program.
pub open spec fn program_code(p: Program) -> Seq<Line> {
    seq![Line::Directive(text(".intel_syntax noprefix"))] + seq![Line::Directive(text(".data"))]
        + globals_code(p.globals@) + seq![Line::Directive(text(".text"))] + functions_code(
        p.functions@,
        0,
    )
}

/// The assembly text of a program.
pub open spec fn program_text(p: Program) -> Seq<u8> {
    render(program_code(p))
}

/// What emission needs of a function: at most six parameters, each of
/// one or eight bytes, and statements it can lower.
pub open spec fn function_ok(f: Function) -> bool {
    &&& f.params@.len() <= 6
    &&& forall|i: int|
        0 <= i < f.params@.len() ==> {
            let t = #[trigger] f.params@[i].ty;
            t.valid() && (t.spec_size() == 1 || t.spec_size() == 8)
        }
    &&& forall|i: int| 0 <= i < f.nodes@.len() ==> emittable(#[trigger] f.nodes@[i])
}

pub open spec fn program_ok(p: Program) -> bool {
    &&& forall|i: int| 0 <= i < p.functions@.len() ==> function_ok(#[trigger] p.functions@[i])
    &&& forall|i: int| 0 <= i < p.globals@.len() ==> (#[trigger] p.globals@[i]).ty.valid()
    &&& functions_labels(p.functions@) <= u64::MAX
}

pub proof fn lemma_functions_labels_prefix(fs: Seq<Function>, i: int)
    requires
        0 <= i <= fs.len(),
    ensures
        functions_labels(fs.subrange(0, i)) <= functions_labels(fs),
    decreases fs.len(),
{
    if i < fs.len() {
        assert(fs.drop_last() =~= fs.subrange(0, fs.len() - 1));
        assert(fs.subrange(0, i) =~= fs.drop_last().subrange(0, i));
        lemma_functions_labels_prefix(fs.drop_last(), i);
    } else {
        assert(fs.subrange(0, i) =~= fs);
    }
}

fn emit_prologue(f: &Function, out: &mut Listing)
    requires
        old(out).wf(),
    ensures
        final(out).wf(),
        final(out).lines@ == old(out).lines@ + prologue_code(*f),
{
    out.emit_directive(".global ", &f.name);
    out.emit_name_label(&f.name);
    out.emit_push("rbp");
    out.emit("mov rbp, rsp");
    out.emit_num("sub rsp, ", f.stack_size as u64);
    assert(out.lines@ =~= old(out).lines@ + prologue_code(*f));
}

fn emit_epilogue(out: &mut Listing)
    requires
        old(out).wf(),
    ensures
        final(out).wf(),
        final(out).lines@ == old(out).lines@ + epilogue_code(),
{
    out.emit_pop("rax");
    out.emit("mov rsp, rbp");
    out.emit_pop("rbp");
    out.emit("ret");
    assert(out.lines@ =~= old(out).lines@ + epilogue_code());
}

/// Moves the register arguments into the parameters' slots.
fn emit_params(f: &Function, out: &mut Listing)
    requires
        old(out).wf(),
        function_ok(*f),
    ensures
        final(out).wf(),
        final(out).lines@ == old(out).lines@ + params_code(f.params@),
{
    let mut i: usize = 0;
    assert(f.params@.subrange(0, 0) =~= Seq::<Variable>::empty());
    while i < f.params.len()
        invariant
            i <= f.params@.len() <= 6,
            function_ok(*f),
            out.wf(),
            out.lines@ == old(out).lines@ + params_code(f.params@.subrange(0, i as int)),
        decreases f.params@.len() - i,
    {
        let p = &f.params[i];
        let ghost t = f.params@[i as int].ty;
        assert(t.valid());
        let mut tail: Vec<u8> = Vec::new();
        put_str(&mut tail, "], ");
        let ghost prefix = tail@;
        if p.ty.size() == 1 {
            put_str(&mut tail, argreg1(i));
        } else {
            put_str(&mut tail, argreg8(i));
        }
        out.emit_num_tail("mov [rbp-", p.offset as u64, &tail);
        let ghost next = f.params@.subrange(0, i + 1);
        assert(next.drop_last() =~= f.params@.subrange(0, i as int));
        assert(next.last() == f.params@[i as int]);
        assert(out.lines@ =~= old(out).lines@ + params_code(next));
        i = i + 1;
    }
    assert(f.params@.subrange(0, f.params@.len() as int) =~= f.params@);
}

fn emit_globals(gs: &Vec<Variable>, out: &mut Listing)
    requires
        old(out).wf(),
        forall|i: int| 0 <= i < gs@.len() ==> (#[trigger] gs@[i]).ty.valid(),
    ensures
        final(out).wf(),
        final(out).lines@ == old(out).lines@ + globals_code(gs@),
{
    let mut i: usize = 0;
    assert(gs@.subrange(0, 0) =~= Seq::<Variable>::empty());
    while i < gs.len()
        invariant
            i <= gs@.len(),
            forall|j: int| 0 <= j < gs@.len() ==> (#[trigger] gs@[j]).ty.valid(),
            out.wf(),
            out.lines@ == old(out).lines@ + globals_code(gs@.subrange(0, i as int)),
        decreases gs@.len() - i,
    {
        let g = &gs[i];
        assert(gs@[i as int].ty.valid());
        out.emit_name_label(&g.name);
        out.emit_num(".zero ", g.ty.size() as u64);
        let ghost next = gs@.subrange(0, i + 1);
        assert(next.drop_last() =~= gs@.subrange(0, i as int));
        assert(next.last() == gs@[i as int]);
        assert(out.lines@ =~= old(out).lines@ + globals_code(next));
        i = i + 1;
    }
    assert(gs@.subrange(0, gs@.len() as int) =~= gs@);
}

impl CodegenContext {
    /// Emits one function: prologue, parameter moves, statements, epilogue.
    fn gen_function(&mut self, f: &Function, out: &mut Listing)
        requires
            old(out).wf(),
            function_ok(*f),
            old(self).label_id + function_labels(*f) <= u64::MAX,
        ensures
            final(out).wf(),
            final(out).lines@ == old(out).lines@ + function_code(*f, old(self).label_id as nat),
            final(self).label_id == old(self).label_id + function_labels(*f),
    {
        let ghost id = self.label_id as nat;
        let ghost l0 = out.lines@;
        emit_prologue(f, out);
        emit_params(f, out);
        assert(f.nodes@.subrange(0, f.nodes@.len() as int) =~= f.nodes@);
        self.gen_seq(&f.nodes, f.nodes.len(), out);
        emit_epilogue(out);
        proof {
            lemma_cat4(
                l0,
                prologue_code(*f),
                params_code(f.params@),
                seq_code(f.nodes@, id),
                epilogue_code(),
            );
        }
    }
}

/// The assembly listing of `program`, as text.
pub fn codegen(program: &Program) -> (r: Vec<u8>)
    requires
        program_ok(*program),
    ensures
        r@ == program_text(*program),
{
    let mut ctx = CodegenContext::new();
    let mut out = Listing::new();
    let empty: Vec<u8> = Vec::new();
    out.emit_directive(".intel_syntax noprefix", &empty);
    out.emit_directive(".data", &empty);
    emit_globals(&program.globals, &mut out);
    out.emit_directive(".text", &empty);
    let ghost l1 = out.lines@;
    let fs = &program.functions;
    let mut i: usize = 0;
    assert(fs@.subrange(0, 0) =~= Seq::<Function>::empty());
    while i < fs.len()
        invariant
            i <= fs@.len(),
            *fs == program.functions,
            program_ok(*program),
            out.wf(),
            ctx.label_id == functions_labels(fs@.subrange(0, i as int)),
            out.lines@ == l1 + functions_code(fs@.subrange(0, i as int), 0),
        decreases fs@.len() - i,
    {
        let ghost pre = fs@.subrange(0, i as int);
        let ghost next = fs@.subrange(0, i + 1);
        assert(next.drop_last() =~= pre);
        assert(next.last() == fs@[i as int]);
        proof {
            lemma_functions_labels_prefix(fs@, i + 1);
        }
        assert(function_ok(fs@[i as int]));
        ctx.gen_function(&fs[i], &mut out);
        proof {
            lemma_cat2(
                l1,
                functions_code(pre, 0),
                function_code(fs@[i as int], functions_labels(pre)),
            );
        }
        i = i + 1;
    }
    assert(fs@.subrange(0, fs@.len() as int) =~= fs@);
    let ghost e = Seq::<u8>::empty();
    assert(text(".intel_syntax noprefix") + e =~= text(".intel_syntax noprefix"));
    assert(text(".data") + e =~= text(".data"));
    assert(text(".text") + e =~= text(".text"));
    assert(out.lines@ =~= program_code(*program));
    out.text
}

} // verus!
