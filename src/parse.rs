//! The top level of a program: function definitions and global variables.
use crate::emitter::function_ok;
use crate::error::CompileError;
use crate::function_parser::{frame_ok, FunctionParser};
use crate::holders::GlobalHolder;
use crate::grammar::{
    function_view, function_views, program_at, program_of, program_view, FunctionView,
};
use crate::token_cursor::{copy_bytes, lemma_view_kinds, TokenCursor};
use crate::tokenizer::{tokens_wf, view_tokens, Token};
use crate::types::{var_view, var_views, Function, Program, VarView, Variable};
use vstd::prelude::*;

verus! {

/// A program as the parser hands it on: functions that can be lowered,
/// with their frames laid out, and globals of valid types.
pub open spec fn program_parsed(p: Program) -> bool {
    &&& forall|i: int|
        0 <= i < p.functions@.len() ==> function_ok(#[trigger] p.functions@[i]) && frame_ok(
            p.functions@[i],
        )
    &&& forall|i: int| 0 <= i < p.globals@.len() ==> (#[trigger] p.globals@[i]).ty.valid()
}

/// Function definitions and global declarations up to `Eof`.
fn program(tokens: &Vec<Token>) -> (r: Result<Program, CompileError>)
    requires
        tokens_wf(view_tokens(tokens@)),
    ensures
        r matches Ok(p) ==> program_parsed(p),
        match program_of(view_tokens(tokens@)) {
            Some(pv) => r matches Ok(p) && program_view(p) == pv,
            None => r is Err,
        },
        tokens@.len() == 1 ==> (r matches Ok(p) && p.functions@.len() == 0 && p.globals@.len()
            == 0),
{
    let mut globals = GlobalHolder::new();
    let mut functions: Vec<Function> = Vec::new();
    let mut cursor = TokenCursor::new(tokens);
    let ghost ts = view_tokens(tokens@);
    assert(view_tokens(tokens@)[0].0 == cursor.cur());
    assert(var_views(globals.vars@) =~= Seq::<VarView>::empty());
    assert(function_views(functions@) =~= Seq::<FunctionView>::empty());
    while cursor.remains()
        invariant
            ts == view_tokens(tokens@),
            ts == cursor.view(),
            program_of(ts) == program_at(
                ts,
                cursor.index as int,
                var_views(globals.vars@),
                globals.label_id as nat,
                function_views(functions@),
            ),
            cursor.wf(),
            cursor.tokens == tokens,
            globals.wf(),
            tokens@.len() == 1 ==> functions@.len() == 0 && globals.vars@.len() == 0,
            forall|i: int|
                0 <= i < functions@.len() ==> function_ok(#[trigger] functions@[i]) && frame_ok(
                    functions@[i],
                ),
        decreases cursor.left(),
    {
        proof {
            lemma_view_kinds(cursor);
        }
        let ty = match cursor.read_base_type() {
            Ok(t) => t,
            Err(e) => {
                return Err(e);
            },
        };
        let ident = match cursor.expect_ident() {
            Ok(v) => v,
            Err(e) => {
                return Err(e);
            },
        };
        proof {
            lemma_view_kinds(cursor);
        }
        match FunctionParser::parse(copy_bytes(&ident), &mut cursor, &mut globals) {
            Ok(Some(f)) => {
                let ghost prev = functions@;
                functions.push(f);
                assert(function_views(functions@) =~= function_views(prev).push(function_view(f)));
                continue ;
            },
            Ok(None) => {},
            Err(e) => {
                return Err(e);
            },
        }
        let ty = match cursor.read_type_suffix(ty) {
            Ok(t) => t,
            Err(e) => {
                return Err(e);
            },
        };
        proof {
            lemma_view_kinds(cursor);
        }
        match cursor.expect_sign(";") {
            Ok(()) => {},
            Err(e) => {
                return Err(e);
            },
        }
        let ghost gprev = globals.vars@;
        let g = Variable { name: ident, offset: 0, ty, is_local: false, content: None };
        let ghost gv = var_view(g);
        globals.push(g);
        assert(var_views(globals.vars@) =~= var_views(gprev).push(gv));
    }
    proof {
        lemma_view_kinds(cursor);
    }
    let globals = globals.dump_to_vec();
    Ok(Program { functions, globals })
}

/// The program that `tokens` spell, or the first error met.
pub fn parse(tokens: &Vec<Token>) -> (r: Result<Program, CompileError>)
    requires
        tokens_wf(view_tokens(tokens@)),
    ensures
        r matches Ok(p) ==> program_parsed(p),
        match program_of(view_tokens(tokens@)) {
            Some(pv) => r matches Ok(p) && program_view(p) == pv,
            None => r is Err,
        },
        tokens@.len() == 1 ==> (r matches Ok(p) && p.functions@.len() == 0 && p.globals@.len()
            == 0),
{
    program(tokens)
}

} // verus!
