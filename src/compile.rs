//! The whole pipeline: source text to tokens, to a typed tree, to
//! assembly text.
use crate::codegen::{labels, labels_seq};
use crate::emitter::{codegen, function_labels, functions_labels, program_ok, program_text};
use crate::error::{CompileError, ErrorKind};
use crate::grammar::{program_of, program_view};
use crate::parse::{parse, program_parsed};
use crate::tokenizer::{lemma_lex_wf, lex, tokenize};
use crate::types::{node_size, opt_size, seq_size, Function, Node, NodeKind, Program};
use vstd::prelude::*;
use vstd::string::StringSliceAdditionalSpecFns;

verus! {

fn add_counts(a: u64, b: u64) -> (r: Option<u64>)
    ensures
        r matches Some(s) ==> s == a + b,
        r is None ==> a + b > u64::MAX,
{
    a.checked_add(b)
}

/// How many label suffixes emitting `n` takes, where that fits in 64 bits.
pub fn count_labels(n: &Node) -> (r: Option<u64>)
    ensures
        r matches Some(k) ==> k == labels(*n),
        r is None ==> labels(*n) > u64::MAX,
    decreases 2 * node_size(*n) + 1,
{
    match &n.kind {
        NodeKind::Add { lhs, rhs } | NodeKind::Sub { lhs, rhs } | NodeKind::Mul { lhs, rhs }
        | NodeKind::Div { lhs, rhs } | NodeKind::Equal { lhs, rhs } | NodeKind::NotEqual {
            lhs,
            rhs,
        } | NodeKind::LessThan { lhs, rhs } | NodeKind::LessThanEqual { lhs, rhs }
        | NodeKind::Assign { lhs, rhs } => match (count_labels(lhs), count_labels(rhs)) {
            (Some(a), Some(b)) => add_counts(a, b),
            _ => None,
        },
        NodeKind::Return(t) | NodeKind::Addr(t) | NodeKind::Deref(t) => count_labels(t),
        NodeKind::If { cond, then, els } => {
            let e = match els {
                Some(e) => {
                    assert(opt_size(*els) == node_size(**e));
                    count_labels(e)
                },
                None => Some(0),
            };
            match (count_labels(cond), count_labels(then), e) {
                (Some(a), Some(b), Some(c)) => match add_counts(a, b) {
                    Some(ab) => match add_counts(ab, c) {
                        Some(abc) => add_counts(abc, 1),
                        None => None,
                    },
                    None => None,
                },
                _ => None,
            }
        },
        NodeKind::While { cond, then } => match (count_labels(cond), count_labels(then)) {
            (Some(a), Some(b)) => match add_counts(a, b) {
                Some(ab) => add_counts(ab, 1),
                None => None,
            },
            _ => None,
        },
        NodeKind::For { init, cond, inc, then } => {
            let a = match init {
                Some(e) => {
                    assert(opt_size(*init) == node_size(**e));
                    count_labels(e)
                },
                None => Some(0),
            };
            let b = match cond {
                Some(e) => {
                    assert(opt_size(*cond) == node_size(**e));
                    count_labels(e)
                },
                None => Some(0),
            };
            let c = match inc {
                Some(e) => {
                    assert(opt_size(*inc) == node_size(**e));
                    count_labels(e)
                },
                None => Some(0),
            };
            match (a, b, c, count_labels(then)) {
                (Some(a), Some(b), Some(c), Some(d)) => match add_counts(a, b) {
                    Some(ab) => match add_counts(ab, c) {
                        Some(abc) => match add_counts(abc, d) {
                            Some(abcd) => add_counts(abcd, 1),
                            None => None,
                        },
                        None => None,
                    },
                    None => None,
                },
                _ => None,
            }
        },
        NodeKind::Block(v) => {
            assert(v@.subrange(0, v@.len() as int) =~= v@);
            count_seq_labels(v, v.len())
        },
        NodeKind::FunCall { args, .. } => {
            assert(args@.subrange(0, args@.len() as int) =~= args@);
            match count_seq_labels(args, args.len()) {
                Some(a) => add_counts(a, 1),
                None => None,
            }
        },
        _ => Some(0),
    }
}

/// The label count of the first `k` nodes of `v`.
pub fn count_seq_labels(v: &Vec<Node>, k: usize) -> (r: Option<u64>)
    requires
        k <= v@.len(),
    ensures
        r matches Some(c) ==> c == labels_seq(v@.subrange(0, k as int)),
        r is None ==> labels_seq(v@.subrange(0, k as int)) > u64::MAX,
    decreases 2 * seq_size(v@.subrange(0, k as int)) + 2,
{
    if k == 0 {
        return Some(0);
    }
    let ghost pre = v@.subrange(0, k as int);
    let ghost shorter = v@.subrange(0, k - 1);
    assert(pre.drop_last() =~= shorter);
    assert(pre.last() == v@[k - 1]);
    assert(node_size(v@[k - 1]) >= 1);
    match (count_seq_labels(v, k - 1), count_labels(&v[k - 1])) {
        (Some(a), Some(b)) => add_counts(a, b),
        _ => None,
    }
}

/// The label count of a whole program, where it fits in 64 bits.
pub fn count_program_labels(p: &Program) -> (r: Option<u64>)
    ensures
        r matches Some(c) ==> c == functions_labels(p.functions@),
        r is None ==> functions_labels(p.functions@) > u64::MAX,
{
    let fs = &p.functions;
    let mut total: u64 = 0;
    let mut i: usize = 0;
    assert(fs@.subrange(0, 0) =~= Seq::<Function>::empty());
    while i < fs.len()
        invariant
            i <= fs@.len(),
            fs@ == p.functions@,
            total == functions_labels(fs@.subrange(0, i as int)),
        decreases fs@.len() - i,
    {
        let f = &fs[i];
        assert(f.nodes@.subrange(0, f.nodes@.len() as int) =~= f.nodes@);
        let ghost next = fs@.subrange(0, i + 1);
        assert(next.drop_last() =~= fs@.subrange(0, i as int));
        assert(next.last() == fs@[i as int]);
        assert(functions_labels(next) == total + function_labels(fs@[i as int]));
        match count_seq_labels(&f.nodes, f.nodes.len()) {
            Some(c) => match add_counts(total, c) {
                Some(t) => {
                    total = t;
                },
                None => {
                    proof {
                        lemma_functions_labels_grow(fs@, i + 1);
                        assert(functions_labels(next) > u64::MAX);
                    }
                    return None;
                },
            },
            None => {
                proof {
                    lemma_functions_labels_grow(fs@, i + 1);
                    assert(labels_seq(f.nodes@) > u64::MAX);
                    assert(functions_labels(next) > u64::MAX);
                }
                return None;
            },
        }
        i = i + 1;
    }
    assert(fs@.subrange(0, fs@.len() as int) =~= fs@);
    Some(total)
}

proof fn lemma_functions_labels_grow(fs: Seq<Function>, i: int)
    requires
        0 <= i <= fs.len(),
    ensures
        functions_labels(fs.subrange(0, i)) <= functions_labels(fs),
{
    crate::emitter::lemma_functions_labels_prefix(fs, i);
}

/// Compiles the source text of a program to its assembly listing.
pub fn compile(source: &str) -> (r: Result<Vec<u8>, CompileError>)
    ensures
        lex(source.spec_bytes(), 0) matches Err(i) ==> (r matches Err(e) && e.kind
            == ErrorKind::Tokenize && e.index == i),
        r matches Ok(text) ==> exists|p: Program|
            program_parsed(p) && program_ok(p) && text@ == program_text(p),
        lex(source.spec_bytes(), 0) matches Ok(ts) ==> match program_of(ts) {
            None => r is Err,
            Some(pv) => (r matches Ok(text) ==> exists|p: Program|
                #[trigger] program_view(p) == pv && program_parsed(p) && program_ok(p) && text@
                    == program_text(p)) && (r is Err ==> exists|p: Program|
                #[trigger] program_view(p) == pv && functions_labels(p.functions@) > u64::MAX),
        },
{
    proof {
        lemma_lex_wf(source.spec_bytes(), 0);
    }
    let tokens = match tokenize(source) {
        Ok(t) => t,
        Err(e) => {
            return Err(e);
        },
    };
    let program = match parse(&tokens) {
        Ok(p) => p,
        Err(e) => {
            return Err(e);
        },
    };
    if count_program_labels(&program).is_none() {
        return Err(CompileError { kind: ErrorKind::TooLarge, index: source.len() });
    }
    let text = codegen(&program);
    assert(program_view(program) == program_view(program));
    Ok(text)
}

} // verus!
