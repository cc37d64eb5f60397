//! Lowering of assignments, calls and the control-flow statements.
use crate::codegen::{
    addr_code, arg_pops, begin_code, call_code, else_code, emittable, end_code, for_test_code,
    gen_code, is_compound, labels, labels_seq, loop_code, return_code, opt_code, opt_labels,
    seq_code, store_opt_code, test_code, CodegenContext,
};
use crate::fragments::{
    emit_arg_pops, emit_call, emit_else, emit_loop, emit_return, emit_test, store,
};
use crate::listing::{
    lemma_cat2, lemma_cat3, lemma_cat4, lemma_cat5, lemma_cat6, text, Line, Listing,
};
use crate::types::{node_size, opt_size, seq_size, Node, NodeKind};
use vstd::prelude::*;

verus! {

impl CodegenContext {
    /// Emits an `if` statement.
    pub(crate) fn gen_if(&mut self, node: &Node, out: &mut Listing)
        requires
            node.kind is If,
            emittable(*node),
            old(self).label_id + labels(*node) <= u64::MAX,
            old(out).wf(),
        ensures
            final(out).wf(),
            final(out).lines@ == old(out).lines@ + gen_code(*node, old(self).label_id as nat),
            final(self).label_id == old(self).label_id + labels(*node),
        decreases 4 * node_size(*node) + 1,
    {
        let ghost id = self.label_id as nat;
        let ghost l0 = out.lines@;
        match &node.kind {
            NodeKind::If { cond, then, els } => {
                let label = self.generate_label_id();
                self.gen(cond, out);
                match els {
                    Some(e) => {
                        assert(opt_size(*els) == node_size(**e));
                        emit_test(out, "je .L.else.", label);
                        self.gen(then, out);
                        emit_else(out, label);
                        self.gen(e, out);
                        out.emit_label(".L.end.", label);
                        proof {
                            lemma_cat6(
                                l0,
                                gen_code(**cond, id + 1),
                                test_code("je .L.else.", id),
                                gen_code(**then, id + 1 + labels(**cond)),
                                else_code(id),
                                gen_code(**e, id + 1 + labels(**cond) + labels(**then)),
                                end_code(id),
                            );
                        }
                    },
                    None => {
                        emit_test(out, "je .L.end.", label);
                        self.gen(then, out);
                        out.emit_label(".L.end.", label);
                        proof {
                            lemma_cat4(
                                l0,
                                gen_code(**cond, id + 1),
                                test_code("je .L.end.", id),
                                gen_code(**then, id + 1 + labels(**cond)),
                                end_code(id),
                            );
                        }
                    },
                }
            },
            _ => {},
        }
    }

    /// Emits a `while` loop.
    pub(crate) fn gen_while(&mut self, node: &Node, out: &mut Listing)
        requires
            node.kind is While,
            emittable(*node),
            old(self).label_id + labels(*node) <= u64::MAX,
            old(out).wf(),
        ensures
            final(out).wf(),
            final(out).lines@ == old(out).lines@ + gen_code(*node, old(self).label_id as nat),
            final(self).label_id == old(self).label_id + labels(*node),
        decreases 4 * node_size(*node) + 1,
    {
        let ghost id = self.label_id as nat;
        let ghost l0 = out.lines@;
        match &node.kind {
            NodeKind::While { cond, then } => {
                let label = self.generate_label_id();
                out.emit_label(".L.begin.", label);
                self.gen(cond, out);
                emit_test(out, "je .L.end.", label);
                self.gen(then, out);
                emit_loop(out, label);
                proof {
                    lemma_cat5(
                        l0,
                        begin_code(id),
                        gen_code(**cond, id + 1),
                        test_code("je .L.end.", id),
                        gen_code(**then, id + 1 + labels(**cond)),
                        loop_code(id),
                    );
                }
            },
            _ => {},
        }
    }

    /// Emits a `for` loop.
    pub(crate) fn gen_for(&mut self, node: &Node, out: &mut Listing)
        requires
            node.kind is For,
            emittable(*node),
            old(self).label_id + labels(*node) <= u64::MAX,
            old(out).wf(),
        ensures
            final(out).wf(),
            final(out).lines@ == old(out).lines@ + gen_code(*node, old(self).label_id as nat),
            final(self).label_id == old(self).label_id + labels(*node),
        decreases 4 * node_size(*node) + 1,
    {
        let ghost id = self.label_id as nat;
        let ghost l0 = out.lines@;
        match &node.kind {
            NodeKind::For { init, cond, inc, then } => {
                let label = self.generate_label_id();
                let ghost l1 = out.lines@;
                if let Some(e) = init {
                    assert(opt_size(*init) == node_size(**e));
                    self.gen(e, out);
                }
                assert(out.lines@ =~= l1 + opt_code(*init, id + 1));
                out.emit_label(".L.begin.", label);
                let ghost l2 = out.lines@;
                if let Some(c) = cond {
                    assert(opt_size(*cond) == node_size(**c));
                    self.gen(c, out);
                    emit_test(out, "je .L.end.", label);
                    proof {
                        lemma_cat2(
                            l2,
                            gen_code(**c, id + 1 + opt_labels(*init)),
                            test_code("je .L.end.", id),
                        );
                    }
                }
                assert(out.lines@ =~= l2 + for_test_code(*cond, id + 1 + opt_labels(*init), id));
                self.gen(then, out);
                let ghost l3 = out.lines@;
                if let Some(e) = inc {
                    assert(opt_size(*inc) == node_size(**e));
                    self.gen(e, out);
                }
                assert(out.lines@ =~= l3 + opt_code(
                    *inc,
                    id + 1 + opt_labels(*init) + opt_labels(*cond) + labels(**then),
                ));
                emit_loop(out, label);
                proof {
                    lemma_cat6(
                        l0,
                        opt_code(*init, id + 1),
                        begin_code(id),
                        for_test_code(*cond, id + 1 + opt_labels(*init), id),
                        gen_code(**then, id + 1 + opt_labels(*init) + opt_labels(*cond)),
                        opt_code(
                            *inc,
                            id + 1 + opt_labels(*init) + opt_labels(*cond) + labels(**then),
                        ),
                        loop_code(id),
                    );
                }
            },
            _ => {},
        }
    }
    /// Emits an assignment: the target address, the value, the store.
    pub(crate) fn gen_assign(&mut self, node: &Node, out: &mut Listing)
        requires
            node.kind is Assign,
            emittable(*node),
            old(self).label_id + labels(*node) <= u64::MAX,
            old(out).wf(),
        ensures
            final(out).wf(),
            final(out).lines@ == old(out).lines@ + gen_code(*node, old(self).label_id as nat),
            final(self).label_id == old(self).label_id + labels(*node),
        decreases 4 * node_size(*node) + 1,
    {
        let ghost id = self.label_id as nat;
        let ghost l0 = out.lines@;
        match &node.kind {
            NodeKind::Assign { lhs, rhs } => {
                self.gen_lvar(lhs, out);
                self.gen(rhs, out);
                match &node.ty {
                    Some(t) => store(t, out),
                    None => {},
                }
                proof {
                    lemma_cat3(
                        l0,
                        addr_code(**lhs, id),
                        gen_code(**rhs, id + labels(**lhs)),
                        store_opt_code(node.ty),
                    );
                }
            },
            _ => {},
        }
    }

    /// Emits a call: the arguments, then the aligned call; the result is pushed.
    pub(crate) fn gen_call(&mut self, node: &Node, out: &mut Listing)
        requires
            node.kind is FunCall,
            emittable(*node),
            old(self).label_id + labels(*node) <= u64::MAX,
            old(out).wf(),
        ensures
            final(out).wf(),
            final(out).lines@ == old(out).lines@ + gen_code(*node, old(self).label_id as nat),
            final(self).label_id == old(self).label_id + labels(*node),
        decreases 4 * node_size(*node) + 1,
    {
        let ghost id = self.label_id as nat;
        let ghost l0 = out.lines@;
        match &node.kind {
            NodeKind::FunCall { name, args } => {
                assert(args@.subrange(0, args@.len() as int) =~= args@);
                self.gen_seq(args, args.len(), out);
                emit_arg_pops(out, args.len());
                let label = self.generate_label_id();
                emit_call(out, name, label);
                out.emit_push("rax");
                proof {
                    lemma_cat4(
                        l0,
                        seq_code(args@, id),
                        arg_pops(args@.len()),
                        call_code(name@, id + labels_seq(args@)),
                        seq![Line::Push(text("rax"))],
                    );
                }
            },
            _ => {},
        }
    }
    /// Emits the first `n` nodes of `v` one after another.
    pub(crate) fn gen_seq(&mut self, v: &Vec<Node>, n: usize, out: &mut Listing)
        requires
            n <= v@.len(),
            forall|i: int| 0 <= i < v@.len() ==> emittable(#[trigger] v@[i]),
            old(self).label_id + labels_seq(v@.subrange(0, n as int)) <= u64::MAX,
            old(out).wf(),
        ensures
            final(out).wf(),
            final(out).lines@ == old(out).lines@ + seq_code(
                v@.subrange(0, n as int),
                old(self).label_id as nat,
            ),
            final(self).label_id == old(self).label_id + labels_seq(v@.subrange(0, n as int)),
        decreases 4 * seq_size(v@.subrange(0, n as int)) + 4,
    {
        let ghost id = self.label_id as nat;
        let ghost pre = v@.subrange(0, n as int);
        if n == 0 {
            assert(out.lines@ =~= old(out).lines@ + seq_code(pre, id));
        } else {
            let ghost shorter = v@.subrange(0, n - 1);
            assert(pre.drop_last() =~= shorter);
            assert(pre.last() == v@[n - 1]);
            assert(node_size(v@[n - 1]) >= 1);
            self.gen_seq(v, n - 1, out);
            self.gen(&v[n - 1], out);
            proof {
                lemma_cat2(
                    old(out).lines@,
                    seq_code(shorter, id),
                    gen_code(v@[n - 1], id + labels_seq(shorter)),
                );
            }
        }
    }


    /// Emits the code of a statement or a call.
    pub(crate) fn gen_compound(&mut self, node: &Node, out: &mut Listing)
        requires
            is_compound(*node),
            emittable(*node),
            old(self).label_id + labels(*node) <= u64::MAX,
            old(out).wf(),
        ensures
            final(out).wf(),
            final(out).lines@ == old(out).lines@ + gen_code(*node, old(self).label_id as nat),
            final(self).label_id == old(self).label_id + labels(*node),
        decreases 4 * node_size(*node) + 2,
    {
        let ghost id = self.label_id as nat;
        let ghost l0 = out.lines@;
        match &node.kind {
            NodeKind::Return(target) => {
                self.gen(target, out);
                emit_return(out);
                proof {
                    lemma_cat2(l0, gen_code(**target, id), return_code());
                }
            },
            NodeKind::If { .. } => {
                self.gen_if(node, out);
            },
            NodeKind::While { .. } => {
                self.gen_while(node, out);
            },
            NodeKind::For { .. } => {
                self.gen_for(node, out);
            },
            NodeKind::Block(nodes) => {
                assert(nodes@.subrange(0, nodes@.len() as int) =~= nodes@);
                self.gen_seq(nodes, nodes.len(), out);
            },
            NodeKind::FunCall { .. } => {
                self.gen_call(node, out);
            },
            _ => {},
        }
    }
}

} // verus!
