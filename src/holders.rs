//! The symbol tables: a function's locals, laid out in its frame, and the
//! program's globals, string literals included.
use crate::error::ErrorKind;
use crate::listing::{decimal, put_decimal, put_str, text};
use crate::token_cursor::copy_bytes;
use crate::types::{first_named, var_view, var_views, Type, VarView, Variable};
use vstd::arithmetic::div_mod::{
    lemma_fundamental_div_mod, lemma_mod_bound, lemma_mod_multiples_basic,
};
use vstd::arithmetic::mul::lemma_mul_is_commutative;
use vstd::prelude::*;

verus! {

/// Total footprint of the variables, in bytes.
pub open spec fn sizes_sum(s: Seq<Variable>) -> nat
    decreases s.len(),
{
    if s.len() == 0 {
        0
    } else {
        sizes_sum(s.drop_last()) + s.last().ty.spec_size()
    }
}

/// `n` rounded up to a multiple of `align`.
pub open spec fn align_up(n: nat, align: nat) -> nat {
    if align == 0 {
        n
    } else {
        ((n + align - 1) as int / align as int * align as int) as nat
    }
}

/// Rounds `n` up to a multiple of `align`.
pub fn align_to(n: u32, align: u32) -> (r: u32)
    requires
        align > 0,
        n + align - 1 <= u32::MAX,
    ensures
        r == align_up(n as nat, align as nat),
        r % align == 0,
        n <= r < n + align,
{
    let m = n + (align - 1);
    let q = m / align;
    proof {
        lemma_fundamental_div_mod(m as int, align as int);
        lemma_mod_bound(m as int, align as int);
        lemma_mod_multiples_basic(q as int, align as int);
        lemma_mul_is_commutative(q as int, align as int);
    }
    q * align
}

proof fn lemma_first_named_step(s: Seq<VarView>, i: int, name: Seq<u8>)
    requires
        0 <= i < s.len(),
    ensures
        first_named(s.subrange(i, s.len() as int), name) == if s[i].name == name {
            Some(s[i])
        } else {
            first_named(s.subrange(i + 1, s.len() as int), name)
        },
{
    let t = s.subrange(i, s.len() as int);
    assert(t[0] == s[i]);
    assert(t.drop_first() =~= s.subrange(i + 1, s.len() as int));
}

/// The record of a local named `name` of type `ty`, declared after
/// locals taking `total` bytes.
pub open spec fn local_view(name: Seq<u8>, ty: Type, total: nat) -> VarView {
    VarView {
        name,
        ty,
        is_local: true,
        offset: (total + ty.spec_size()) as u32,
        content: None,
    }
}

/// Whether a string literal with body `body` can be the next after `label`.
pub open spec fn literal_fits(body: Seq<u8>, label: nat) -> bool {
    body.len() + 1 <= u32::MAX && label < u32::MAX
}

/// The global record of the string literal `body`, the next after `label`.
pub open spec fn literal_view(body: Seq<u8>, label: nat) -> VarView {
    VarView {
        name: data_label(label + 1),
        ty: Type::Array(Box::new(Type::Char), (body.len() + 1) as u32),
        is_local: false,
        offset: 0,
        content: Some(body),
    }
}

/// The locals of one function: each at the running total of the sizes of
/// those declared up to it, itself included.
pub struct LocalHolder {
    pub locals: Vec<Variable>,
    pub total: u32,
}

impl LocalHolder {
    pub open spec fn wf(&self) -> bool {
        &&& self.total == sizes_sum(self.locals@)
        &&& self.total + 7 <= u32::MAX
        &&& forall|k: int|
            0 <= k < self.locals@.len() ==> {
                let v = #[trigger] self.locals@[k];
                &&& v.offset == sizes_sum(self.locals@.subrange(0, k + 1))
                &&& v.is_local
                &&& v.ty.valid()
            }
    }

    /// Whether a local is named `name`.
    pub open spec fn has(&self, name: Seq<u8>) -> bool {
        exists|k: int| 0 <= k < self.locals@.len() && (#[trigger] self.locals@[k]).name@ == name
    }

    pub fn new() -> (r: LocalHolder)
        ensures
            r.wf(),
            r.locals@.len() == 0,
    {
        LocalHolder { locals: Vec::new(), total: 0 }
    }

    /// The bytes all locals take.
    pub fn total_variable_size(&self) -> (r: u32)
        requires
            self.wf(),
        ensures
            r == sizes_sum(self.locals@),
    {
        self.total
    }

    /// The frame size: the locals' total rounded up to a multiple of 8.
    pub fn stack_size(&self) -> (r: u32)
        requires
            self.wf(),
        ensures
            r == align_up(sizes_sum(self.locals@), 8),
            r % 8 == 0,
    {
        align_to(self.total_variable_size(), 8)
    }

    /// Declares a local of type `ty` after the others.
    pub fn new_var(&mut self, name: &Vec<u8>, ty: Type) -> (r: Result<Variable, ErrorKind>)
        requires
            old(self).wf(),
            ty.valid(),
        ensures
            final(self).wf(),
            old(self).total + ty.spec_size() + 7 > u32::MAX ==> r == Err::<Variable, ErrorKind>(
                ErrorKind::TooLarge,
            ) && *final(self) == *old(self),
            old(self).total + ty.spec_size() + 7 <= u32::MAX ==> (r matches Ok(v) && var_view(v)
                == local_view(name@, ty, old(self).total as nat) && var_views(final(self).locals@)
                == var_views(old(self).locals@).push(var_view(v)) && final(self).total
                == old(self).total + ty.spec_size() && final(self).locals@ == old(
                self,
            ).locals@.push(final(self).locals@.last())),
    {
        let size = ty.size();
        if size as u64 + self.total as u64 + 7 > 4294967295 {
            return Err(ErrorKind::TooLarge);
        }
        let offset = self.total + size;
        let var = Variable { name: copy_bytes(name), ty, is_local: true, offset, content: None };
        let ghost before = self.locals@;
        let copy = var.duplicate();
        self.locals.push(var);
        self.total = offset;
        proof {
            let s = self.locals@;
            assert(s.drop_last() =~= before);
            assert forall|k: int| 0 <= k < s.len() implies {
                let v = #[trigger] s[k];
                &&& v.offset == sizes_sum(s.subrange(0, k + 1))
                &&& v.is_local
                &&& v.ty.valid()
            } by {
                if k < before.len() {
                    assert(s.subrange(0, k + 1) =~= before.subrange(0, k + 1));
                    assert(s[k] == before[k]);
                } else {
                    assert(s.subrange(0, k + 1) =~= s);
                }
            }
            assert(s =~= before.push(s.last()));
            assert(var_views(s) =~= var_views(before).push(var_view(copy)));
        }
        Ok(copy)
    }

    /// The first local named `name`.
    pub fn find(&self, name: &Vec<u8>) -> (r: Option<Variable>)
        requires
            self.wf(),
        ensures
            r is Some <==> self.has(name@),
            r matches Some(v) ==> v.is_local && v.ty.valid(),
            match first_named(var_views(self.locals@), name@) {
                Some(w) => r matches Some(v) && var_view(v) == w,
                None => r is None,
            },
    {
        let ghost vs = var_views(self.locals@);
        assert(vs.subrange(0, vs.len() as int) =~= vs);
        let mut i: usize = 0;
        while i < self.locals.len()
            invariant
                i <= self.locals@.len(),
                self.wf(),
                vs == var_views(self.locals@),
                forall|k: int| 0 <= k < i ==> (#[trigger] self.locals@[k]).name@ != name@,
                first_named(vs, name@) == first_named(vs.subrange(i as int, vs.len() as int), name@),
            decreases self.locals@.len() - i,
        {
            proof {
                lemma_first_named_step(vs, i as int, name@);
            }
            if crate::tokenizer::bytes_eq(self.locals[i].name.as_slice(), name.as_slice()) {
                let v = self.locals[i].duplicate();
                assert(self.locals@[i as int].is_local);
                return Some(v);
            }
            i = i + 1;
        }
        proof {
            assert(vs.subrange(i as int, vs.len() as int) =~= Seq::<VarView>::empty());
        }
        None
    }

    pub fn dump_to_vec(self) -> (r: Vec<Variable>)
        ensures
            r@ == self.locals@,
    {
        self.locals
    }
}

/// The globals, and the counter that names string literals.
pub struct GlobalHolder {
    pub vars: Vec<Variable>,
    pub label_id: u32,
}

/// The name of the `n`-th string literal: `.L.data.<n>`.
pub open spec fn data_label(n: nat) -> Seq<u8> {
    text(".L.data.") + decimal(n)
}

impl GlobalHolder {
    pub open spec fn wf(&self) -> bool {
        forall|k: int| 0 <= k < self.vars@.len() ==> (#[trigger] self.vars@[k]).ty.valid()
    }

    /// Whether a global is named `name`.
    pub open spec fn has(&self, name: Seq<u8>) -> bool {
        exists|k: int| 0 <= k < self.vars@.len() && (#[trigger] self.vars@[k]).name@ == name
    }

    pub fn new() -> (r: GlobalHolder)
        ensures
            r.wf(),
            r.vars@.len() == 0,
            r.label_id == 0,
    {
        GlobalHolder { vars: Vec::new(), label_id: 0 }
    }

    /// The next string literal's name.
    fn gen_label_id(&mut self) -> (r: Vec<u8>)
        requires
            old(self).label_id < u32::MAX,
        ensures
            final(self).vars == old(self).vars,
            final(self).label_id == old(self).label_id + 1,
            r@ == data_label(final(self).label_id as nat),
    {
        self.label_id = self.label_id + 1;
        let mut r: Vec<u8> = Vec::new();
        put_str(&mut r, ".L.data.");
        put_decimal(&mut r, self.label_id as u64);
        r
    }

    /// The first global named `name`.
    pub fn find_var(&self, name: &Vec<u8>) -> (r: Option<Variable>)
        requires
            self.wf(),
        ensures
            r is Some <==> self.has(name@),
            r matches Some(v) ==> v.ty.valid(),
            match first_named(var_views(self.vars@), name@) {
                Some(w) => r matches Some(v) && var_view(v) == w,
                None => r is None,
            },
    {
        let ghost vs = var_views(self.vars@);
        assert(vs.subrange(0, vs.len() as int) =~= vs);
        let mut i: usize = 0;
        while i < self.vars.len()
            invariant
                i <= self.vars@.len(),
                self.wf(),
                vs == var_views(self.vars@),
                forall|k: int| 0 <= k < i ==> (#[trigger] self.vars@[k]).name@ != name@,
                first_named(vs, name@) == first_named(vs.subrange(i as int, vs.len() as int), name@),
            decreases self.vars@.len() - i,
        {
            proof {
                lemma_first_named_step(vs, i as int, name@);
            }
            if crate::tokenizer::bytes_eq(self.vars[i].name.as_slice(), name.as_slice()) {
                return Some(self.vars[i].duplicate());
            }
            i = i + 1;
        }
        proof {
            assert(vs.subrange(i as int, vs.len() as int) =~= Seq::<VarView>::empty());
        }
        None
    }

    pub fn push(&mut self, var: Variable)
        requires
            old(self).wf(),
            var.ty.valid(),
        ensures
            final(self).wf(),
            final(self).vars@ == old(self).vars@.push(var),
            final(self).label_id == old(self).label_id,
    {
        self.vars.push(var);
    }

    /// Installs the string literal `s` as a global `char` array one byte
    /// longer than `s`, named `.L.data.<n>` with `n` the next count.
    pub fn string_literal(&mut self, s: &Vec<u8>) -> (r: Result<Variable, ErrorKind>)
        requires
            old(self).wf(),
        ensures
            final(self).wf(),
            literal_fits(s@, old(self).label_id as nat) ==> (r matches Ok(v) && var_view(v)
                == literal_view(s@, old(self).label_id as nat) && var_views(final(self).vars@)
                == var_views(old(self).vars@).push(var_view(v)) && final(self).label_id
                == old(self).label_id + 1 && v.ty.valid()),
            !literal_fits(s@, old(self).label_id as nat) ==> r == Err::<Variable, ErrorKind>(
                ErrorKind::TooLarge,
            ),
    {
        if s.len() >= 4294967295 || self.label_id == 4294967295 {
            return Err(ErrorKind::TooLarge);
        }
        let array_size = s.len() as u32 + 1;
        let ghost before = self.vars@;
        let name = self.gen_label_id();
        let var = Variable {
            ty: Type::Array(Box::new(Type::Char), array_size),
            name,
            offset: 0,
            is_local: false,
            content: Some(copy_bytes(s)),
        };
        let copy = var.duplicate();
        assert(Type::Char.valid() && Type::Char.spec_size() == 1);
        assert(var.ty.valid());
        self.vars.push(var);
        assert(var_views(self.vars@) =~= var_views(before).push(var_view(copy)));
        Ok(copy)
    }

    pub fn dump_to_vec(self) -> (r: Vec<Variable>)
        ensures
            r@ == self.vars@,
    {
        self.vars
    }
}

} // verus!
