//! Assembly text: a model of the emitted lines and the helpers that
//! append them, byte for byte, to an output buffer.
use vstd::prelude::*;
use vstd::string::StringSliceAdditionalSpecFns;

verus! {

pub open spec fn tab() -> Seq<u8> {
    seq![9u8]
}

pub open spec fn newline() -> Seq<u8> {
    seq![10u8]
}

/// One line of the listing. The payload is the text after the mnemonic
/// (`Push`, `Pop`) or the whole text of the line without indent and newline.
pub enum Line {
    /// `push <operand>`: grows the machine stack by 8 bytes.
    Push(Seq<u8>),
    /// `pop <register>`: shrinks the machine stack by 8 bytes.
    Pop(Seq<u8>),
    /// An instruction that leaves `rsp` where it was, or restores it on a
    /// path that ends there.
    Instr(Seq<u8>),
    /// A label definition, `<name>:`.
    Label(Seq<u8>),
    /// An unindented directive.
    Directive(Seq<u8>),
}

pub open spec fn render_line(l: Line) -> Seq<u8> {
    match l {
        Line::Push(x) => tab() + "push ".spec_bytes() + x + newline(),
        Line::Pop(x) => tab() + "pop ".spec_bytes() + x + newline(),
        Line::Instr(x) => tab() + x + newline(),
        Line::Label(x) => x + seq![58u8] + newline(),
        Line::Directive(x) => x + newline(),
    }
}

/// The text of a sequence of lines.
pub open spec fn render(ls: Seq<Line>) -> Seq<u8>
    decreases ls.len(),
{
    if ls.len() == 0 {
        seq![]
    } else {
        render(ls.drop_last()) + render_line(ls.last())
    }
}

/// Net growth of the machine stack, in 8-byte slots, over straight-line code.
pub open spec fn stack_effect(ls: Seq<Line>) -> int
    decreases ls.len(),
{
    if ls.len() == 0 {
        0
    } else {
        stack_effect(ls.drop_last()) + line_effect(ls.last())
    }
}

/// Stack growth of one line.
pub open spec fn line_effect(l: Line) -> int {
    match l {
        Line::Push(_) => 1,
        Line::Pop(_) => -1,
        _ => 0,
    }
}

pub broadcast proof fn lemma_effect_one(l: Line)
    ensures
        #[trigger] stack_effect(seq![l]) == line_effect(l),
{
    assert(seq![l].drop_last() =~= Seq::<Line>::empty());
    assert(stack_effect(Seq::<Line>::empty()) == 0);
}

pub broadcast proof fn lemma_effect_concat(a: Seq<Line>, b: Seq<Line>)
    ensures
        #[trigger] stack_effect(a + b) == stack_effect(a) + stack_effect(b),
    decreases b.len(),
{
    if b.len() == 0 {
        assert(a + b =~= a);
    } else {
        lemma_effect_concat(a, b.drop_last());
        assert((a + b).drop_last() =~= a + b.drop_last());
    }
}


/// Decimal digits of `n`, most significant first, without leading zeros.
pub open spec fn decimal(n: nat) -> Seq<u8>
    decreases n,
{
    if n < 10 {
        seq![(48 + n) as u8]
    } else {
        decimal(n / 10) + seq![(48 + n % 10) as u8]
    }
}

/// Appends the bytes of `s` to `out`.
pub fn put(out: &mut Vec<u8>, s: &[u8])
    ensures
        final(out)@ == old(out)@ + s@,
{
    let mut i: usize = 0;
    while i < s.len()
        invariant
            i <= s@.len(),
            out@ == old(out)@ + s@.subrange(0, i as int),
        decreases s@.len() - i,
    {
        out.push(s[i]);
        i = i + 1;
        assert(s@.subrange(0, i as int) =~= s@.subrange(0, i - 1) + seq![s@[i - 1]]);
    }
    assert(s@.subrange(0, s@.len() as int) =~= s@);
}

/// Appends the text of `s` to `out`.
pub fn put_str(out: &mut Vec<u8>, s: &str)
    ensures
        final(out)@ == old(out)@ + s.spec_bytes(),
{
    put(out, s.as_bytes());
}

/// Appends the decimal form of `n`.
pub fn put_decimal(out: &mut Vec<u8>, n: u64)
    ensures
        final(out)@ == old(out)@ + decimal(n as nat),
    decreases n,
{
    if n >= 10 {
        put_decimal(out, n / 10);
    }
    out.push((48 + n % 10) as u8);
    assert(final(out)@ =~= old(out)@ + decimal(n as nat));
}

} // verus!

verus! {

pub open spec fn text(s: &str) -> Seq<u8> {
    s.spec_bytes()
}

pub proof fn lemma_render_push(ls: Seq<Line>, l: Line)
    ensures
        render(ls.push(l)) == render(ls) + render_line(l),
{
    assert(ls.push(l).drop_last() =~= ls);
}

/// Assembly text under construction, with the lines it is made of.
pub struct Listing {
    pub text: Vec<u8>,
    pub lines: Ghost<Seq<Line>>,
}

impl Listing {
    pub open spec fn wf(&self) -> bool {
        self.text@ == render(self.lines@)
    }

    pub fn new() -> (r: Listing)
        ensures
            r.wf(),
            r.lines@ == Seq::<Line>::empty(),
    {
        Listing { text: Vec::new(), lines: Ghost(Seq::empty()) }
    }

    /// Appends `t`, the text of `line`.
    fn push_line(&mut self, t: &Vec<u8>, Ghost(line): Ghost<Line>)
        requires
            old(self).wf(),
            t@ == render_line(line),
        ensures
            final(self).wf(),
            final(self).lines@ == old(self).lines@ + seq![line],
    {
        put(&mut self.text, t.as_slice());
        proof {
            lemma_render_push(self.lines@, line);
            assert(self.lines@.push(line) =~= self.lines@ + seq![line]);
            self.lines = Ghost(self.lines@ + seq![line]);
        }
    }

    /// Appends the indented instruction `s`.
    pub fn emit(&mut self, s: &str)
        requires
            old(self).wf(),
        ensures
            final(self).wf(),
            final(self).lines@ == old(self).lines@ + seq![Line::Instr(text(s))],
    {
        let mut t: Vec<u8> = Vec::new();
        t.push(9u8);
        put_str(&mut t, s);
        t.push(10u8);
        assert(t@ =~= render_line(Line::Instr(text(s))));
        self.push_line(&t, Ghost(Line::Instr(text(s))));
    }

    /// Appends the indented instruction `s` followed by the decimal form of `n`.
    pub fn emit_num(&mut self, s: &str, n: u64)
        requires
            old(self).wf(),
        ensures
            final(self).wf(),
            final(self).lines@ == old(self).lines@ + seq![Line::Instr(text(s) + decimal(n as nat))],
    {
        let mut t: Vec<u8> = Vec::new();
        t.push(9u8);
        put_str(&mut t, s);
        put_decimal(&mut t, n);
        t.push(10u8);
        assert(t@ =~= render_line(Line::Instr(text(s) + decimal(n as nat))));
        self.push_line(&t, Ghost(Line::Instr(text(s) + decimal(n as nat))));
    }

    /// Appends the indented instruction `s` followed by `name`.
    pub fn emit_name(&mut self, s: &str, name: &Vec<u8>)
        requires
            old(self).wf(),
        ensures
            final(self).wf(),
            final(self).lines@ == old(self).lines@ + seq![Line::Instr(text(s) + name@)],
    {
        let mut t: Vec<u8> = Vec::new();
        t.push(9u8);
        put_str(&mut t, s);
        put(&mut t, name.as_slice());
        t.push(10u8);
        assert(t@ =~= render_line(Line::Instr(text(s) + name@)));
        self.push_line(&t, Ghost(Line::Instr(text(s) + name@)));
    }

    /// Appends the indented instruction `s`, the decimal form of `n`, then `tail`.
    pub fn emit_num_tail(&mut self, s: &str, n: u64, tail: &Vec<u8>)
        requires
            old(self).wf(),
        ensures
            final(self).wf(),
            final(self).lines@ == old(self).lines@ + seq![Line::Instr(text(s) + decimal(n as nat) + tail@)],
    {
        let mut t: Vec<u8> = Vec::new();
        t.push(9u8);
        put_str(&mut t, s);
        put_decimal(&mut t, n);
        put(&mut t, tail.as_slice());
        t.push(10u8);
        assert(t@ =~= render_line(Line::Instr(text(s) + decimal(n as nat) + tail@)));
        self.push_line(&t, Ghost(Line::Instr(text(s) + decimal(n as nat) + tail@)));
    }

    /// Appends `push <s>`.
    pub fn emit_push(&mut self, s: &str)
        requires
            old(self).wf(),
        ensures
            final(self).wf(),
            final(self).lines@ == old(self).lines@ + seq![Line::Push(text(s))],
    {
        let mut t: Vec<u8> = Vec::new();
        t.push(9u8);
        put_str(&mut t, "push ");
        put_str(&mut t, s);
        t.push(10u8);
        assert(t@ =~= render_line(Line::Push(text(s))));
        self.push_line(&t, Ghost(Line::Push(text(s))));
    }

    /// Appends `pop <s>`.
    pub fn emit_pop(&mut self, s: &str)
        requires
            old(self).wf(),
        ensures
            final(self).wf(),
            final(self).lines@ == old(self).lines@ + seq![Line::Pop(text(s))],
    {
        let mut t: Vec<u8> = Vec::new();
        t.push(9u8);
        put_str(&mut t, "pop ");
        put_str(&mut t, s);
        t.push(10u8);
        assert(t@ =~= render_line(Line::Pop(text(s))));
        self.push_line(&t, Ghost(Line::Pop(text(s))));
    }

    /// Appends `push <n>`.
    pub fn emit_push_num(&mut self, n: u64)
        requires
            old(self).wf(),
        ensures
            final(self).wf(),
            final(self).lines@ == old(self).lines@ + seq![Line::Push(decimal(n as nat))],
    {
        let mut t: Vec<u8> = Vec::new();
        t.push(9u8);
        put_str(&mut t, "push ");
        put_decimal(&mut t, n);
        t.push(10u8);
        assert(t@ =~= render_line(Line::Push(decimal(n as nat))));
        self.push_line(&t, Ghost(Line::Push(decimal(n as nat))));
    }

    /// Appends `push <s><name>`.
    pub fn emit_push_name(&mut self, s: &str, name: &Vec<u8>)
        requires
            old(self).wf(),
        ensures
            final(self).wf(),
            final(self).lines@ == old(self).lines@ + seq![Line::Push(text(s) + name@)],
    {
        let mut t: Vec<u8> = Vec::new();
        t.push(9u8);
        put_str(&mut t, "push ");
        put_str(&mut t, s);
        put(&mut t, name.as_slice());
        t.push(10u8);
        assert(t@ =~= render_line(Line::Push(text(s) + name@)));
        self.push_line(&t, Ghost(Line::Push(text(s) + name@)));
    }

    /// Appends the label definition `<s><n>:`.
    pub fn emit_label(&mut self, s: &str, n: u64)
        requires
            old(self).wf(),
        ensures
            final(self).wf(),
            final(self).lines@ == old(self).lines@ + seq![Line::Label(text(s) + decimal(n as nat))],
    {
        let mut t: Vec<u8> = Vec::new();
        put_str(&mut t, s);
        put_decimal(&mut t, n);
        t.push(58u8);
        t.push(10u8);
        assert(t@ =~= render_line(Line::Label(text(s) + decimal(n as nat))));
        self.push_line(&t, Ghost(Line::Label(text(s) + decimal(n as nat))));
    }

    /// Appends the label definition `<name>:`.
    pub fn emit_name_label(&mut self, name: &Vec<u8>)
        requires
            old(self).wf(),
        ensures
            final(self).wf(),
            final(self).lines@ == old(self).lines@ + seq![Line::Label(name@)],
    {
        let mut t: Vec<u8> = Vec::new();
        put(&mut t, name.as_slice());
        t.push(58u8);
        t.push(10u8);
        assert(t@ =~= render_line(Line::Label(name@)));
        self.push_line(&t, Ghost(Line::Label(name@)));
    }

    /// Appends the directive `<s><name>`.
    pub fn emit_directive(&mut self, s: &str, name: &Vec<u8>)
        requires
            old(self).wf(),
        ensures
            final(self).wf(),
            final(self).lines@ == old(self).lines@ + seq![Line::Directive(text(s) + name@)],
    {
        let mut t: Vec<u8> = Vec::new();
        put_str(&mut t, s);
        put(&mut t, name.as_slice());
        t.push(10u8);
        assert(t@ =~= render_line(Line::Directive(text(s) + name@)));
        self.push_line(&t, Ghost(Line::Directive(text(s) + name@)));
    }
}

} // verus!

verus! {

pub proof fn lemma_cat2(l0: Seq<Line>, a: Seq<Line>, b: Seq<Line>)
    ensures
        l0 + a + b == l0 + (a + b),
{
    assert(l0 + a + b =~= l0 + (a + b));
}

pub proof fn lemma_cat3(l0: Seq<Line>, a: Seq<Line>, b: Seq<Line>, c: Seq<Line>)
    ensures
        l0 + a + b + c == l0 + (a + b + c),
{
    assert(l0 + a + b + c =~= l0 + (a + b + c));
}

pub proof fn lemma_cat4(l0: Seq<Line>, a: Seq<Line>, b: Seq<Line>, c: Seq<Line>, d: Seq<Line>)
    ensures
        l0 + a + b + c + d == l0 + (a + b + c + d),
{
    assert(l0 + a + b + c + d =~= l0 + (a + b + c + d));
}

pub proof fn lemma_cat5(
    l0: Seq<Line>,
    a: Seq<Line>,
    b: Seq<Line>,
    c: Seq<Line>,
    d: Seq<Line>,
    e: Seq<Line>,
)
    ensures
        l0 + a + b + c + d + e == l0 + (a + b + c + d + e),
{
    assert(l0 + a + b + c + d + e =~= l0 + (a + b + c + d + e));
}

pub proof fn lemma_cat6(
    l0: Seq<Line>,
    a: Seq<Line>,
    b: Seq<Line>,
    c: Seq<Line>,
    d: Seq<Line>,
    e: Seq<Line>,
    f: Seq<Line>,
)
    ensures
        l0 + a + b + c + d + e + f == l0 + (a + b + c + d + e + f),
{
    assert(l0 + a + b + c + d + e + f =~= l0 + (a + b + c + d + e + f));
}

} // verus!

verus! {

/// The bytes of the one-byte signs that start a unary expression.
pub proof fn lemma_unary_sign_texts()
    ensures
        text("+") == seq![43u8],
        text("-") == seq![45u8],
        text("&") == seq![38u8],
        text("*") == seq![42u8],
        text("+") != text("-"),
        text("+") != text("&"),
        text("+") != text("*"),
        text("-") != text("&"),
        text("-") != text("*"),
        text("&") != text("*"),
{
    reveal_strlit("+");
    reveal_strlit("-");
    reveal_strlit("&");
    reveal_strlit("*");
    broadcast use vstd::string::is_ascii_spec_bytes;

    assert(vstd::string::is_ascii("+"));
    assert(vstd::string::is_ascii("-"));
    assert(vstd::string::is_ascii("&"));
    assert(vstd::string::is_ascii("*"));
    assert(text("+") =~= seq![43u8]);
    assert(text("-") =~= seq![45u8]);
    assert(text("&") =~= seq![38u8]);
    assert(text("*") =~= seq![42u8]);
    assert(text("+")[0] != text("-")[0]);
    assert(text("+")[0] != text("&")[0]);
    assert(text("+")[0] != text("*")[0]);
    assert(text("-")[0] != text("&")[0]);
    assert(text("-")[0] != text("*")[0]);
    assert(text("&")[0] != text("*")[0]);
}

} // verus!
