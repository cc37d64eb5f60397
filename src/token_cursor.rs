//! A cursor over the token sequence with one token of lookahead.
use crate::error::{CompileError, ErrorKind};
use crate::listing::put;
use crate::tokenizer::{bytes_eq, tokens_wf, view_tokens, Keyword, Lexeme, Token, TokenKind};
use crate::types::Type;
use vstd::prelude::*;
use vstd::string::StringSliceAdditionalSpecFns;

verus! {

/// Whether token `i` is the sign `s`.
pub open spec fn sign_tok(ts: Seq<(Lexeme, nat)>, i: int, s: Seq<u8>) -> bool {
    0 <= i < ts.len() && ts[i].0 == Lexeme::Sign(s)
}

/// The type after a run of `*` at `i`, each a pointer to what came before,
/// and the position after the run.
pub open spec fn pointers_at(ts: Seq<(Lexeme, nat)>, i: int, t: Type) -> (Type, int)
    decreases ts.len() - i,
{
    if sign_tok(ts, i, "*".spec_bytes()) {
        pointers_at(ts, i + 1, Type::Pointer(Box::new(t)))
    } else {
        (t, i)
    }
}

/// A base type at `i`: `char` or `int`, then pointers.
pub open spec fn base_type_at(ts: Seq<(Lexeme, nat)>, i: int) -> Option<(Type, int)> {
    if 0 <= i < ts.len() && ts[i].0 == Lexeme::Keyword(Keyword::Char) {
        Some(pointers_at(ts, i + 1, Type::Char))
    } else if 0 <= i < ts.len() && ts[i].0 == Lexeme::Keyword(Keyword::Int) {
        Some(pointers_at(ts, i + 1, Type::Int))
    } else {
        None
    }
}

/// The type `ty` with the dimensions `[n1]...[nm]` at `i` applied, `n1`
/// outermost, and the position after them; `None` where a dimension is
/// malformed or a size exceeds 32 bits.
pub open spec fn suffix_at(ts: Seq<(Lexeme, nat)>, i: int, ty: Type) -> Option<(Type, int)>
    decreases ts.len() - i,
{
    if !sign_tok(ts, i, "[".spec_bytes()) {
        Some((ty, i))
    } else if i + 2 < ts.len() && ts[i + 1].0 is Number && ts[i + 2].0 == Lexeme::Sign(
        "]".spec_bytes(),
    ) {
        let n = ts[i + 1].0->Number_0;
        match suffix_at(ts, i + 3, ty) {
            Some((inner, j)) => if inner.spec_size() * n <= u32::MAX {
                Some((Type::Array(Box::new(inner), n), j))
            } else {
                None
            },
            None => None,
        }
    } else {
        None
    }
}

/// The token values of a cursor are those of its tokens.
pub proof fn lemma_view_kinds(c: TokenCursor)
    ensures
        c.view().len() == c.tokens@.len(),
        forall|k: int| 0 <= k < c.tokens@.len() ==> #[trigger] c.view()[k] == c.tokens@[k]@,
        c.index < c.tokens@.len() ==> c.view()[c.index as int].0 == c.cur(),
{
}

/// The tokens and the position of the current one.
pub struct TokenCursor<'a> {
    pub tokens: &'a Vec<Token>,
    pub index: usize,
}

/// A copy of a byte string.
pub fn copy_bytes(v: &Vec<u8>) -> (r: Vec<u8>)
    ensures
        r@ == v@,
{
    let mut r: Vec<u8> = Vec::new();
    put(&mut r, v.as_slice());
    assert(r@ =~= v@);
    r
}

impl<'a> TokenCursor<'a> {
    /// The tokens end with their only `Eof`, and the cursor stands on one.
    pub open spec fn wf(&self) -> bool {
        &&& tokens_wf(self.view())
        &&& self.index < self.tokens@.len()
    }

    pub open spec fn view(&self) -> Seq<(Lexeme, nat)> {
        view_tokens(self.tokens@)
    }

    /// The current token's kind.
    pub open spec fn cur(&self) -> Lexeme {
        self.tokens@[self.index as int].kind@
    }

    /// Tokens left before `Eof`: what each consumption takes one from.
    pub open spec fn left(&self) -> nat {
        (self.tokens@.len() - 1 - self.index) as nat
    }

    pub fn new(tokens: &'a Vec<Token>) -> (r: TokenCursor<'a>)
        requires
            tokens_wf(view_tokens(tokens@)),
        ensures
            r.wf(),
            r.tokens == tokens,
            r.index == 0,
    {
        TokenCursor { tokens, index: 0 }
    }

    pub fn current(&self) -> (r: &Token)
        requires
            self.wf(),
        ensures
            *r == self.tokens@[self.index as int],
    {
        &self.tokens[self.index]
    }

    /// The token before the current one (the first token at the start).
    pub fn previous(&self) -> (r: &Token)
        requires
            self.wf(),
        ensures
            self.index > 0 ==> *r == self.tokens@[self.index - 1],
            self.index == 0 ==> *r == self.tokens@[0],
    {
        if self.index > 0 {
            &self.tokens[self.index - 1]
        } else {
            &self.tokens[0]
        }
    }

    fn seek(&mut self)
        requires
            old(self).wf(),
            !(old(self).cur() is Eof),
        ensures
            final(self).wf(),
            final(self).tokens == old(self).tokens,
            final(self).index == old(self).index + 1,
    {
        proof {
            let ts = self.view();
            assert(ts[self.index as int].0 == self.cur());
            assert(ts.last() == ts[ts.len() - 1]);
        }
        let last = self.tokens.len() - 1;
        if self.index < last {
            self.index = self.index + 1;
        }
    }

    /// Whether tokens other than `Eof` are left.
    pub fn remains(&self) -> (r: bool)
        requires
            self.wf(),
        ensures
            r == !(self.cur() is Eof),
            r == (self.left() > 0),
    {
        proof {
            let ts = self.view();
            assert(ts[self.index as int].0 == self.cur());
        }
        match self.current().kind {
            TokenKind::Eof => false,
            _ => true,
        }
    }

    /// The error `kind` at the current token.
    pub fn report_error(&self, kind: ErrorKind) -> (r: CompileError)
        requires
            self.wf(),
        ensures
            r.kind == kind,
            r.index == self.tokens@[self.index as int].index,
    {
        self.current().report_error(kind)
    }

    /// Moves past the current token where it is the sign `sign`.
    pub fn consume_sign(&mut self, sign: &str) -> (r: bool)
        requires
            old(self).wf(),
        ensures
            final(self).wf(),
            final(self).tokens == old(self).tokens,
            r == (old(self).cur() == Lexeme::Sign(sign.spec_bytes())),
            final(self).index == old(self).index + if r {
                1int
            } else {
                0int
            },
    {
        let hit = match &self.current().kind {
            TokenKind::Sign(s) => bytes_eq(s.as_slice(), sign.as_bytes()),
            _ => false,
        };
        if hit {
            self.seek();
        }
        hit
    }

    /// Moves past the current token where it is the keyword `keyword`.
    pub fn consume_keyword(&mut self, keyword: Keyword) -> (r: bool)
        requires
            old(self).wf(),
        ensures
            final(self).wf(),
            final(self).tokens == old(self).tokens,
            r == (old(self).cur() == Lexeme::Keyword(keyword)),
            final(self).index == old(self).index + if r {
                1int
            } else {
                0int
            },
    {
        let hit = match &self.current().kind {
            TokenKind::Keyword(k) => *k == keyword,
            _ => false,
        };
        if hit {
            self.seek();
        }
        hit
    }

    /// The identifier here, moving past it.
    pub fn consume_ident(&mut self) -> (r: Option<Vec<u8>>)
        requires
            old(self).wf(),
        ensures
            final(self).wf(),
            final(self).tokens == old(self).tokens,
            match old(self).cur() {
                Lexeme::Ident(name) => r matches Some(v) && v@ == name && final(self).index
                    == old(self).index + 1,
                _ => r is None && final(self).index == old(self).index,
            },
    {
        let r = match &self.current().kind {
            TokenKind::Ident(c) => Some(copy_bytes(c)),
            _ => None,
        };
        if r.is_some() {
            self.seek();
        }
        r
    }

    /// The string literal here, moving past it.
    pub fn consume_str(&mut self) -> (r: Option<Vec<u8>>)
        requires
            old(self).wf(),
        ensures
            final(self).wf(),
            final(self).tokens == old(self).tokens,
            match old(self).cur() {
                Lexeme::Str(body) => r matches Some(v) && v@ == body && final(self).index
                    == old(self).index + 1,
                _ => r is None && final(self).index == old(self).index,
            },
    {
        let r = match &self.current().kind {
            TokenKind::Str(c) => Some(copy_bytes(c)),
            _ => None,
        };
        if r.is_some() {
            self.seek();
        }
        r
    }

    pub fn expect_keyword(&mut self, keyword: Keyword) -> (r: Result<(), CompileError>)
        requires
            old(self).wf(),
        ensures
            final(self).wf(),
            final(self).tokens == old(self).tokens,
            r is Err ==> final(self).index == old(self).index,
            old(self).cur() == Lexeme::Keyword(keyword) ==> r is Ok && final(self).index
                == old(self).index + 1,
            old(self).cur() != Lexeme::Keyword(keyword) ==> (r matches Err(e) && e.kind
                == ErrorKind::ExpectedKeyword(keyword) && e.index == old(self).tokens@[old(
                self,
            ).index as int].index),
    {
        if self.consume_keyword(keyword) {
            return Ok(());
        }
        Err(self.report_error(ErrorKind::ExpectedKeyword(keyword)))
    }

    pub fn expect_sign(&mut self, op: &str) -> (r: Result<(), CompileError>)
        requires
            old(self).wf(),
        ensures
            final(self).wf(),
            final(self).tokens == old(self).tokens,
            r is Err ==> final(self).index == old(self).index,
            old(self).cur() == Lexeme::Sign(op.spec_bytes()) ==> r is Ok && final(self).index
                == old(self).index + 1,
            old(self).cur() != Lexeme::Sign(op.spec_bytes()) ==> (r matches Err(e) && (e.kind
                matches ErrorKind::ExpectedSign(v) && v@ == op.spec_bytes()) && e.index
                == old(self).tokens@[old(self).index as int].index),
    {
        if self.consume_sign(op) {
            return Ok(());
        }
        let mut v: Vec<u8> = Vec::new();
        put(&mut v, op.as_bytes());
        Err(self.report_error(ErrorKind::ExpectedSign(v)))
    }

    pub fn expect_number(&mut self) -> (r: Result<u32, CompileError>)
        requires
            old(self).wf(),
        ensures
            final(self).wf(),
            final(self).tokens == old(self).tokens,
            r is Err ==> final(self).index == old(self).index,
            match old(self).cur() {
                Lexeme::Number(n) => r == Ok::<u32, CompileError>(n) && final(self).index
                    == old(self).index + 1,
                _ => r matches Err(e) && e.kind == ErrorKind::ExpectedNumber && e.index
                    == old(self).tokens@[old(self).index as int].index,
            },
    {
        match self.current().kind {
            TokenKind::Number(n) => {
                self.seek();
                Ok(n)
            },
            _ => Err(self.report_error(ErrorKind::ExpectedNumber)),
        }
    }

    pub fn expect_ident(&mut self) -> (r: Result<Vec<u8>, CompileError>)
        requires
            old(self).wf(),
        ensures
            final(self).wf(),
            final(self).tokens == old(self).tokens,
            r is Err ==> final(self).index == old(self).index,
            match old(self).cur() {
                Lexeme::Ident(name) => r matches Ok(v) && v@ == name && final(self).index
                    == old(self).index + 1,
                _ => r matches Err(e) && e.kind == ErrorKind::ExpectedIdent && e.index
                    == old(self).tokens@[old(self).index as int].index,
            },
    {
        match self.consume_ident() {
            Some(v) => Ok(v),
            None => Err(self.report_error(ErrorKind::ExpectedIdent)),
        }
    }

    /// Whether the current token is the sign `sign`, consuming nothing.
    pub fn peek_sign(&self, sign: &str) -> (r: bool)
        requires
            self.wf(),
        ensures
            r == (self.cur() == Lexeme::Sign(sign.spec_bytes())),
    {
        match &self.current().kind {
            TokenKind::Sign(s) => bytes_eq(s.as_slice(), sign.as_bytes()),
            _ => false,
        }
    }

    /// Whether the current token is the keyword `keyword`, consuming nothing.
    pub fn peek_keyword(&self, keyword: Keyword) -> (r: bool)
        requires
            self.wf(),
        ensures
            r == (self.cur() == Lexeme::Keyword(keyword)),
    {
        match &self.current().kind {
            TokenKind::Keyword(k) => *k == keyword,
            _ => false,
        }
    }

    /// Whether the current token starts a type: `int` or `char`.
    pub fn is_typename(&self) -> (r: bool)
        requires
            self.wf(),
        ensures
            r == (self.cur() == Lexeme::Keyword(Keyword::Int) || self.cur() == Lexeme::Keyword(
                Keyword::Char,
            )),
    {
        match self.current().kind {
            TokenKind::Keyword(Keyword::Char) | TokenKind::Keyword(Keyword::Int) => true,
            _ => false,
        }
    }

    /// Reads `int` or `char`, then a run of `*`, each making a pointer to
    /// what came before.
    pub fn read_base_type(&mut self) -> (r: Result<Type, CompileError>)
        requires
            old(self).wf(),
        ensures
            final(self).wf(),
            final(self).tokens == old(self).tokens,
            final(self).index >= old(self).index,
            match base_type_at(old(self).view(), old(self).index as int) {
                Some((t, j)) => r == Ok::<Type, CompileError>(t) && final(self).index == j,
                None => r is Err && final(self).index == old(self).index,
            },
            r matches Ok(t) ==> t.valid() && final(self).index > old(self).index,
            r matches Err(e) ==> e.kind == ErrorKind::ExpectedKeyword(Keyword::Int) && e.index
                == old(self).tokens@[old(self).index as int].index,
    {
        let ghost ts = self.view();
        let start = self.index;
        let mut ty = if self.consume_keyword(Keyword::Char) {
            Type::Char
        } else {
            match self.expect_keyword(Keyword::Int) {
                Ok(()) => {},
                Err(e) => {
                    return Err(e);
                },
            }
            Type::Int
        };
        assert(ts[start as int].0 == old(self).cur());
        while self.consume_sign("*")
            invariant
                self.wf(),
                self.tokens == old(self).tokens,
                ts == self.view(),
                self.index > old(self).index,
                ty.valid(),
                base_type_at(ts, start as int) == Some(pointers_at(ts, self.index as int, ty)),
            decreases self.left(),
        {
            assert(ts[self.index - 1].0 == Lexeme::Sign("*".spec_bytes()));
            ty = Type::Pointer(Box::new(ty));
        }
        assert(ts[self.index as int].0 == self.cur());
        Ok(ty)
    }

    /// Reads the array dimensions `[N]...` after a declared name; the first
    /// is the outermost.
    pub fn read_type_suffix(&mut self, ty: Type) -> (r: Result<Type, CompileError>)
        requires
            old(self).wf(),
            ty.valid(),
        ensures
            final(self).wf(),
            final(self).tokens == old(self).tokens,
            final(self).index >= old(self).index,
            match suffix_at(old(self).view(), old(self).index as int, ty) {
                Some((t, j)) => r == Ok::<Type, CompileError>(t) && final(self).index == j,
                None => r is Err,
            },
            r matches Ok(t) ==> t.valid(),
        decreases old(self).left(),
    {
        let ghost ts = self.view();
        let ghost i = self.index as int;
        proof {
            assert(ts[i].0 == self.cur());
            if i + 2 < ts.len() {
                assert(ts[i + 1].0 == self.tokens@[i + 1].kind@);
                assert(ts[i + 2].0 == self.tokens@[i + 2].kind@);
            }
        }
        if !self.consume_sign("[") {
            return Ok(ty);
        }
        assert(ts[i + 1].0 == self.cur());
        let size = match self.expect_number() {
            Ok(n) => n,
            Err(e) => {
                return Err(e);
            },
        };
        assert(ts[i + 2].0 == self.cur());
        match self.expect_sign("]") {
            Ok(()) => {},
            Err(e) => {
                return Err(e);
            },
        }
        let inner = match self.read_type_suffix(ty) {
            Ok(t) => t,
            Err(e) => {
                return Err(e);
            },
        };
        let el = inner.size() as u64;
        assert(el * (size as u64) <= 4294967295u64 * 4294967295u64) by (nonlinear_arith)
            requires
                el <= 4294967295u64,
                size <= 4294967295u32,
        ;
        if el * (size as u64) > 4294967295 {
            return Err(self.report_error(ErrorKind::TooLarge));
        }
        Ok(Type::Array(Box::new(inner), size))
    }
}

} // verus!
