//! Lexical analysis: source bytes to tokens, each tagged with its offset.
use crate::error::{CompileError, ErrorKind};
use crate::listing::text;
use vstd::prelude::*;
use vstd::string::StringSliceAdditionalSpecFns;

verus! {

/// The reserved words.
#[derive(Debug, PartialEq, Eq, Structural, Clone, Copy)]
pub enum Keyword {
    Return,
    If,
    Else,
    While,
    For,
    Int,
    Char,
    SizeOf,
}

/// What a token is, with its payload.
#[derive(Debug, PartialEq, Eq)]
pub enum TokenKind {
    Number(u32),
    Sign(Vec<u8>),
    Ident(Vec<u8>),
    Keyword(Keyword),
    Str(Vec<u8>),
    Eof,
}

/// The mathematical value of a token kind.
pub enum Lexeme {
    Number(u32),
    Sign(Seq<u8>),
    Ident(Seq<u8>),
    Keyword(Keyword),
    Str(Seq<u8>),
    Eof,
}

impl View for TokenKind {
    type V = Lexeme;

    open spec fn view(&self) -> Lexeme {
        match self {
            TokenKind::Number(n) => Lexeme::Number(*n),
            TokenKind::Sign(s) => Lexeme::Sign(s@),
            TokenKind::Ident(s) => Lexeme::Ident(s@),
            TokenKind::Keyword(k) => Lexeme::Keyword(*k),
            TokenKind::Str(s) => Lexeme::Str(s@),
            TokenKind::Eof => Lexeme::Eof,
        }
    }
}

/// A token and the byte offset in the source where it starts.
#[derive(Debug)]
pub struct Token {
    pub kind: TokenKind,
    pub index: usize,
}

impl View for Token {
    type V = (Lexeme, nat);

    open spec fn view(&self) -> (Lexeme, nat) {
        (self.kind@, self.index as nat)
    }
}

pub open spec fn is_digit(b: u8) -> bool {
    48 <= b <= 57
}

/// A letter or `_`: what an identifier starts with.
pub open spec fn is_alpha(b: u8) -> bool {
    (97 <= b <= 122) || (65 <= b <= 90) || b == 95
}

pub open spec fn is_alnum(b: u8) -> bool {
    is_alpha(b) || is_digit(b)
}

/// Space, tab, line feed, vertical tab, form feed, carriage return.
pub open spec fn is_space(b: u8) -> bool {
    b == 32 || (9 <= b <= 13)
}

/// Length of the run of digits at `i`.
pub open spec fn digit_run(s: Seq<u8>, i: int) -> nat
    decreases s.len() - i,
{
    if 0 <= i < s.len() && is_digit(s[i]) {
        1 + digit_run(s, i + 1)
    } else {
        0
    }
}

/// Length of the run of letters, digits and `_` at `i`.
pub open spec fn alnum_run(s: Seq<u8>, i: int) -> nat
    decreases s.len() - i,
{
    if 0 <= i < s.len() && is_alnum(s[i]) {
        1 + alnum_run(s, i + 1)
    } else {
        0
    }
}

/// Length of the run of white space at `i`.
pub open spec fn space_run(s: Seq<u8>, i: int) -> nat
    decreases s.len() - i,
{
    if 0 <= i < s.len() && is_space(s[i]) {
        1 + space_run(s, i + 1)
    } else {
        0
    }
}

/// The number that a sequence of decimal digits denotes.
pub open spec fn digits_value(d: Seq<u8>) -> nat
    decreases d.len(),
{
    if d.len() == 0 {
        0
    } else {
        digits_value(d.drop_last()) * 10 + (d.last() - 48) as nat
    }
}

/// `==`, `!=`, `<=`, `>=`.
pub open spec fn is_sign2(a: u8, b: u8) -> bool {
    b == 61 && (a == 61 || a == 33 || a == 60 || a == 62)
}

/// `< > ( ) + - * / & = ; { } , [ ]`.
pub open spec fn is_sign1(a: u8) -> bool {
    a == 60 || a == 62 || a == 40 || a == 41 || a == 43 || a == 45 || a == 42 || a == 47 || a
        == 38 || a == 61 || a == 59 || a == 123 || a == 125 || a == 44 || a == 91 || a == 93
}

/// Length of the sign at `i`, the longer one first; 0 where none starts.
pub open spec fn sign_len(s: Seq<u8>, i: int) -> nat {
    if 0 <= i && i + 1 < s.len() && is_sign2(s[i], s[i + 1]) {
        2
    } else if 0 <= i < s.len() && is_sign1(s[i]) {
        1
    } else {
        0
    }
}

pub open spec fn keyword_text(k: Keyword) -> Seq<u8> {
    match k {
        Keyword::Return => text("return"),
        Keyword::If => text("if"),
        Keyword::Else => text("else"),
        Keyword::While => text("while"),
        Keyword::For => text("for"),
        Keyword::Int => text("int"),
        Keyword::Char => text("char"),
        Keyword::SizeOf => text("sizeof"),
    }
}

/// The keyword spelled by `w`, if any.
pub open spec fn keyword_of(w: Seq<u8>) -> Option<Keyword> {
    if w == keyword_text(Keyword::Return) {
        Some(Keyword::Return)
    } else if w == keyword_text(Keyword::If) {
        Some(Keyword::If)
    } else if w == keyword_text(Keyword::Else) {
        Some(Keyword::Else)
    } else if w == keyword_text(Keyword::While) {
        Some(Keyword::While)
    } else if w == keyword_text(Keyword::For) {
        Some(Keyword::For)
    } else if w == keyword_text(Keyword::Int) {
        Some(Keyword::Int)
    } else if w == keyword_text(Keyword::Char) {
        Some(Keyword::Char)
    } else if w == keyword_text(Keyword::SizeOf) {
        Some(Keyword::SizeOf)
    } else {
        None
    }
}

/// The word (identifier or keyword) at `i`: empty unless a letter or `_`
/// is there.
pub open spec fn word_at(s: Seq<u8>, i: int) -> Seq<u8> {
    if 0 <= i < s.len() && is_alpha(s[i]) {
        s.subrange(i, i + alnum_run(s, i))
    } else {
        seq![]
    }
}

/// Offset of the first `"` after `i`, if any.
pub open spec fn closing_quote(s: Seq<u8>, i: int) -> Option<nat>
    decreases s.len() - i,
{
    if i + 1 >= s.len() || i + 1 < 0 {
        None
    } else if s[i + 1] == 34 {
        Some((i + 1) as nat)
    } else {
        closing_quote(s, i + 1)
    }
}

/// The number literal at `i`, when digits start there and their value
/// fits in 32 bits.
pub open spec fn number_at(s: Seq<u8>, i: int) -> Option<(Lexeme, nat)> {
    let k = digit_run(s, i);
    let v = digits_value(s.subrange(i, i + k));
    if k > 0 && v <= u32::MAX {
        Some((Lexeme::Number(v as u32), k))
    } else {
        None
    }
}

pub open spec fn sign_at(s: Seq<u8>, i: int) -> Option<(Lexeme, nat)> {
    let k = sign_len(s, i);
    if k > 0 {
        Some((Lexeme::Sign(s.subrange(i, i + k)), k))
    } else {
        None
    }
}

pub open spec fn keyword_at(s: Seq<u8>, i: int) -> Option<(Lexeme, nat)> {
    let w = word_at(s, i);
    match keyword_of(w) {
        Some(k) if w.len() > 0 => Some((Lexeme::Keyword(k), w.len())),
        _ => None,
    }
}

pub open spec fn ident_at(s: Seq<u8>, i: int) -> Option<(Lexeme, nat)> {
    let w = word_at(s, i);
    if w.len() > 0 {
        Some((Lexeme::Ident(w), w.len()))
    } else {
        None
    }
}

pub open spec fn str_at(s: Seq<u8>, i: int) -> Option<(Lexeme, nat)> {
    if 0 <= i < s.len() && s[i] == 34 {
        match closing_quote(s, i) {
            Some(j) => Some((Lexeme::Str(s.subrange(i + 1, j as int)), (j - i + 1) as nat)),
            None => None,
        }
    } else {
        None
    }
}

/// The token at `i` and its length: a number, a sign, a keyword, an
/// identifier or a string literal, tried in that order.
pub open spec fn token_at(s: Seq<u8>, i: int) -> Option<(Lexeme, nat)> {
    if number_at(s, i) is Some {
        number_at(s, i)
    } else if sign_at(s, i) is Some {
        sign_at(s, i)
    } else if keyword_at(s, i) is Some {
        keyword_at(s, i)
    } else if ident_at(s, i) is Some {
        ident_at(s, i)
    } else {
        str_at(s, i)
    }
}

/// The tokens of `s` from offset `i` on, ended by `Eof` at the end of the
/// input; or the offset where no token starts.
pub open spec fn lex(s: Seq<u8>, i: nat) -> Result<Seq<(Lexeme, nat)>, nat>
    decreases s.len() - i,
{
    if i >= s.len() {
        Ok(seq![(Lexeme::Eof, s.len())])
    } else if is_space(s[i as int]) {
        if i + space_run(s, i as int) <= s.len() && space_run(s, i as int) > 0 {
            lex(s, i + space_run(s, i as int))
        } else {
            Err(i)
        }
    } else {
        match token_at(s, i as int) {
            Some((t, k)) => if k > 0 && i + k <= s.len() {
                match lex(s, i + k) {
                    Ok(rest) => Ok(seq![(t, i)] + rest),
                    Err(e) => Err(e),
                }
            } else {
                Err(i)
            },
            None => Err(i),
        }
    }
}

} // verus!

verus! {

/// The spelling of a keyword.
pub fn keyword_str(k: Keyword) -> (r: &'static str)
    ensures
        text(r) == keyword_text(k),
{
    match k {
        Keyword::Return => "return",
        Keyword::If => "if",
        Keyword::Else => "else",
        Keyword::While => "while",
        Keyword::For => "for",
        Keyword::Int => "int",
        Keyword::Char => "char",
        Keyword::SizeOf => "sizeof",
    }
}

/// Whether two byte strings are equal.
pub fn bytes_eq(a: &[u8], b: &[u8]) -> (r: bool)
    ensures
        r == (a@ == b@),
{
    if a.len() != b.len() {
        return false;
    }
    let mut i: usize = 0;
    while i < a.len()
        invariant
            a@.len() == b@.len(),
            i <= a@.len(),
            forall|j: int| 0 <= j < i ==> a@[j] == b@[j],
        decreases a@.len() - i,
    {
        if a[i] != b[i] {
            return false;
        }
        i = i + 1;
    }
    assert(a@ =~= b@);
    true
}

/// The keyword that `w` spells, if any.
pub fn lookup_keyword(w: &[u8]) -> (r: Option<Keyword>)
    ensures
        r == keyword_of(w@),
{
    if bytes_eq(w, "return".as_bytes()) {
        Some(Keyword::Return)
    } else if bytes_eq(w, "if".as_bytes()) {
        Some(Keyword::If)
    } else if bytes_eq(w, "else".as_bytes()) {
        Some(Keyword::Else)
    } else if bytes_eq(w, "while".as_bytes()) {
        Some(Keyword::While)
    } else if bytes_eq(w, "for".as_bytes()) {
        Some(Keyword::For)
    } else if bytes_eq(w, "int".as_bytes()) {
        Some(Keyword::Int)
    } else if bytes_eq(w, "char".as_bytes()) {
        Some(Keyword::Char)
    } else if bytes_eq(w, "sizeof".as_bytes()) {
        Some(Keyword::SizeOf)
    } else {
        None
    }
}

pub fn is_alpha_byte(b: u8) -> (r: bool)
    ensures
        r == is_alpha(b),
{
    (97 <= b && b <= 122) || (65 <= b && b <= 90) || b == 95
}

pub fn is_alnum_byte(b: u8) -> (r: bool)
    ensures
        r == is_alnum(b),
{
    is_alpha_byte(b) || (48 <= b && b <= 57)
}

pub fn is_space_byte(b: u8) -> (r: bool)
    ensures
        r == is_space(b),
{
    b == 32 || (9 <= b && b <= 13)
}

} // verus!

verus! {

pub proof fn lemma_space_run_bound(s: Seq<u8>, i: int)
    requires
        0 <= i <= s.len(),
    ensures
        i + space_run(s, i) <= s.len(),
    decreases s.len() - i,
{
    if i < s.len() && is_space(s[i]) {
        lemma_space_run_bound(s, i + 1);
    }
}

pub proof fn lemma_alnum_run_bound(s: Seq<u8>, i: int)
    requires
        0 <= i <= s.len(),
    ensures
        i + alnum_run(s, i) <= s.len(),
    decreases s.len() - i,
{
    if i < s.len() && is_alnum(s[i]) {
        lemma_alnum_run_bound(s, i + 1);
    }
}

/// Whether `t` stands in `s` at offset `i`.
pub open spec fn starts_with_at(s: Seq<u8>, i: int, t: Seq<u8>) -> bool {
    0 <= i && i + t.len() <= s.len() && s.subrange(i, i + t.len()) == t
}

/// The scanning state: the source bytes and the offset reached.
pub struct TokenizerContext {
    pub input: Vec<u8>,
    pub index: usize,
}

impl TokenizerContext {
    pub open spec fn wf(&self) -> bool {
        self.index <= self.input@.len()
    }

    pub fn new(input: &str) -> (r: TokenizerContext)
        ensures
            r.wf(),
            r.input@ == input.spec_bytes(),
            r.index == 0,
    {
        let mut bytes: Vec<u8> = Vec::new();
        crate::listing::put(&mut bytes, input.as_bytes());
        TokenizerContext { input: bytes, index: 0 }
    }

    /// The input not yet scanned.
    pub fn rest_input(&self) -> (r: Vec<u8>)
        requires
            self.wf(),
        ensures
            r@ == self.input@.subrange(self.index as int, self.input@.len() as int),
    {
        let mut r: Vec<u8> = Vec::new();
        let mut i: usize = self.index;
        while i < self.input.len()
            invariant
                self.index <= i <= self.input@.len(),
                r@ == self.input@.subrange(self.index as int, i as int),
            decreases self.input@.len() - i,
        {
            r.push(self.input[i]);
            i = i + 1;
            assert(r@ =~= self.input@.subrange(self.index as int, i as int));
        }
        r
    }

    /// Whether input is left.
    pub fn remains(&self) -> (r: bool)
        ensures
            r == (self.index < self.input@.len()),
    {
        self.input.len() > self.index
    }

    pub fn seek(&mut self, steps: usize)
        requires
            old(self).index + steps <= old(self).input@.len(),
        ensures
            final(self).input == old(self).input,
            final(self).index == old(self).index + steps,
    {
        let limit = self.input.len();
        if steps <= limit - self.index {
            self.index = self.index + steps;
        }
    }

    /// Skips the run of white space here; tells whether it was not empty.
    pub fn skip_whitespace(&mut self) -> (r: bool)
        requires
            old(self).wf(),
        ensures
            final(self).wf(),
            final(self).input == old(self).input,
            final(self).index == old(self).index + space_run(
                old(self).input@,
                old(self).index as int,
            ),
            r == (space_run(old(self).input@, old(self).index as int) > 0),
    {
        let ghost s = self.input@;
        let mut j: usize = self.index;
        while j < self.input.len() && is_space_byte(self.input[j])
            invariant
                self.index <= j <= s.len(),
                s == self.input@,
                space_run(s, self.index as int) == (j - self.index) + space_run(s, j as int),
            decreases s.len() - j,
        {
            j = j + 1;
        }
        let n = j - self.index;
        self.seek(n);
        n > 0
    }

    /// Consumes `s` where the rest of the input starts with it, as a sign.
    pub fn consume(&mut self, s: &str) -> (r: Option<Token>)
        requires
            old(self).wf(),
        ensures
            final(self).wf(),
            final(self).input == old(self).input,
            starts_with_at(old(self).input@, old(self).index as int, s.spec_bytes()) ==> (r matches Some(
                tok,
            ) && tok@ == (Lexeme::Sign(s.spec_bytes()), old(self).index as nat) && final(self).index
                == old(self).index + s.spec_bytes().len()),
            !starts_with_at(old(self).input@, old(self).index as int, s.spec_bytes()) ==> r is None
                && final(self).index == old(self).index,
    {
        let t = s.as_bytes();
        let n = self.input.len();
        if t.len() > n - self.index {
            return None;
        }
        let mut i: usize = 0;
        while i < t.len()
            invariant
                i <= t@.len(),
                t@ == s.spec_bytes(),
                *self == *old(self),
                self.index + t@.len() <= self.input@.len(),
                self.input@.len() == n,
                forall|j: int| 0 <= j < i ==> self.input@[self.index + j] == t@[j],
            decreases t@.len() - i,
        {
            if self.input[self.index + i] != t[i] {
                assert(self.input@.subrange(self.index as int, self.index + t@.len())[i as int]
                    != t@[i as int]);
                assert(self.input@.subrange(self.index as int, self.index + t@.len()) != t@);
                return None;
            }
            i = i + 1;
        }
        let mut v: Vec<u8> = Vec::new();
        crate::listing::put(&mut v, t);
        assert(self.input@.subrange(self.index as int, self.index + t@.len()) =~= t@);
        let token = Token { kind: TokenKind::Sign(v), index: self.index };
        self.seek(t.len());
        Some(token)
    }

    /// The sign here, the two-byte ones first.
    pub fn consume_sign(&mut self) -> (r: Option<Token>)
        requires
            old(self).wf(),
        ensures
            final(self).wf(),
            final(self).input == old(self).input,
            match sign_at(old(self).input@, old(self).index as int) {
                Some((t, k)) => r matches Some(tok) && tok@ == (t, old(self).index as nat)
                    && final(self).index == old(self).index + k,
                None => r is None && final(self).index == old(self).index,
            },
    {
        let n = self.input.len();
        let i = self.index;
        let mut k: usize = 0;
        if n > 1 && i < n - 1 {
            let a = self.input[i];
            let b = self.input[i + 1];
            if b == 61 && (a == 61 || a == 33 || a == 60 || a == 62) {
                k = 2;
            }
        }
        if k == 0 && i < n {
            let a = self.input[i];
            if a == 60 || a == 62 || a == 40 || a == 41 || a == 43 || a == 45 || a == 42 || a
                == 47 || a == 38 || a == 61 || a == 59 || a == 123 || a == 125 || a == 44 || a
                == 91 || a == 93 {
                k = 1;
            }
        }
        if k == 0 {
            return None;
        }
        let mut v: Vec<u8> = Vec::new();
        v.push(self.input[i]);
        if k == 2 {
            v.push(self.input[i + 1]);
        }
        assert(v@ =~= self.input@.subrange(i as int, i + k));
        let token = Token { kind: TokenKind::Sign(v), index: i };
        self.seek(k);
        Some(token)
    }

    /// The length of the word that starts here, 0 unless a letter or `_`
    /// is here.
    fn word_len(&self) -> (r: usize)
        requires
            self.wf(),
        ensures
            r == word_at(self.input@, self.index as int).len(),
            self.index + r <= self.input@.len(),
            r > 0 ==> word_at(self.input@, self.index as int) == self.input@.subrange(
                self.index as int,
                self.index + r,
            ),
    {
        let ghost s = self.input@;
        proof {
            lemma_alnum_run_bound(s, self.index as int);
        }
        let i = self.index;
        if i >= self.input.len() || !is_alpha_byte(self.input[i]) {
            return 0;
        }
        let mut j: usize = i;
        while j < self.input.len() && is_alnum_byte(self.input[j])
            invariant
                i <= j <= s.len(),
                s == self.input@,
                alnum_run(s, i as int) == (j - i) + alnum_run(s, j as int),
            decreases s.len() - j,
        {
            j = j + 1;
        }
        j - i
    }

    fn slice_here(&self, k: usize) -> (r: Vec<u8>)
        requires
            self.index + k <= self.input@.len(),
        ensures
            r@ == self.input@.subrange(self.index as int, self.index + k),
    {
        let n = self.input.len();
        let mut v: Vec<u8> = Vec::new();
        let mut j: usize = 0;
        while j < k
            invariant
                j <= k,
                self.index + k <= self.input@.len(),
                self.input@.len() == n,
                v@ == self.input@.subrange(self.index as int, self.index + j),
            decreases k - j,
        {
            v.push(self.input[self.index + j]);
            j = j + 1;
            assert(v@ =~= self.input@.subrange(self.index as int, self.index + j));
        }
        v
    }

    /// The keyword here: a word that spells one.
    pub fn consume_keyword(&mut self) -> (r: Option<Token>)
        requires
            old(self).wf(),
        ensures
            final(self).wf(),
            final(self).input == old(self).input,
            match keyword_at(old(self).input@, old(self).index as int) {
                Some((t, k)) => r matches Some(tok) && tok@ == (t, old(self).index as nat)
                    && final(self).index == old(self).index + k,
                None => r is None && final(self).index == old(self).index,
            },
    {
        let k = self.word_len();
        if k == 0 {
            return None;
        }
        let w = self.slice_here(k);
        match lookup_keyword(w.as_slice()) {
            Some(kw) => {
                let token = Token { kind: TokenKind::Keyword(kw), index: self.index };
                self.seek(k);
                Some(token)
            },
            None => None,
        }
    }

    /// The identifier here: a letter or `_`, then letters, digits and `_`.
    pub fn consume_ident(&mut self) -> (r: Option<Token>)
        requires
            old(self).wf(),
        ensures
            final(self).wf(),
            final(self).input == old(self).input,
            match ident_at(old(self).input@, old(self).index as int) {
                Some((t, k)) => r matches Some(tok) && tok@ == (t, old(self).index as nat)
                    && final(self).index == old(self).index + k,
                None => r is None && final(self).index == old(self).index,
            },
    {
        let k = self.word_len();
        if k == 0 {
            return None;
        }
        let w = self.slice_here(k);
        let token = Token { kind: TokenKind::Ident(w), index: self.index };
        self.seek(k);
        Some(token)
    }

    /// The string literal here: the bytes between two `"`.
    pub fn consume_str(&mut self) -> (r: Option<Token>)
        requires
            old(self).wf(),
        ensures
            final(self).wf(),
            final(self).input == old(self).input,
            match str_at(old(self).input@, old(self).index as int) {
                Some((t, k)) => r matches Some(tok) && tok@ == (t, old(self).index as nat)
                    && final(self).index == old(self).index + k,
                None => r is None && final(self).index == old(self).index,
            },
    {
        let ghost s = self.input@;
        let i = self.index;
        if i >= self.input.len() || self.input[i] != 34 {
            return None;
        }
        let mut j: usize = i + 1;
        while j < self.input.len() && self.input[j] != 34
            invariant
                i < j <= s.len(),
                s == self.input@,
                closing_quote(s, i as int) == closing_quote(s, j - 1),
            decreases s.len() - j,
        {
            j = j + 1;
        }
        if j >= self.input.len() {
            return None;
        }
        let mut v: Vec<u8> = Vec::new();
        let mut m: usize = i + 1;
        while m < j
            invariant
                i + 1 <= m <= j < s.len(),
                s == self.input@,
                v@ == s.subrange(i + 1, m as int),
            decreases j - m,
        {
            v.push(self.input[m]);
            m = m + 1;
            assert(v@ =~= s.subrange(i + 1, m as int));
        }
        let token = Token { kind: TokenKind::Str(v), index: i };
        self.seek(j + 1 - i);
        Some(token)
    }

    /// The number literal here: a run of digits whose value fits in 32 bits.
    pub fn consume_number(&mut self) -> (r: Option<Token>)
        requires
            old(self).wf(),
        ensures
            final(self).wf(),
            final(self).input == old(self).input,
            match number_at(old(self).input@, old(self).index as int) {
                Some((t, k)) => r matches Some(tok) && tok@ == (t, old(self).index as nat)
                    && final(self).index == old(self).index + k,
                None => r is None && final(self).index == old(self).index,
            },
    {
        let ghost s = self.input@;
        let i = self.index;
        let mut j: usize = i;
        let mut value: u64 = 0;
        let mut too_large = false;
        assert(s.subrange(i as int, i as int) =~= Seq::<u8>::empty());
        while j < self.input.len() && 48 <= self.input[j] && self.input[j] <= 57
            invariant
                i <= j <= s.len(),
                s == self.input@,
                digit_run(s, i as int) == (j - i) + digit_run(s, j as int),
                too_large ==> digits_value(s.subrange(i as int, j as int)) > u32::MAX,
                !too_large ==> value == digits_value(s.subrange(i as int, j as int)),
                !too_large ==> value <= u32::MAX,
            decreases s.len() - j,
        {
            let d = (self.input[j] - 48) as u64;
            let ghost prev = s.subrange(i as int, j as int);
            assert(s.subrange(i as int, j + 1).drop_last() =~= prev);
            if !too_large {
                value = value * 10 + d;
                if value > 4294967295 {
                    too_large = true;
                }
            }
            j = j + 1;
        }
        if j == i || too_large {
            return None;
        }
        let token = Token { kind: TokenKind::Number(value as u32), index: i };
        self.seek(j - i);
        Some(token)
    }

    /// The error for input where no token starts.
    pub fn report_error(&self) -> (r: CompileError)
        ensures
            r.kind == ErrorKind::Tokenize,
            r.index == self.index,
    {
        CompileError { kind: ErrorKind::Tokenize, index: self.index }
    }
}

} // verus!

verus! {

pub open spec fn view_tokens(ts: Seq<Token>) -> Seq<(Lexeme, nat)> {
    ts.map_values(|t: Token| t@)
}

/// `r` with `p` put in front of its tokens.
pub open spec fn prepend(p: Seq<(Lexeme, nat)>, r: Result<Seq<(Lexeme, nat)>, nat>) -> Result<
    Seq<(Lexeme, nat)>,
    nat,
> {
    match r {
        Ok(rest) => Ok(p + rest),
        Err(e) => Err(e),
    }
}

proof fn lemma_closing_quote_after(s: Seq<u8>, i: int)
    ensures
        closing_quote(s, i) matches Some(j) ==> j > i,
    decreases s.len() - i,
{
    if !(i + 1 >= s.len() || i + 1 < 0) && s[i + 1] != 34 {
        lemma_closing_quote_after(s, i + 1);
    }
}

proof fn lemma_token_len(s: Seq<u8>, i: int)
    ensures
        token_at(s, i) matches Some((t, k)) ==> k > 0,
{
    lemma_closing_quote_after(s, i);
}

proof fn lemma_lex_step(s: Seq<u8>, i: nat, t: Lexeme, k: nat, toks: Seq<(Lexeme, nat)>)
    requires
        i < s.len(),
        !is_space(s[i as int]),
        token_at(s, i as int) == Some((t, k)),
        k > 0,
        i + k <= s.len(),
    ensures
        prepend(toks, lex(s, i)) == prepend(toks.push((t, i)), lex(s, i + k)),
{
    match lex(s, i + k) {
        Ok(rest) => {
            assert(toks + (seq![(t, i)] + rest) =~= toks.push((t, i)) + rest);
        },
        Err(e) => {},
    }
}

/// The tokens of `input`, ended by `Eof` at its length; or the error at
/// the first offset where no token starts.
pub fn tokenize(input: &str) -> (r: Result<Vec<Token>, CompileError>)
    ensures
        match lex(input.spec_bytes(), 0) {
            Ok(ts) => r matches Ok(v) && view_tokens(v@) == ts,
            Err(i) => r matches Err(e) && e.index == i && e.kind == ErrorKind::Tokenize,
        },
{
    let mut ctx = TokenizerContext::new(input);
    let mut tokens: Vec<Token> = Vec::new();
    let ghost s = ctx.input@;
    let n = ctx.input.len();
    assert(view_tokens(tokens@) =~= Seq::<(Lexeme, nat)>::empty());
    assert(prepend(Seq::<(Lexeme, nat)>::empty(), lex(s, 0)) == lex(s, 0)) by {
        match lex(s, 0) {
            Ok(rest) => {
                assert(Seq::<(Lexeme, nat)>::empty() + rest =~= rest);
            },
            Err(e) => {},
        }
    }
    while ctx.remains()
        invariant
            ctx.wf(),
            ctx.input@ == s,
            s == input.spec_bytes(),
            n == s.len(),
            lex(s, 0) == prepend(view_tokens(tokens@), lex(s, ctx.index as nat)),
        decreases s.len() - ctx.index,
    {
        let i = ctx.index;
        let ghost before = view_tokens(tokens@);
        if ctx.skip_whitespace() {
            proof {
                lemma_space_run_bound(s, i as int);
            }
            continue;
        }
        let found = if let Some(t) = ctx.consume_number() {
            Some(t)
        } else if let Some(t) = ctx.consume_sign() {
            Some(t)
        } else if let Some(t) = ctx.consume_keyword() {
            Some(t)
        } else if let Some(t) = ctx.consume_ident() {
            Some(t)
        } else if let Some(t) = ctx.consume_str() {
            Some(t)
        } else {
            None
        };
        match found {
            Some(t) => {
                proof {
                    lemma_token_len(s, i as int);
                    lemma_lex_step(s, i as nat, t@.0, (ctx.index - i) as nat, before);
                }
                tokens.push(t);
                assert(view_tokens(tokens@) =~= before.push(t@));
            },
            None => {
                return Err(ctx.report_error());
            },
        }
    }
    let ghost before = view_tokens(tokens@);
    tokens.push(Token { kind: TokenKind::Eof, index: n });
    assert(view_tokens(tokens@) =~= before + seq![(Lexeme::Eof, n as nat)]);
    Ok(tokens)
}

} // verus!

verus! {

impl Token {
    /// The error `kind`, reported at this token.
    pub fn report_error(&self, kind: ErrorKind) -> (r: CompileError)
        ensures
            r.kind == kind,
            r.index == self.index,
    {
        CompileError { kind, index: self.index }
    }
}

/// A token sequence as the parser takes it: one `Eof`, at the end.
pub open spec fn tokens_wf(ts: Seq<(Lexeme, nat)>) -> bool {
    &&& ts.len() > 0
    &&& ts.last().0 is Eof
    &&& forall|j: int| 0 <= j < ts.len() - 1 ==> !(#[trigger] ts[j].0 is Eof)
}

proof fn lemma_token_not_eof(s: Seq<u8>, i: int)
    ensures
        token_at(s, i) matches Some((t, k)) ==> !(t is Eof),
{
}

/// What `lex` yields is a well-formed token sequence.
pub proof fn lemma_lex_wf(s: Seq<u8>, i: nat)
    ensures
        lex(s, i) matches Ok(ts) ==> tokens_wf(ts),
    decreases s.len() - i,
{
    if i >= s.len() {
    } else if is_space(s[i as int]) {
        if i + space_run(s, i as int) <= s.len() && space_run(s, i as int) > 0 {
            lemma_lex_wf(s, i + space_run(s, i as int));
        }
    } else {
        lemma_token_not_eof(s, i as int);
        match token_at(s, i as int) {
            Some((t, k)) => {
                if k > 0 && i + k <= s.len() {
                    lemma_lex_wf(s, i + k);
                    match lex(s, i + k) {
                        Ok(rest) => {
                            let ts = seq![(t, i)] + rest;
                            assert(ts.last() == rest.last());
                            assert forall|j: int| 0 <= j < ts.len() - 1 implies !(
                            #[trigger] ts[j].0 is Eof) by {
                                if j > 0 {
                                    assert(ts[j] == rest[j - 1]);
                                }
                            }
                        },
                        Err(e) => {},
                    }
                }
            },
            None => {},
        }
    }
}

} // verus!
