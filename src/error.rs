//! Compile errors: what went wrong, and where in the source.
use crate::listing::put_str;
use crate::listing::put;
use crate::listing::text;
use crate::tokenizer::{keyword_str, keyword_text, Keyword};
use vstd::prelude::*;
use vstd::string::StringSliceAdditionalSpecFns;

verus! {

/// The kinds of errors, all fatal.
#[derive(Debug, PartialEq, Eq)]
pub enum ErrorKind {
    /// No token starts at the offset.
    Tokenize,
    /// The sign given was expected.
    ExpectedSign(Vec<u8>),
    /// The keyword given was expected.
    ExpectedKeyword(Keyword),
    ExpectedNumber,
    ExpectedIdent,
    /// A name that no local or global declares.
    UndefinedVariable(Vec<u8>),
    /// The target of `=` or `&` does not designate a location.
    NotLvalue,
    /// Assignment to a whole array.
    AssignToArray,
    /// A pointer or array on the right of `+`, or on the right of `-`.
    PointerOperand,
    /// `*` applied to a value that is no pointer or array.
    NotDereferenceable,
    /// `&` or `sizeof` applied to a statement.
    NoType,
    /// A parameter of another size than 1 or 8 bytes.
    ParamSize,
    /// More than six parameters or call arguments.
    TooManyArgs,
    /// A type or frame larger than 32 bits can count.
    TooLarge,
}

/// An error, and the byte offset of the source it is reported at.
#[derive(Debug, PartialEq, Eq)]
pub struct CompileError {
    pub kind: ErrorKind,
    pub index: usize,
}

/// The message text of an error of kind `kind`.
pub open spec fn message_text(kind: ErrorKind) -> Seq<u8> {
    match kind {
        ErrorKind::Tokenize => text("トークナイズ出来ません。"),
        ErrorKind::ExpectedSign(s) => text("'") + s@ + text("' ではありません"),
        ErrorKind::ExpectedKeyword(k) => text("'") + keyword_text(k) + text("' ではありません"),
        ErrorKind::ExpectedNumber => text("数ではありません"),
        ErrorKind::ExpectedIdent => text("識別子ではありません"),
        ErrorKind::UndefinedVariable(name) => text("未定義の変数 \"") + name@ + text(
            "\" を参照しました。",
        ),
        ErrorKind::NotLvalue => text("左辺値ではありません"),
        ErrorKind::AssignToArray => text("配列に代入できません"),
        ErrorKind::PointerOperand => text("ポインタや配列を右辺値に指定できません"),
        ErrorKind::NotDereferenceable => text("デリファレンスできない型です"),
        ErrorKind::NoType => text("型が不明です"),
        ErrorKind::ParamSize => text("引数の型の大きさが 1 でも 8 でもありません"),
        ErrorKind::TooManyArgs => text("引数が多すぎます"),
        ErrorKind::TooLarge => text("大きすぎます"),
    }
}

/// Appends the message of `kind`.
fn put_message(out: &mut Vec<u8>, kind: &ErrorKind)
    ensures
        final(out)@ == old(out)@ + message_text(*kind),
{
    let ghost start = out@;
    match kind {
        ErrorKind::Tokenize => put_str(out, "トークナイズ出来ません。"),
        ErrorKind::ExpectedSign(s) => {
            put_str(out, "'");
            put(out, s.as_slice());
            put_str(out, "' ではありません");
        },
        ErrorKind::ExpectedKeyword(k) => {
            put_str(out, "'");
            put_str(out, keyword_str(*k));
            put_str(out, "' ではありません");
        },
        ErrorKind::ExpectedNumber => put_str(out, "数ではありません"),
        ErrorKind::ExpectedIdent => put_str(out, "識別子ではありません"),
        ErrorKind::UndefinedVariable(name) => {
            put_str(out, "未定義の変数 \"");
            put(out, name.as_slice());
            put_str(out, "\" を参照しました。");
        },
        ErrorKind::NotLvalue => put_str(out, "左辺値ではありません"),
        ErrorKind::AssignToArray => put_str(out, "配列に代入できません"),
        ErrorKind::PointerOperand => put_str(out, "ポインタや配列を右辺値に指定できません"),
        ErrorKind::NotDereferenceable => put_str(out, "デリファレンスできない型です"),
        ErrorKind::NoType => put_str(out, "型が不明です"),
        ErrorKind::ParamSize => put_str(out, "引数の型の大きさが 1 でも 8 でもありません"),
        ErrorKind::TooManyArgs => put_str(out, "引数が多すぎます"),
        ErrorKind::TooLarge => put_str(out, "大きすぎます"),
    }
    assert(out@ =~= start + message_text(*kind));
}

/// `n` spaces.
pub open spec fn spaces(n: nat) -> Seq<u8> {
    Seq::new(n, |i: int| 32u8)
}

impl CompileError {
    /// The diagnostic: the source, then a caret under the offending byte
    /// followed by the message.
    pub fn render(&self, source: &str) -> (r: Vec<u8>)
        ensures
            r@ == source.spec_bytes() + seq![10u8] + spaces(self.index as nat) + seq![94u8, 32u8]
                + message_text(self.kind) + seq![10u8],
    {
        let mut out: Vec<u8> = Vec::new();
        put_str(&mut out, source);
        out.push(10u8);
        let ghost head = out@;
        let mut i: usize = 0;
        while i < self.index
            invariant
                i <= self.index,
                out@ == head + spaces(i as nat),
            decreases self.index - i,
        {
            out.push(32u8);
            i = i + 1;
            assert(out@ =~= head + spaces(i as nat));
        }
        out.push(94u8);
        out.push(32u8);
        let ghost caret = out@;
        put_message(&mut out, &self.kind);
        out.push(10u8);
        assert(head =~= source.spec_bytes() + seq![10u8]);
        assert(out@ =~= source.spec_bytes() + seq![10u8] + spaces(self.index as nat) + seq![
            94u8,
            32u8,
        ] + message_text(self.kind) + seq![10u8]);
        out
    }
}

} // verus!
