use crate::lexer::types::Span;
use vstd::prelude::*;

verus! {

#[derive(Debug, PartialEq, Eq)]
pub struct Error {
    pub span: Span,
    pub kind: ErrorKind,
}

#[derive(Debug, PartialEq, Eq)]
pub enum ErrorKind {
    UnexpectedChar(char),
    UnexpectedText(String),
    InvalidInt(String),
    UnterminatedString,
    InvalidEscape(char),
    UnterminatedComment,
    UnterminatedChar,
    EmptyChar,
    NonAsciiChar(char),
}

/// The content of an error kind: which variant, the character it carries
/// (if any) and the text it carries (if any).
pub struct ErrorView {
    pub tag: int,
    pub ch: char,
    pub text: Seq<char>,
}

pub open spec fn err_view(k: ErrorKind) -> ErrorView {
    match k {
        ErrorKind::UnexpectedChar(c) => ErrorView { tag: 0, ch: c, text: Seq::empty() },
        ErrorKind::UnexpectedText(s) => ErrorView { tag: 1, ch: ' ', text: s@ },
        ErrorKind::InvalidInt(s) => ErrorView { tag: 2, ch: ' ', text: s@ },
        ErrorKind::UnterminatedString => ErrorView { tag: 3, ch: ' ', text: Seq::empty() },
        ErrorKind::InvalidEscape(c) => ErrorView { tag: 4, ch: c, text: Seq::empty() },
        ErrorKind::UnterminatedComment => ErrorView { tag: 5, ch: ' ', text: Seq::empty() },
        ErrorKind::UnterminatedChar => ErrorView { tag: 6, ch: ' ', text: Seq::empty() },
        ErrorKind::EmptyChar => ErrorView { tag: 7, ch: ' ', text: Seq::empty() },
        ErrorKind::NonAsciiChar(c) => ErrorView { tag: 8, ch: c, text: Seq::empty() },
    }
}

pub open spec fn ev_char(tag: int, c: char) -> ErrorView {
    ErrorView { tag, ch: c, text: Seq::empty() }
}

pub open spec fn ev_text(tag: int, t: Seq<char>) -> ErrorView {
    ErrorView { tag, ch: ' ', text: t }
}

pub open spec fn ev_plain(tag: int) -> ErrorView {
    ErrorView { tag, ch: ' ', text: Seq::empty() }
}

} // verus!
