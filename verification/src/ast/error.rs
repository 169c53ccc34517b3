use crate::lexer::display::{append_str, describe_view};
use crate::lexer::types::{kind_view, Span, Token, TokenKind};
use vstd::prelude::*;

verus! {

#[derive(Debug)]
pub struct Error {
    pub span: Span,
    pub kind: ErrorKind,
}

#[derive(Debug)]
pub enum ErrorKind {
    Unexpected { expected: String, found: TokenKind },
    UnknownType(String),
    /// The right operand of `|>` is not a call.
    PipeRhsNotCall,
}

impl Error {
    /// An error at `token`: something described by `expected` was wanted
    /// there instead.
    pub fn unexpected(token: &Token, expected: &str) -> (e: Error)
        ensures
            e.span == token.span,
            e.kind matches ErrorKind::Unexpected { expected: x, found } && x@ == expected@
                && kind_view(found) == kind_view(token.kind),
    {
        Error {
            span: token.span,
            kind: ErrorKind::Unexpected { expected: expected.to_owned(), found: token.kind.duplicate() },
        }
    }
}

/// The message for each syntax error.
pub open spec fn parse_error_message(k: ErrorKind) -> Seq<char> {
    match k {
        ErrorKind::Unexpected { expected, found } => "expected "@ + expected@ + ", found "@
            + describe_view(found),
        ErrorKind::UnknownType(name) => "unknown type: `"@ + name@ + "`"@,
        ErrorKind::PipeRhsNotCall => "the right-hand side of `|>` must be a call"@,
    }
}

impl ErrorKind {
    pub fn message(&self) -> (r: String)
        ensures
            r@ == parse_error_message(*self),
    {
        let mut s = String::new();
        match self {
            ErrorKind::Unexpected { expected, found } => {
                append_str(&mut s, "expected ");
                append_str(&mut s, expected.as_str());
                append_str(&mut s, ", found ");
                let d = found.describe();
                append_str(&mut s, d.as_str());
            },
            ErrorKind::UnknownType(name) => {
                append_str(&mut s, "unknown type: `");
                append_str(&mut s, name.as_str());
                append_str(&mut s, "`");
            },
            ErrorKind::PipeRhsNotCall => {
                append_str(&mut s, "the right-hand side of `|>` must be a call");
            },
        }
        assert(s@ =~= parse_error_message(*self));
        s
    }
}

} // verus!
