//! Errors reported by the type checker.

use crate::hir::types::{push_ty_text, ty_text, Ty, TyV};
use crate::lexer::display::{append_str, decimal, push_decimal};
use crate::lexer::types::Span;
use vstd::prelude::*;

verus! {

#[derive(Debug, PartialEq)]
pub struct Error {
    pub span: Span,
    pub kind: ErrorKind,
}

#[derive(Debug, PartialEq)]
pub enum ErrorKind {
    TypeMismatch { expected: Ty, found: Ty },
    ArityMismatch { expected: usize, found: usize },
    /// Reserved for when control-flow analysis lands.
    MissingReturn { expected: Ty },
    IllegalCast { ty: Ty },
    /// An assignment to a binding not declared `mut`.
    AssignToImmutable { name: String },
    /// `&e` where `e` is not a place.
    NotAddressable,
    /// `break` outside of any loop.
    BreakOutsideLoop,
}

/// The mathematical value of an [`ErrorKind`].
pub enum ErrorKindV {
    TypeMismatch { expected: TyV, found: TyV },
    ArityMismatch { expected: usize, found: usize },
    MissingReturn { expected: TyV },
    IllegalCast { ty: TyV },
    AssignToImmutable { name: Seq<char> },
    NotAddressable,
    BreakOutsideLoop,
}

impl View for ErrorKind {
    type V = ErrorKindV;

    open spec fn view(&self) -> ErrorKindV {
        match *self {
            ErrorKind::TypeMismatch { expected, found } => ErrorKindV::TypeMismatch {
                expected: expected@,
                found: found@,
            },
            ErrorKind::ArityMismatch { expected, found } => ErrorKindV::ArityMismatch {
                expected,
                found,
            },
            ErrorKind::MissingReturn { expected } => ErrorKindV::MissingReturn { expected: expected@ },
            ErrorKind::IllegalCast { ty } => ErrorKindV::IllegalCast { ty: ty@ },
            ErrorKind::AssignToImmutable { name } => ErrorKindV::AssignToImmutable { name: name@ },
            ErrorKind::NotAddressable => ErrorKindV::NotAddressable,
            ErrorKind::BreakOutsideLoop => ErrorKindV::BreakOutsideLoop,
        }
    }
}

/// The message for each type error.
pub open spec fn sem_error_message(k: ErrorKindV) -> Seq<char> {
    match k {
        ErrorKindV::TypeMismatch { expected, found } => "type mismatch\nexpected: "@ + ty_text(
            expected,
        ) + "\nfound: "@ + ty_text(found),
        ErrorKindV::IllegalCast { ty } => "type error\nillegal cast to : "@ + ty_text(ty),
        ErrorKindV::ArityMismatch { expected, found } => "wrong number of arguments: expected "@
            + decimal(expected as nat) + ", found "@ + decimal(found as nat),
        ErrorKindV::MissingReturn { expected } => "function body does not return a value; expected "@
            + ty_text(expected),
        ErrorKindV::AssignToImmutable { name } => "cannot assign to immutable binding `"@ + name
            + "`"@,
        ErrorKindV::NotAddressable => "cannot take the address of a value that is not a place"@,
        ErrorKindV::BreakOutsideLoop => "`break` outside of a loop"@,
    }
}

impl ErrorKind {
    pub fn message(&self) -> (r: String)
        ensures
            r@ == sem_error_message(self@),
    {
        let mut s = String::new();
        match self {
            ErrorKind::TypeMismatch { expected, found } => {
                append_str(&mut s, "type mismatch\nexpected: ");
                push_ty_text(&mut s, expected);
                append_str(&mut s, "\nfound: ");
                push_ty_text(&mut s, found);
            },
            ErrorKind::IllegalCast { ty } => {
                append_str(&mut s, "type error\nillegal cast to : ");
                push_ty_text(&mut s, ty);
            },
            ErrorKind::ArityMismatch { expected, found } => {
                append_str(&mut s, "wrong number of arguments: expected ");
                push_decimal(&mut s, *expected as u64);
                append_str(&mut s, ", found ");
                push_decimal(&mut s, *found as u64);
            },
            ErrorKind::MissingReturn { expected } => {
                append_str(&mut s, "function body does not return a value; expected ");
                push_ty_text(&mut s, expected);
            },
            ErrorKind::AssignToImmutable { name } => {
                append_str(&mut s, "cannot assign to immutable binding `");
                append_str(&mut s, name.as_str());
                append_str(&mut s, "`");
            },
            ErrorKind::NotAddressable => {
                append_str(&mut s, "cannot take the address of a value that is not a place");
            },
            ErrorKind::BreakOutsideLoop => {
                append_str(&mut s, "`break` outside of a loop");
            },
        }
        assert(s@ =~= sem_error_message(self@));
        s
    }
}

impl Error {
    /// The kind's message followed by where it happened.
    pub fn message(&self) -> (r: String)
        ensures
            r@ == sem_error_message(self.kind@) + " at line "@ + decimal(
                self.span.start.line as nat,
            ) + ", column "@ + decimal(self.span.start.column as nat),
    {
        let mut s = self.kind.message();
        append_str(&mut s, " at line ");
        push_decimal(&mut s, self.span.start.line as u64);
        append_str(&mut s, ", column ");
        push_decimal(&mut s, self.span.start.column as u64);
        s
    }
}

} // verus!
