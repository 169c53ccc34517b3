//! Errors reported while lowering to HIR.

use crate::hir::types::{push_ty_text, ty_text, Ty};
use crate::lexer::display::{append_str, decimal, push_decimal, push_signed, signed_decimal};
use crate::lexer::types::Span;
use vstd::prelude::*;

verus! {

#[derive(Debug, PartialEq)]
pub struct Error {
    pub span: Span,
    pub kind: ErrorKind,
}

#[derive(Debug, PartialEq)]
pub enum ErrorKind {
    NameNotFound { name: String },
    AlreadyDefined { name: String },
    NotCallable { found: Ty },
    NotIndexable { found: Ty },
    EmptyArrayLiteral,
    LiteralOutOfRange { value: i32, target: Ty },
    NotDereferencable { found: Ty },
    UnknownType { name: String },
    UnknownField { struct_name: String, field: String },
    MissingFields { struct_name: String, missing: Vec<String> },
    DuplicateField { struct_name: String, field: String },
    GenericIsAlsoAStruct { name: String },
    GenericAlreadyDefined { name: String },
    GenericOutsideFunctionSignature { name: String },
    CannotInferTypeArg { name: String },
    TypeMismatch { expected: Ty, found: Ty },
    NotAStruct { found: Ty },
    DirectStructRecursion { name: String },
    StructDefNotAllowedHere,
    MissingTypeArguments { name: String },
    UnexpectedTypeArguments { name: String },
    TypeArgArityMismatch { name: String, expected: usize, found: usize },
    /// Raised by a `comperror(...)` call reached during comptime evaluation.
    ComptimeError { message: String },
    /// No overload of `name` matches the argument types at a call site.
    NoMatchingOverload { name: String },
    /// Multiple overloads of `name` match the argument types.
    AmbiguousOverload { name: String },
    /// Tuple field access (`t.0`, ...) on a value that is not a tuple.
    NotATuple { found: Ty },
    /// A tuple index `t.N` past the end of the tuple.
    TupleIndexOutOfRange { len: usize, index: usize },
    /// `let f: T = (...) -> ... {};` — function literals carry their own
    /// signature.
    TypeAnnotationNotAllowed,
    /// Two enums declared a variant with the same name (variants are global).
    DuplicateVariant { name: String, other_enum: String },
    /// A pattern's variant name doesn't belong to the scrutinee's enum.
    UnknownVariant { name: String },
    /// A variant pattern bound the wrong number of fields.
    VariantArityMismatch { name: String, expected: usize, found: usize },
    /// A `match` doesn't cover every variant and has no wildcard.
    NonExhaustiveMatch { missing: Vec<String> },
    /// A `match` arm repeats a variant already covered earlier.
    DuplicateMatchArm { name: String },
    /// The scrutinee of a `match` is not an enum.
    MatchOnNonEnum { found: Ty },
    /// A nullary variant of a generic enum with no way to infer its type
    /// arguments.
    CannotInferEnumTypeArg { variant: String },
    /// A `{x : body}` closure with no expected function type to drive
    /// parameter inference.
    ClosureTypeUnknown,
    /// Closure parameter count doesn't match the expected function arity.
    ClosureArityMismatch { expected: usize, found: usize },
    /// `let x;` with neither a value nor a `: T`.
    MissingTypeForZeroInit,
    /// `extern (...)` outside a top-level `let name = extern (...);`.
    ExternMustBeTopLevel,
    /// `null` where the expected pointer type isn't known.
    CannotInferNullType,
    /// `name<T, U>` in value position where `name` is not a generic
    /// function.
    NotAGenericFunction { name: String },
    /// A construct whose lowering (closures, function literals, `match`,
    /// enum variant constructors, struct literals, generic calls) this
    /// library does not carry out.
    NotLowered { construct: String },
}

/// The views of a list of strings.
pub open spec fn strings_view(s: Seq<String>) -> Seq<Seq<char>> {
    s.map_values(|x: String| x@)
}

/// The strings of `s`, separated by `, `.
pub open spec fn joined(s: Seq<Seq<char>>) -> Seq<char>
    decreases s.len(),
{
    if s.len() == 0 {
        Seq::empty()
    } else if s.len() == 1 {
        s[0]
    } else {
        joined(s.subrange(0, s.len() - 1)) + ", "@ + s[s.len() - 1]
    }
}

fn push_joined(s: &mut String, v: &Vec<String>)
    ensures
        final(s)@ == old(s)@ + joined(strings_view(v@)),
{
    let ghost start = s@;
    let mut i: usize = 0;
    while i < v.len()
        invariant
            i <= v.len(),
            s@ == start + joined(strings_view(v@.subrange(0, i as int))),
        decreases v.len() - i,
    {
        proof {
            let x = strings_view(v@.subrange(0, i + 1));
            assert(x.subrange(0, x.len() - 1) =~= strings_view(v@.subrange(0, i as int)));
            assert(x[x.len() - 1] == v@[i as int]@);
        }
        if i > 0 {
            append_str(s, ", ");
        }
        append_str(s, v[i].as_str());
        proof {
            let x = strings_view(v@.subrange(0, i + 1));
            assert(s@ =~= start + joined(x));
        }
        i = i + 1;
    }
    assert(v@.subrange(0, v.len() as int) =~= v@);
}

/// The message for each lowering error.
pub open spec fn hir_error_message(k: ErrorKind) -> Seq<char> {
    match k {
        ErrorKind::NameNotFound { name } => "name not found: "@ + name@,
        ErrorKind::AlreadyDefined { name } => "name `"@ + name@ + "` already defined"@,
        ErrorKind::NotCallable { found } => "cannot call non-function value of type "@ + ty_text(found@),
        ErrorKind::NotIndexable { found } => "cannot subscript non-array value of type "@ + ty_text(found@),
        ErrorKind::EmptyArrayLiteral => "empty array literals are not supported (element type cannot be inferred)"@,
        ErrorKind::LiteralOutOfRange { value, target } => "literal "@ + signed_decimal(value as int) + " is out of range for type "@ + ty_text(target@),
        ErrorKind::NotDereferencable { found } => "cannot dereference non-pointer value of type "@ + ty_text(found@),
        ErrorKind::UnknownType { name } => "unknown type `"@ + name@ + "`"@,
        ErrorKind::UnknownField { struct_name, field } => "struct `"@ + struct_name@ + "` has no field `"@ + field@ + "`"@,
        ErrorKind::MissingFields { struct_name, missing } => "struct literal for `"@ + struct_name@ + "` is missing fields: "@ + joined(strings_view(missing@)),
        ErrorKind::DuplicateField { struct_name, field } => "field `"@ + field@ + "` is specified more than once in `"@ + struct_name@ + "` literal"@,
        ErrorKind::NotAStruct { found } => "field access requires a struct, got "@ + ty_text(found@),
        ErrorKind::DirectStructRecursion { name } => "struct `"@ + name@ + "` directly contains itself (infinite size); use `*"@ + name@ + "` for self-references"@,
        ErrorKind::StructDefNotAllowedHere => "struct definitions are only allowed as `let X = struct {...};`"@,
        ErrorKind::GenericIsAlsoAStruct { name } => "the generic type "@ + name@ + " is already defined as a struct"@,
        ErrorKind::GenericAlreadyDefined { name } => "generic type `$"@ + name@ + "` is already declared in this function; use `"@ + name@ + "` to refer to it"@,
        ErrorKind::GenericOutsideFunctionSignature { name } => "generic type `$"@ + name@ + "` can only be declared in a function signature"@,
        ErrorKind::CannotInferTypeArg { name } => "cannot infer type for generic argument `"@ + name@ + "`"@,
        ErrorKind::TypeMismatch { expected, found } => "type mismatch: expected "@ + ty_text(expected@) + ", found "@ + ty_text(found@),
        ErrorKind::MissingTypeArguments { name } => "struct `"@ + name@ + "` is generic; provide type arguments like `"@ + name@ + "<...>`"@,
        ErrorKind::UnexpectedTypeArguments { name } => "struct `"@ + name@ + "` is not generic and takes no type arguments"@,
        ErrorKind::TypeArgArityMismatch { name, expected, found } => "struct `"@ + name@ + "` expects "@ + decimal(expected as nat) + " type argument(s), got "@ + decimal(found as nat),
        ErrorKind::ComptimeError { message } => message@,
        ErrorKind::NoMatchingOverload { name } => "no overload of `"@ + name@ + "` matches these arguments"@,
        ErrorKind::AmbiguousOverload { name } => "ambiguous call to `"@ + name@ + "`: multiple overloads match"@,
        ErrorKind::NotATuple { found } => "tuple index access requires a tuple, got "@ + ty_text(found@),
        ErrorKind::TupleIndexOutOfRange { len, index } => "tuple index "@ + decimal(index as nat) + " out of range for tuple of length "@ + decimal(len as nat),
        ErrorKind::TypeAnnotationNotAllowed => "type annotations are not allowed on function declarations; the signature comes from the function itself"@,
        ErrorKind::DuplicateVariant { name, other_enum } => "variant `"@ + name@ + "` is already declared in `enum "@ + other_enum@ + "`; variant names must be unique across all enums"@,
        ErrorKind::UnknownVariant { name } => "no enum variant named `"@ + name@ + "`"@,
        ErrorKind::VariantArityMismatch { name, expected, found } => "variant `"@ + name@ + "` takes "@ + decimal(expected as nat) + " field(s), but the pattern binds "@ + decimal(found as nat),
        ErrorKind::NonExhaustiveMatch { missing } => "non-exhaustive match: missing variant(s) "@ + joined(strings_view(missing@)) + "; add an arm or use `_` to catch the rest"@,
        ErrorKind::DuplicateMatchArm { name } => "variant `"@ + name@ + "` is covered by more than one arm"@,
        ErrorKind::MatchOnNonEnum { found } => "`match` requires an enum value, got "@ + ty_text(found@),
        ErrorKind::CannotInferEnumTypeArg { variant } => "cannot infer type arguments for `"@ + variant@ + "`; provide them explicitly like `"@ + variant@ + "<Type>`"@,
        ErrorKind::ClosureTypeUnknown => "cannot infer this closure's parameter types; use it where an expected function type is known"@,
        ErrorKind::ClosureArityMismatch { expected, found } => "closure has "@ + decimal(found as nat) + " parameter(s), but "@ + decimal(expected as nat) + " were expected"@,
        ErrorKind::MissingTypeForZeroInit => "`let name;` requires a `: T` annotation so the zero-initializer has a layout"@,
        ErrorKind::ExternMustBeTopLevel => "`extern (...)` is only allowed at top level, in `let name = extern (...);`"@,
        ErrorKind::CannotInferNullType => "cannot infer the pointer type of `null` from context; add a `: *T` annotation"@,
        ErrorKind::NotAGenericFunction { name } => "`"@ + name@ + "<...>` requires `"@ + name@ + "` to be a generic function"@,
        ErrorKind::NotLowered { construct } => "cannot lower "@ + construct@ + ": not supported by this front end"@,
    }
}

impl ErrorKind {
    pub fn message(&self) -> (r: String)
        ensures
            r@ == hir_error_message(*self),
    {
        let mut s = String::new();
        match self {
            ErrorKind::NameNotFound { name } => {
                append_str(&mut s, "name not found: ");
                append_str(&mut s, name.as_str());
            },
            ErrorKind::AlreadyDefined { name } => {
                append_str(&mut s, "name `");
                append_str(&mut s, name.as_str());
                append_str(&mut s, "` already defined");
            },
            ErrorKind::NotCallable { found } => {
                append_str(&mut s, "cannot call non-function value of type ");
                push_ty_text(&mut s, found);
            },
            ErrorKind::NotIndexable { found } => {
                append_str(&mut s, "cannot subscript non-array value of type ");
                push_ty_text(&mut s, found);
            },
            ErrorKind::EmptyArrayLiteral => {
                append_str(&mut s, "empty array literals are not supported (element type cannot be inferred)");
            },
            ErrorKind::LiteralOutOfRange { value, target } => {
                append_str(&mut s, "literal ");
                push_signed(&mut s, *value as i64);
                append_str(&mut s, " is out of range for type ");
                push_ty_text(&mut s, target);
            },
            ErrorKind::NotDereferencable { found } => {
                append_str(&mut s, "cannot dereference non-pointer value of type ");
                push_ty_text(&mut s, found);
            },
            ErrorKind::UnknownType { name } => {
                append_str(&mut s, "unknown type `");
                append_str(&mut s, name.as_str());
                append_str(&mut s, "`");
            },
            ErrorKind::UnknownField { struct_name, field } => {
                append_str(&mut s, "struct `");
                append_str(&mut s, struct_name.as_str());
                append_str(&mut s, "` has no field `");
                append_str(&mut s, field.as_str());
                append_str(&mut s, "`");
            },
            ErrorKind::MissingFields { struct_name, missing } => {
                append_str(&mut s, "struct literal for `");
                append_str(&mut s, struct_name.as_str());
                append_str(&mut s, "` is missing fields: ");
                push_joined(&mut s, missing);
            },
            ErrorKind::DuplicateField { struct_name, field } => {
                append_str(&mut s, "field `");
                append_str(&mut s, field.as_str());
                append_str(&mut s, "` is specified more than once in `");
                append_str(&mut s, struct_name.as_str());
                append_str(&mut s, "` literal");
            },
            ErrorKind::NotAStruct { found } => {
                append_str(&mut s, "field access requires a struct, got ");
                push_ty_text(&mut s, found);
            },
            ErrorKind::DirectStructRecursion { name } => {
                append_str(&mut s, "struct `");
                append_str(&mut s, name.as_str());
                append_str(&mut s, "` directly contains itself (infinite size); use `*");
                append_str(&mut s, name.as_str());
                append_str(&mut s, "` for self-references");
            },
            ErrorKind::StructDefNotAllowedHere => {
                append_str(&mut s, "struct definitions are only allowed as `let X = struct {...};`");
            },
            ErrorKind::GenericIsAlsoAStruct { name } => {
                append_str(&mut s, "the generic type ");
                append_str(&mut s, name.as_str());
                append_str(&mut s, " is already defined as a struct");
            },
            ErrorKind::GenericAlreadyDefined { name } => {
                append_str(&mut s, "generic type `$");
                append_str(&mut s, name.as_str());
                append_str(&mut s, "` is already declared in this function; use `");
                append_str(&mut s, name.as_str());
                append_str(&mut s, "` to refer to it");
            },
            ErrorKind::GenericOutsideFunctionSignature { name } => {
                append_str(&mut s, "generic type `$");
                append_str(&mut s, name.as_str());
                append_str(&mut s, "` can only be declared in a function signature");
            },
            ErrorKind::CannotInferTypeArg { name } => {
                append_str(&mut s, "cannot infer type for generic argument `");
                append_str(&mut s, name.as_str());
                append_str(&mut s, "`");
            },
            ErrorKind::TypeMismatch { expected, found } => {
                append_str(&mut s, "type mismatch: expected ");
                push_ty_text(&mut s, expected);
                append_str(&mut s, ", found ");
                push_ty_text(&mut s, found);
            },
            ErrorKind::MissingTypeArguments { name } => {
                append_str(&mut s, "struct `");
                append_str(&mut s, name.as_str());
                append_str(&mut s, "` is generic; provide type arguments like `");
                append_str(&mut s, name.as_str());
                append_str(&mut s, "<...>`");
            },
            ErrorKind::UnexpectedTypeArguments { name } => {
                append_str(&mut s, "struct `");
                append_str(&mut s, name.as_str());
                append_str(&mut s, "` is not generic and takes no type arguments");
            },
            ErrorKind::TypeArgArityMismatch { name, expected, found } => {
                append_str(&mut s, "struct `");
                append_str(&mut s, name.as_str());
                append_str(&mut s, "` expects ");
                push_decimal(&mut s, *expected as u64);
                append_str(&mut s, " type argument(s), got ");
                push_decimal(&mut s, *found as u64);
            },
            ErrorKind::ComptimeError { message } => {
                append_str(&mut s, message.as_str());
            },
            ErrorKind::NoMatchingOverload { name } => {
                append_str(&mut s, "no overload of `");
                append_str(&mut s, name.as_str());
                append_str(&mut s, "` matches these arguments");
            },
            ErrorKind::AmbiguousOverload { name } => {
                append_str(&mut s, "ambiguous call to `");
                append_str(&mut s, name.as_str());
                append_str(&mut s, "`: multiple overloads match");
            },
            ErrorKind::NotATuple { found } => {
                append_str(&mut s, "tuple index access requires a tuple, got ");
                push_ty_text(&mut s, found);
            },
            ErrorKind::TupleIndexOutOfRange { len, index } => {
                append_str(&mut s, "tuple index ");
                push_decimal(&mut s, *index as u64);
                append_str(&mut s, " out of range for tuple of length ");
                push_decimal(&mut s, *len as u64);
            },
            ErrorKind::TypeAnnotationNotAllowed => {
                append_str(&mut s, "type annotations are not allowed on function declarations; the signature comes from the function itself");
            },
            ErrorKind::DuplicateVariant { name, other_enum } => {
                append_str(&mut s, "variant `");
                append_str(&mut s, name.as_str());
                append_str(&mut s, "` is already declared in `enum ");
                append_str(&mut s, other_enum.as_str());
                append_str(&mut s, "`; variant names must be unique across all enums");
            },
            ErrorKind::UnknownVariant { name } => {
                append_str(&mut s, "no enum variant named `");
                append_str(&mut s, name.as_str());
                append_str(&mut s, "`");
            },
            ErrorKind::VariantArityMismatch { name, expected, found } => {
                append_str(&mut s, "variant `");
                append_str(&mut s, name.as_str());
                append_str(&mut s, "` takes ");
                push_decimal(&mut s, *expected as u64);
                append_str(&mut s, " field(s), but the pattern binds ");
                push_decimal(&mut s, *found as u64);
            },
            ErrorKind::NonExhaustiveMatch { missing } => {
                append_str(&mut s, "non-exhaustive match: missing variant(s) ");
                push_joined(&mut s, missing);
                append_str(&mut s, "; add an arm or use `_` to catch the rest");
            },
            ErrorKind::DuplicateMatchArm { name } => {
                append_str(&mut s, "variant `");
                append_str(&mut s, name.as_str());
                append_str(&mut s, "` is covered by more than one arm");
            },
            ErrorKind::MatchOnNonEnum { found } => {
                append_str(&mut s, "`match` requires an enum value, got ");
                push_ty_text(&mut s, found);
            },
            ErrorKind::CannotInferEnumTypeArg { variant } => {
                append_str(&mut s, "cannot infer type arguments for `");
                append_str(&mut s, variant.as_str());
                append_str(&mut s, "`; provide them explicitly like `");
                append_str(&mut s, variant.as_str());
                append_str(&mut s, "<Type>`");
            },
            ErrorKind::ClosureTypeUnknown => {
                append_str(&mut s, "cannot infer this closure's parameter types; use it where an expected function type is known");
            },
            ErrorKind::ClosureArityMismatch { expected, found } => {
                append_str(&mut s, "closure has ");
                push_decimal(&mut s, *found as u64);
                append_str(&mut s, " parameter(s), but ");
                push_decimal(&mut s, *expected as u64);
                append_str(&mut s, " were expected");
            },
            ErrorKind::MissingTypeForZeroInit => {
                append_str(&mut s, "`let name;` requires a `: T` annotation so the zero-initializer has a layout");
            },
            ErrorKind::ExternMustBeTopLevel => {
                append_str(&mut s, "`extern (...)` is only allowed at top level, in `let name = extern (...);`");
            },
            ErrorKind::CannotInferNullType => {
                append_str(&mut s, "cannot infer the pointer type of `null` from context; add a `: *T` annotation");
            },
            ErrorKind::NotAGenericFunction { name } => {
                append_str(&mut s, "`");
                append_str(&mut s, name.as_str());
                append_str(&mut s, "<...>` requires `");
                append_str(&mut s, name.as_str());
                append_str(&mut s, "` to be a generic function");
            },
            ErrorKind::NotLowered { construct } => {
                append_str(&mut s, "cannot lower ");
                append_str(&mut s, construct.as_str());
                append_str(&mut s, ": not supported by this front end");
            },
        }
        assert(s@ =~= hir_error_message(*self));
        s
    }
}

/// The kind's message followed by where it happened.
pub open spec fn located_message(msg: Seq<char>, span: Span) -> Seq<char> {
    msg + " at line "@ + decimal(span.start.line as nat) + ", column "@ + decimal(
        span.start.column as nat,
    )
}

impl Error {
    pub fn message(&self) -> (r: String)
        ensures
            r@ == located_message(hir_error_message(self.kind), self.span),
    {
        let mut s = self.kind.message();
        append_str(&mut s, " at line ");
        push_decimal(&mut s, self.span.start.line as u64);
        append_str(&mut s, ", column ");
        push_decimal(&mut s, self.span.start.column as u64);
        assert(s@ =~= located_message(hir_error_message(self.kind), self.span));
        s
    }
}

} // verus!
