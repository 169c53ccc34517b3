//! Implicit conversion of integer literals to the numeric type a context
//! expects.

use crate::hir::error::{Error, ErrorKind};
use crate::hir::types::{is_number_v, Const, Expr, ExprKind, Ty, TyV, UnaryOperator};
use vstd::prelude::*;

verus! {

/// The value of an `Int` literal, possibly negated (`-5`); `None` for any
/// other expression, and for `-(-2147483648)`, which has no `i32` value.
pub open spec fn int_literal_value(e: Expr) -> Option<i32> {
    if e.ty@ != TyV::Int {
        None
    } else {
        match e.kind {
            ExprKind::Const(Const::Int(n)) => Some(n),
            ExprKind::Unary { op: UnaryOperator::Minus, operand } => match operand.kind {
                ExprKind::Const(Const::Int(n)) => if n == i32::MIN {
                    None
                } else {
                    Some((-n) as i32)
                },
                _ => None,
            },
            _ => None,
        }
    }
}

pub fn const_int_literal(e: &Expr) -> (r: Option<i32>)
    ensures
        r == int_literal_value(*e),
{
    match e.ty {
        Ty::Int => {},
        _ => return None,
    }
    match &e.kind {
        ExprKind::Const(Const::Int(n)) => Some(*n),
        ExprKind::Unary { op: UnaryOperator::Minus, operand } => match &operand.kind {
            ExprKind::Const(Const::Int(n)) => {
                if *n == i32::MIN {
                    None
                } else {
                    Some(-*n)
                }
            },
            _ => None,
        },
        _ => None,
    }
}

/// Whether the literal value `v` can stand for a value of type `t`.
pub open spec fn fits(v: i32, t: TyV) -> bool {
    match t {
        TyV::Int | TyV::I32 | TyV::I64 => true,
        TyV::I8 => -128 <= v <= 127,
        TyV::U8 => 0 <= v <= 255,
        TyV::UInt | TyV::U32 | TyV::U64 => v >= 0,
        TyV::Float | TyV::F32 | TyV::F64 => true,
        _ => false,
    }
}

pub fn fits_in_ty(v: i32, ty: &Ty) -> (r: bool)
    ensures
        r == fits(v, ty@),
{
    match ty {
        Ty::Int | Ty::I32 | Ty::I64 => true,
        Ty::I8 => -128 <= v && v <= 127,
        Ty::U8 => 0 <= v && v <= 255,
        Ty::UInt | Ty::U32 | Ty::U64 => v >= 0,
        Ty::Float | Ty::F32 | Ty::F64 => true,
        _ => false,
    }
}

/// Whether coercion to `t` looks at `e` at all: only a literal meets a
/// numeric type other than its own and other than `Int`.
pub open spec fn literal_coercible(e: Expr, t: TyV) -> bool {
    e.ty@ != t && t != TyV::Int && is_number_v(t) && int_literal_value(e) is Some
}

/// `r` is `e` coerced to `t`: `e` itself, or, for a literal that fits, `e`
/// wrapped in a cast to `t`.
pub open spec fn literal_coerced(e: Expr, t: TyV, r: Expr) -> bool {
    if literal_coercible(e, t) {
        r.span == e.span && r.ty@ == t && (r.kind matches ExprKind::Cast { target, expr } && target@
            == t && *expr == e)
    } else {
        r == e
    }
}

/// The error for a literal that does not fit `t`: its span and value.
pub open spec fn literal_error(e: Expr, t: TyV) -> Option<(crate::lexer::types::Span, i32)> {
    if literal_coercible(e, t) && !fits(int_literal_value(e)->Some_0, t) {
        Some((e.span, int_literal_value(e)->Some_0))
    } else {
        None
    }
}

/// Whether `err` reports the literal `value` at `span` as out of range for
/// `t`.
pub open spec fn reports_out_of_range(
    err: Error,
    span: crate::lexer::types::Span,
    value: i32,
    t: TyV,
) -> bool {
    err.span == span && (err.kind matches ErrorKind::LiteralOutOfRange { value: v, target } && v
        == value && target@ == t)
}

pub fn coerce_int_literal(expr: Expr, target: &Ty) -> (r: Result<Expr, Error>)
    ensures
        match r {
            Ok(e) => literal_error(expr, target@) is None && literal_coerced(expr, target@, e),
            Err(err) => literal_error(expr, target@) matches Some((span, value))
                && reports_out_of_range(err, span, value, target@),
        },
{
    if expr.ty.same(target) || target.same(&Ty::Int) || !target.is_number() {
        return Ok(expr);
    }
    let value = match const_int_literal(&expr) {
        Some(v) => v,
        None => return Ok(expr),
    };
    if !fits_in_ty(value, target) {
        return Err(
            Error {
                span: expr.span,
                kind: ErrorKind::LiteralOutOfRange { value, target: target.duplicate() },
            },
        );
    }
    let span = expr.span;
    Ok(
        Expr {
            span,
            ty: target.duplicate(),
            kind: ExprKind::Cast { target: target.duplicate(), expr: Box::new(expr) },
        },
    )
}

/// The first literal, in source order, that coercing `e` to `t` through
/// block tails and `if` branches finds out of range.
pub open spec fn tails_error(e: Expr, t: TyV) -> Option<(crate::lexer::types::Span, i32)>
    decreases e,
{
    if e.ty@ == t {
        None
    } else {
        match e.kind {
            ExprKind::Block(b) => tails_error(*b.tail, t),
            ExprKind::If { then_branch, else_branch, .. } => match tails_error(*then_branch, t) {
                Some(x) => Some(x),
                None => tails_error(*else_branch, t),
            },
            _ => literal_error(e, t),
        }
    }
}

/// `r` is `e` with each tail (of blocks and of both `if` branches) coerced
/// to `t`, and each enclosing block or `if` retyped to its new tail.
pub open spec fn tails_coerced(e: Expr, t: TyV, r: Expr) -> bool
    decreases e,
{
    if e.ty@ == t {
        r == e
    } else {
        match e.kind {
            ExprKind::Block(b) => r.span == e.span && (r.kind matches ExprKind::Block(b2) && b2.span
                == b.span && b2.items == b.items && tails_coerced(*b.tail, t, *b2.tail) && r.ty@
                == b2.tail.ty@),
            ExprKind::If { condition, then_branch, else_branch } => r.span == e.span && (r.kind matches ExprKind::If {
                condition: c2,
                then_branch: t2,
                else_branch: e2,
            } && c2 == condition && tails_coerced(*then_branch, t, *t2) && tails_coerced(
                *else_branch,
                t,
                *e2,
            ) && r.ty@ == t2.ty@),
            _ => literal_coerced(e, t, r),
        }
    }
}

/// Coerces the value-producing tails of `expr` (through blocks and `if`
/// branches) to `target`, so `let x: u8 = if c { 1 } else { 2 };` types.
pub fn coerce_through_tails(expr: Expr, target: &Ty) -> (r: Result<Expr, Error>)
    ensures
        match r {
            Ok(e) => tails_error(expr, target@) is None && tails_coerced(expr, target@, e),
            Err(err) => tails_error(expr, target@) matches Some((span, value))
                && reports_out_of_range(err, span, value, target@),
        },
    decreases expr,
{
    if expr.ty.same(target) {
        return Ok(expr);
    }
    let span = expr.span;
    match expr.kind {
        ExprKind::Block(b) => {
            let crate::hir::types::Block { span: bspan, items, tail } = b;
            let new_tail = coerce_through_tails(*tail, target)?;
            let block_ty = new_tail.ty.duplicate();
            Ok(
                Expr {
                    span,
                    ty: block_ty,
                    kind: ExprKind::Block(
                        crate::hir::types::Block { span: bspan, items, tail: Box::new(new_tail) },
                    ),
                },
            )
        },
        ExprKind::If { condition, then_branch, else_branch } => {
            let then_branch = coerce_through_tails(*then_branch, target)?;
            let else_branch = coerce_through_tails(*else_branch, target)?;
            let if_ty = then_branch.ty.duplicate();
            Ok(
                Expr {
                    span,
                    ty: if_ty,
                    kind: ExprKind::If {
                        condition,
                        then_branch: Box::new(then_branch),
                        else_branch: Box::new(else_branch),
                    },
                },
            )
        },
        kind => coerce_int_literal(Expr { span, ty: expr.ty, kind }, target),
    }
}

/// A value fits an integer type exactly when it lies in the type's range:
/// every `i32` value fits `Int`, `i32` and `i64` (so `-5` fits `i32`);
/// `u8` takes `0..=255`, `i8` takes `-128..=127`, the other unsigned types
/// take the values `>= 0`; float types take every integer value.
pub proof fn law_fits_is_the_range(v: i32)
    ensures
        fits(v, TyV::Int) && fits(v, TyV::I32) && fits(v, TyV::I64),
        fits(v, TyV::U8) <==> 0 <= v <= 255,
        fits(v, TyV::I8) <==> -128 <= v <= 127,
        fits(v, TyV::UInt) <==> v >= 0,
        fits(v, TyV::U32) <==> v >= 0,
        fits(v, TyV::U64) <==> v >= 0,
        fits(v, TyV::Float) && fits(v, TyV::F32) && fits(v, TyV::F64),
{
}

/// Coercing an integer literal to `i32` or `i64` never fails, whatever its
/// sign; to an unsigned type it fails exactly for negative values, to `u8`
/// also above 255.
pub proof fn law_literal_coercion_errors(e: Expr)
    requires
        int_literal_value(e) is Some,
    ensures
        literal_error(e, TyV::I32) is None,
        literal_error(e, TyV::I64) is None,
        literal_error(e, TyV::U32) matches Some((_, v)) ==> v < 0,
        int_literal_value(e)->0 < 0 ==> literal_error(e, TyV::U32) is Some,
        literal_error(e, TyV::U8) is Some <==> (int_literal_value(e)->0 < 0 || int_literal_value(e)->0 > 255),
{
}

} // verus!
