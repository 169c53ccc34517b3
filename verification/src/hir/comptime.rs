//! Compile-time evaluation support for `#comptime` functions.
//!
//! A `#comptime` function is lowered to a generic template like any other,
//! but its body may contain type-introspection nodes (`ExprKind::TypeValue`,
//! `ExprKind::CompError`). When the template is specialized for concrete
//! types these helpers evaluate comptime-known expressions (such as
//! `T == Int`) to a [`CtValue`], so they can be folded to constants and drive
//! `static if` selection, and decide which statements diverge, so that
//! unreachable code (including a dead `comperror`) is dropped rather than
//! evaluated. They only read HIR and report facts.

use crate::hir::generics::{occurrences, ty_has_typevars};
use crate::hir::types::{
    BinaryOperator, Block, BlockItem, Const, Expr, ExprKind, Statement, StatementKind, Ty, TyV,
};
use vstd::prelude::*;

verus! {

/// A value known at compile time. `Int` is reserved for comptime constant
/// parameters.
#[derive(Debug)]
pub enum CtValue {
    Type(Ty),
    Int(i32),
    Bool(bool),
    Str(String),
}

pub enum CtValueV {
    Type(TyV),
    Int(i32),
    Bool(bool),
    Str(Seq<char>),
}

impl View for CtValue {
    type V = CtValueV;

    open spec fn view(&self) -> CtValueV {
        match *self {
            CtValue::Type(t) => CtValueV::Type(t@),
            CtValue::Int(n) => CtValueV::Int(n),
            CtValue::Bool(b) => CtValueV::Bool(b),
            CtValue::Str(s) => CtValueV::Str(s@),
        }
    }
}

/// The compile-time value of `e`: a type without type variables, an integer
/// constant or a string constant.
pub open spec fn eval_spec(e: Expr) -> Option<CtValueV> {
    match e.kind {
        ExprKind::TypeValue(ty) => if occurrences(ty@).len() == 0 {
            Some(CtValueV::Type(ty@))
        } else {
            None
        },
        ExprKind::Const(Const::Int(n)) => Some(CtValueV::Int(n)),
        ExprKind::Const(Const::Str(s)) => Some(CtValueV::Str(s@)),
        _ => None,
    }
}

pub fn eval(e: &Expr) -> (r: Option<CtValue>)
    ensures
        match r {
            Some(v) => eval_spec(*e) == Some(v@),
            None => eval_spec(*e) is None,
        },
{
    match &e.kind {
        ExprKind::TypeValue(ty) => {
            if ty_has_typevars(ty) {
                None
            } else {
                Some(CtValue::Type(ty.duplicate()))
            }
        },
        ExprKind::Const(Const::Int(n)) => Some(CtValue::Int(*n)),
        ExprKind::Const(Const::Str(s)) => Some(CtValue::Str(s.clone())),
        _ => None,
    }
}

/// `==` and `!=` between two comptime types or two comptime strings.
pub open spec fn eval_binary_spec(op: BinaryOperator, lhs: Expr, rhs: Expr) -> Option<CtValueV> {
    match (eval_spec(lhs), eval_spec(rhs)) {
        (Some(CtValueV::Type(a)), Some(CtValueV::Type(b))) => match op {
            BinaryOperator::Eq => Some(CtValueV::Bool(a == b)),
            BinaryOperator::Ne => Some(CtValueV::Bool(a != b)),
            _ => None,
        },
        (Some(CtValueV::Str(a)), Some(CtValueV::Str(b))) => match op {
            BinaryOperator::Eq => Some(CtValueV::Bool(a == b)),
            BinaryOperator::Ne => Some(CtValueV::Bool(a != b)),
            _ => None,
        },
        _ => None,
    }
}

pub fn eval_binary(op: BinaryOperator, lhs: &Expr, rhs: &Expr) -> (r: Option<CtValue>)
    ensures
        match r {
            Some(v) => eval_binary_spec(op, *lhs, *rhs) == Some(v@),
            None => eval_binary_spec(op, *lhs, *rhs) is None,
        },
{
    let l = match eval(lhs) {
        Some(v) => v,
        None => return None,
    };
    let r = match eval(rhs) {
        Some(v) => v,
        None => return None,
    };
    match (op, l, r) {
        (BinaryOperator::Eq, CtValue::Type(a), CtValue::Type(b)) => Some(CtValue::Bool(a.same(&b))),
        (BinaryOperator::Ne, CtValue::Type(a), CtValue::Type(b)) => Some(CtValue::Bool(!a.same(&b))),
        (BinaryOperator::Eq, CtValue::Str(a), CtValue::Str(b)) => Some(CtValue::Bool(a == b)),
        (BinaryOperator::Ne, CtValue::Str(a), CtValue::Str(b)) => Some(CtValue::Bool(a != b)),
        _ => None,
    }
}

/// `==` and `!=` on the same comptime operands are both known or both
/// unknown, and give opposite answers.
pub proof fn law_eq_ne_opposite(lhs: Expr, rhs: Expr)
    ensures
        (eval_binary_spec(BinaryOperator::Eq, lhs, rhs) is Some) == (eval_binary_spec(
            BinaryOperator::Ne,
            lhs,
            rhs,
        ) is Some),
        eval_binary_spec(BinaryOperator::Eq, lhs, rhs) matches Some(CtValueV::Bool(b))
            ==> eval_binary_spec(BinaryOperator::Ne, lhs, rhs) == Some(CtValueV::Bool(!b)),
{
}

/// Whether control never gets past `e`: it is a `comperror`, a block that
/// diverges, or an `if` whose branches both diverge.
pub open spec fn expr_diverges_spec(e: Expr) -> bool
    decreases e,
{
    match e.kind {
        ExprKind::CompError(_) => true,
        ExprKind::Block(b) => items_diverge(b.items@) || expr_diverges_spec(*b.tail),
        ExprKind::If { then_branch, else_branch, .. } => expr_diverges_spec(*then_branch)
            && expr_diverges_spec(*else_branch),
        _ => false,
    }
}

/// Whether some item of `items` diverges.
pub open spec fn items_diverge(items: Seq<BlockItem>) -> bool
    decreases items,
{
    if items.len() == 0 {
        false
    } else {
        item_diverges_spec(items[0]) || items_diverge(items.subrange(1, items.len() as int))
    }
}

/// A `return` diverges; so does an expression statement that diverges.
pub open spec fn item_diverges_spec(item: BlockItem) -> bool
    decreases item,
{
    match item {
        BlockItem::Declaration(_) => false,
        BlockItem::Statement(s) => match s.kind {
            StatementKind::Return(_) => true,
            StatementKind::Break => false,
            StatementKind::Defer(_) => false,
            StatementKind::Expr(e) => expr_diverges_spec(e),
        },
    }
}

pub fn item_diverges(item: &BlockItem) -> (r: bool)
    ensures
        r == item_diverges_spec(*item),
    decreases item,
{
    match item {
        BlockItem::Declaration(_) => false,
        BlockItem::Statement(s) => stmt_diverges(s),
    }
}

fn stmt_diverges(s: &Statement) -> (r: bool)
    ensures
        r == item_diverges_spec(BlockItem::Statement(*s)),
    decreases s,
{
    match &s.kind {
        StatementKind::Return(_) => true,
        StatementKind::Break => false,
        StatementKind::Defer(_) => false,
        StatementKind::Expr(e) => expr_diverges(e),
    }
}

pub fn expr_diverges(e: &Expr) -> (r: bool)
    ensures
        r == expr_diverges_spec(*e),
    decreases e,
{
    match &e.kind {
        ExprKind::CompError(_) => true,
        ExprKind::Block(b) => block_diverges(b),
        ExprKind::If { then_branch, else_branch, .. } => expr_diverges(then_branch)
            && expr_diverges(else_branch),
        _ => false,
    }
}

pub fn items_diverge_exec(items: &Vec<BlockItem>) -> (r: bool)
    ensures
        r == items_diverge(items@),
    decreases items,
{
    let mut i: usize = items.len();
    let mut acc = false;
    while i > 0
        invariant
            i <= items.len(),
            acc == items_diverge(items@.subrange(i as int, items.len() as int)),
        decreases i,
    {
        i = i - 1;
        let d = item_diverges(&items[i]);
        proof {
            let t = items@.subrange(i as int, items.len() as int);
            assert(t[0] == items@[i as int]);
            assert(t.subrange(1, t.len() as int) =~= items@.subrange(i + 1, items.len() as int));
        }
        acc = d || acc;
    }
    assert(items@.subrange(0, items.len() as int) =~= items@);
    acc
}

fn block_diverges(b: &Block) -> (r: bool)
    ensures
        r == (items_diverge(b.items@) || expr_diverges_spec(*b.tail)),
    decreases b,
{
    items_diverge_exec(&b.items) || expr_diverges(&b.tail)
}

} // verus!
