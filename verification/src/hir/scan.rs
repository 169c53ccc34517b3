//! Walks over lowered expressions that look for type variables: whether any
//! node still carries one, and which ones the explicit type annotations of
//! an expression name.

use crate::hir::generics::{
    add_new, collect_typevars, ids_of, lemma_add_new_concat, occurrences, ty_has_typevars,
};
use crate::hir::types::{Block, BlockItem, Expr, ExprKind, StatementKind, TypeVarId};
use vstd::prelude::*;

verus! {

/// Whether a type variable occurs in the type of some node of `e`, in a cast
/// target, an intrinsic's element type, or a declared type inside it.
/// Function literals are not looked into.
pub open spec fn expr_has_tv(e: Expr) -> bool
    decreases e,
{
    occurrences(e.ty@).len() > 0 || match e.kind {
        ExprKind::Cast { target, expr } => occurrences(target@).len() > 0 || expr_has_tv(*expr),
        ExprKind::Unary { operand, .. } => expr_has_tv(*operand),
        ExprKind::Binary { lhs, rhs, .. } => expr_has_tv(*lhs) || expr_has_tv(*rhs),
        ExprKind::Block(b) => items_have_tv(b.items@) || expr_has_tv(*b.tail),
        ExprKind::If { condition, then_branch, else_branch } => expr_has_tv(*condition)
            || expr_has_tv(*then_branch) || expr_has_tv(*else_branch),
        ExprKind::While { condition, body } => expr_has_tv(*condition) || items_have_tv(
            body.items@,
        ) || expr_has_tv(*body.tail),
        ExprKind::Assign { target, value } => expr_has_tv(*target) || expr_has_tv(*value),
        ExprKind::Array(items) => exprs_have_tv(items@),
        ExprKind::Subscript { expr, index } => expr_has_tv(*expr) || expr_has_tv(*index),
        ExprKind::Ref(t) => expr_has_tv(*t),
        ExprKind::Deref(t) => expr_has_tv(*t),
        ExprKind::StructLiteral { fields } => fields_have_tv(fields@),
        ExprKind::Field { target, .. } => expr_has_tv(*target),
        ExprKind::TupleField { target, .. } => expr_has_tv(*target),
        ExprKind::Tuple(es) => exprs_have_tv(es@),
        ExprKind::Call(call) => expr_has_tv(*call.callee) || exprs_have_tv(call.args@),
        ExprKind::Intrinsic { args, elem_ty, .. } => occurrences(elem_ty@).len() > 0 || exprs_have_tv(
            args@,
        ),
        _ => false,
    }
}

pub open spec fn exprs_have_tv(es: Seq<Expr>) -> bool
    decreases es,
{
    if es.len() == 0 {
        false
    } else {
        expr_has_tv(es[0]) || exprs_have_tv(es.subrange(1, es.len() as int))
    }
}

pub open spec fn fields_have_tv(fs: Seq<(String, Expr)>) -> bool
    decreases fs,
{
    if fs.len() == 0 {
        false
    } else {
        expr_has_tv(fs[0].1) || fields_have_tv(fs.subrange(1, fs.len() as int))
    }
}

pub open spec fn items_have_tv(items: Seq<BlockItem>) -> bool
    decreases items,
{
    if items.len() == 0 {
        false
    } else {
        item_has_tv(items[0]) || items_have_tv(items.subrange(1, items.len() as int))
    }
}

pub open spec fn item_has_tv(item: BlockItem) -> bool
    decreases item,
{
    match item {
        BlockItem::Declaration(d) => occurrences(d.ty@).len() > 0 || expr_has_tv(d.value),
        BlockItem::Statement(s) => match s.kind {
            StatementKind::Expr(e) => expr_has_tv(e),
            StatementKind::Return(e) => expr_has_tv(e),
            StatementKind::Defer(e) => expr_has_tv(e),
            StatementKind::Break => false,
        },
    }
}

/// The type variables named by the explicit type annotations of `e` (cast
/// targets, intrinsic element types, declared types), in walk order with
/// repeats. The types of the nodes themselves are not included.
pub open spec fn annot_vars(e: Expr) -> Seq<u32>
    decreases e,
{
    match e.kind {
        ExprKind::Cast { target, expr } => occurrences(target@) + annot_vars(*expr),
        ExprKind::Unary { operand, .. } => annot_vars(*operand),
        ExprKind::Binary { lhs, rhs, .. } => annot_vars(*lhs) + annot_vars(*rhs),
        ExprKind::Block(b) => items_annot_vars(b.items@) + annot_vars(*b.tail),
        ExprKind::If { condition, then_branch, else_branch } => annot_vars(*condition) + annot_vars(
            *then_branch,
        ) + annot_vars(*else_branch),
        ExprKind::While { condition, body } => annot_vars(*condition) + (items_annot_vars(body.items@)
            + annot_vars(*body.tail)),
        ExprKind::Assign { target, value } => annot_vars(*target) + annot_vars(*value),
        ExprKind::Array(items) => exprs_annot_vars(items@),
        ExprKind::Subscript { expr, index } => annot_vars(*expr) + annot_vars(*index),
        ExprKind::Ref(t) => annot_vars(*t),
        ExprKind::Deref(t) => annot_vars(*t),
        ExprKind::StructLiteral { fields } => fields_annot_vars(fields@),
        ExprKind::Field { target, .. } => annot_vars(*target),
        ExprKind::TupleField { target, .. } => annot_vars(*target),
        ExprKind::Tuple(es) => exprs_annot_vars(es@),
        ExprKind::Call(call) => annot_vars(*call.callee) + exprs_annot_vars(call.args@),
        ExprKind::Intrinsic { args, elem_ty, .. } => occurrences(elem_ty@) + exprs_annot_vars(args@),
        _ => Seq::empty(),
    }
}

pub open spec fn exprs_annot_vars(es: Seq<Expr>) -> Seq<u32>
    decreases es,
{
    if es.len() == 0 {
        Seq::empty()
    } else {
        annot_vars(es[0]) + exprs_annot_vars(es.subrange(1, es.len() as int))
    }
}

pub open spec fn fields_annot_vars(fs: Seq<(String, Expr)>) -> Seq<u32>
    decreases fs,
{
    if fs.len() == 0 {
        Seq::empty()
    } else {
        annot_vars(fs[0].1) + fields_annot_vars(fs.subrange(1, fs.len() as int))
    }
}

pub open spec fn items_annot_vars(items: Seq<BlockItem>) -> Seq<u32>
    decreases items,
{
    if items.len() == 0 {
        Seq::empty()
    } else {
        item_annot_vars(items[0]) + items_annot_vars(items.subrange(1, items.len() as int))
    }
}

pub open spec fn item_annot_vars(item: BlockItem) -> Seq<u32>
    decreases item,
{
    match item {
        BlockItem::Declaration(d) => occurrences(d.ty@) + annot_vars(d.value),
        BlockItem::Statement(s) => match s.kind {
            StatementKind::Expr(e) => annot_vars(e),
            StatementKind::Return(e) => annot_vars(e),
            StatementKind::Defer(e) => annot_vars(e),
            StatementKind::Break => Seq::empty(),
        },
    }
}

/// Whether a type variable is left anywhere in `e` (see [`expr_has_tv`]).
pub fn expr_has_typevars(e: &Expr) -> (r: bool)
    ensures
        r == expr_has_tv(*e),
    decreases e,
{
    if ty_has_typevars(&e.ty) {
        return true;
    }
    match &e.kind {
        ExprKind::Cast { target, expr } => ty_has_typevars(target) || expr_has_typevars(expr),
        ExprKind::Unary { operand, .. } => expr_has_typevars(operand),
        ExprKind::Binary { lhs, rhs, .. } => expr_has_typevars(lhs) || expr_has_typevars(rhs),
        ExprKind::Block(b) => block_has_typevars(b),
        ExprKind::If { condition, then_branch, else_branch } => expr_has_typevars(condition)
            || expr_has_typevars(then_branch) || expr_has_typevars(else_branch),
        ExprKind::While { condition, body } => expr_has_typevars(condition) || block_has_typevars(
            body,
        ),
        ExprKind::Assign { target, value } => expr_has_typevars(target) || expr_has_typevars(value),
        ExprKind::Array(items) => exprs_have_typevars(items),
        ExprKind::Subscript { expr, index } => expr_has_typevars(expr) || expr_has_typevars(index),
        ExprKind::Ref(t) => expr_has_typevars(t),
        ExprKind::Deref(t) => expr_has_typevars(t),
        ExprKind::StructLiteral { fields } => fields_have_typevars(fields),
        ExprKind::Field { target, .. } => expr_has_typevars(target),
        ExprKind::TupleField { target, .. } => expr_has_typevars(target),
        ExprKind::Tuple(es) => exprs_have_typevars(es),
        ExprKind::Call(call) => expr_has_typevars(&call.callee) || exprs_have_typevars(&call.args),
        ExprKind::Intrinsic { args, elem_ty, .. } => ty_has_typevars(elem_ty) || exprs_have_typevars(
            args,
        ),
        _ => false,
    }
}

fn exprs_have_typevars(es: &Vec<Expr>) -> (r: bool)
    ensures
        r == exprs_have_tv(es@),
    decreases es,
{
    let mut i: usize = 0;
    assert(es@.subrange(0, es.len() as int) =~= es@);
    while i < es.len()
        invariant
            i <= es.len(),
            exprs_have_tv(es@) == exprs_have_tv(es@.subrange(i as int, es.len() as int)),
        decreases es.len() - i,
    {
        proof {
            let t = es@.subrange(i as int, es.len() as int);
            assert(t[0] == es@[i as int]);
            assert(t.subrange(1, t.len() as int) =~= es@.subrange(i + 1, es.len() as int));
        }
        if expr_has_typevars(&es[i]) {
            return true;
        }
        i = i + 1;
    }
    false
}

fn fields_have_typevars(fs: &Vec<(String, Expr)>) -> (r: bool)
    ensures
        r == fields_have_tv(fs@),
    decreases fs,
{
    let mut i: usize = 0;
    assert(fs@.subrange(0, fs.len() as int) =~= fs@);
    while i < fs.len()
        invariant
            i <= fs.len(),
            fields_have_tv(fs@) == fields_have_tv(fs@.subrange(i as int, fs.len() as int)),
        decreases fs.len() - i,
    {
        proof {
            let t = fs@.subrange(i as int, fs.len() as int);
            assert(t[0] == fs@[i as int]);
            assert(t.subrange(1, t.len() as int) =~= fs@.subrange(i + 1, fs.len() as int));
        }
        if expr_has_typevars(&fs[i].1) {
            return true;
        }
        i = i + 1;
    }
    false
}

/// Whether a type variable is left anywhere in the block: in a declared
/// type or value, a statement, or the tail.
pub fn block_has_typevars(block: &Block) -> (r: bool)
    ensures
        r == (items_have_tv(block.items@) || expr_has_tv(*block.tail)),
    decreases block,
{
    items_have_typevars(&block.items) || expr_has_typevars(&block.tail)
}

fn items_have_typevars(items: &Vec<BlockItem>) -> (r: bool)
    ensures
        r == items_have_tv(items@),
    decreases items,
{
    let mut i: usize = 0;
    assert(items@.subrange(0, items.len() as int) =~= items@);
    while i < items.len()
        invariant
            i <= items.len(),
            items_have_tv(items@) == items_have_tv(items@.subrange(i as int, items.len() as int)),
        decreases items.len() - i,
    {
        proof {
            let t = items@.subrange(i as int, items.len() as int);
            assert(t[0] == items@[i as int]);
            assert(t.subrange(1, t.len() as int) =~= items@.subrange(i + 1, items.len() as int));
        }
        if item_has_typevars(&items[i]) {
            return true;
        }
        i = i + 1;
    }
    false
}

fn item_has_typevars(item: &BlockItem) -> (r: bool)
    ensures
        r == item_has_tv(*item),
    decreases item,
{
    match item {
        BlockItem::Declaration(d) => ty_has_typevars(&d.ty) || expr_has_typevars(&d.value),
        BlockItem::Statement(s) => match &s.kind {
            StatementKind::Expr(e) => expr_has_typevars(e),
            StatementKind::Return(e) => expr_has_typevars(e),
            StatementKind::Defer(e) => expr_has_typevars(e),
            StatementKind::Break => false,
        },
    }
}

/// Appends to `out` the type variables named by the type annotations of
/// `e` (see [`annot_vars`]) that are not in it yet, in walk order, each
/// once.
pub fn collect_typevars_in_expr(e: &Expr, out: &mut Vec<TypeVarId>)
    ensures
        ids_of(final(out)@) == add_new(ids_of(old(out)@), annot_vars(*e)),
    decreases e,
{
    let ghost start = ids_of(out@);
    match &e.kind {
        ExprKind::Cast { target, expr } => {
            collect_typevars(target, out);
            collect_typevars_in_expr(expr, out);
            proof {
                lemma_add_new_concat(start, occurrences(target@), annot_vars(**expr));
            }
        },
        ExprKind::Unary { operand, .. } => collect_typevars_in_expr(operand, out),
        ExprKind::Binary { lhs, rhs, .. } => {
            collect_typevars_in_expr(lhs, out);
            collect_typevars_in_expr(rhs, out);
            proof {
                lemma_add_new_concat(start, annot_vars(**lhs), annot_vars(**rhs));
            }
        },
        ExprKind::Block(b) => collect_typevars_in_block(b, out),
        ExprKind::If { condition, then_branch, else_branch } => {
            collect_typevars_in_expr(condition, out);
            let ghost mid = ids_of(out@);
            collect_typevars_in_expr(then_branch, out);
            collect_typevars_in_expr(else_branch, out);
            proof {
                lemma_add_new_concat(mid, annot_vars(**then_branch), annot_vars(**else_branch));
                lemma_add_new_concat(
                    start,
                    annot_vars(**condition),
                    annot_vars(**then_branch) + annot_vars(**else_branch),
                );
                assert(annot_vars(**condition) + annot_vars(**then_branch) + annot_vars(**else_branch)
                    =~= annot_vars(**condition) + (annot_vars(**then_branch) + annot_vars(
                    **else_branch,
                )));
            }
        },
        ExprKind::While { condition, body } => {
            collect_typevars_in_expr(condition, out);
            collect_typevars_in_block(body, out);
            proof {
                lemma_add_new_concat(
                    start,
                    annot_vars(**condition),
                    items_annot_vars(body.items@) + annot_vars(*body.tail),
                );
            }
        },
        ExprKind::Assign { target, value } => {
            collect_typevars_in_expr(target, out);
            collect_typevars_in_expr(value, out);
            proof {
                lemma_add_new_concat(start, annot_vars(**target), annot_vars(**value));
            }
        },
        ExprKind::Array(items) => collect_in_exprs(items, out),
        ExprKind::Subscript { expr, index } => {
            collect_typevars_in_expr(expr, out);
            collect_typevars_in_expr(index, out);
            proof {
                lemma_add_new_concat(start, annot_vars(**expr), annot_vars(**index));
            }
        },
        ExprKind::Ref(t) => collect_typevars_in_expr(t, out),
        ExprKind::Deref(t) => collect_typevars_in_expr(t, out),
        ExprKind::StructLiteral { fields } => collect_in_fields(fields, out),
        ExprKind::Field { target, .. } => collect_typevars_in_expr(target, out),
        ExprKind::TupleField { target, .. } => collect_typevars_in_expr(target, out),
        ExprKind::Tuple(es) => collect_in_exprs(es, out),
        ExprKind::Call(call) => {
            collect_typevars_in_expr(&call.callee, out);
            collect_in_exprs(&call.args, out);
            proof {
                lemma_add_new_concat(start, annot_vars(*call.callee), exprs_annot_vars(call.args@));
            }
        },
        ExprKind::Intrinsic { args, elem_ty, .. } => {
            collect_typevars(elem_ty, out);
            collect_in_exprs(args, out);
            proof {
                lemma_add_new_concat(start, occurrences(elem_ty@), exprs_annot_vars(args@));
            }
        },
        _ => {
            assert(add_new(start, Seq::<u32>::empty()) == start);
        },
    }
}

fn collect_in_exprs(es: &Vec<Expr>, out: &mut Vec<TypeVarId>)
    ensures
        ids_of(final(out)@) == add_new(ids_of(old(out)@), exprs_annot_vars(es@)),
    decreases es,
{
    let ghost goal = add_new(ids_of(out@), exprs_annot_vars(es@));
    let mut i: usize = 0;
    assert(es@.subrange(0, es.len() as int) =~= es@);
    while i < es.len()
        invariant
            i <= es.len(),
            goal == add_new(ids_of(out@), exprs_annot_vars(es@.subrange(i as int, es.len() as int))),
        decreases es.len() - i,
    {
        let ghost before = ids_of(out@);
        proof {
            let t = es@.subrange(i as int, es.len() as int);
            assert(t[0] == es@[i as int]);
            assert(t.subrange(1, t.len() as int) =~= es@.subrange(i + 1, es.len() as int));
            lemma_add_new_concat(
                before,
                annot_vars(es@[i as int]),
                exprs_annot_vars(es@.subrange(i + 1, es.len() as int)),
            );
        }
        collect_typevars_in_expr(&es[i], out);
        i = i + 1;
    }
    assert(add_new(ids_of(out@), Seq::<u32>::empty()) == ids_of(out@));
}

fn collect_in_fields(fs: &Vec<(String, Expr)>, out: &mut Vec<TypeVarId>)
    ensures
        ids_of(final(out)@) == add_new(ids_of(old(out)@), fields_annot_vars(fs@)),
    decreases fs,
{
    let ghost goal = add_new(ids_of(out@), fields_annot_vars(fs@));
    let mut i: usize = 0;
    assert(fs@.subrange(0, fs.len() as int) =~= fs@);
    while i < fs.len()
        invariant
            i <= fs.len(),
            goal == add_new(ids_of(out@), fields_annot_vars(fs@.subrange(i as int, fs.len() as int))),
        decreases fs.len() - i,
    {
        let ghost before = ids_of(out@);
        proof {
            let t = fs@.subrange(i as int, fs.len() as int);
            assert(t[0] == fs@[i as int]);
            assert(t.subrange(1, t.len() as int) =~= fs@.subrange(i + 1, fs.len() as int));
            lemma_add_new_concat(
                before,
                annot_vars(fs@[i as int].1),
                fields_annot_vars(fs@.subrange(i + 1, fs.len() as int)),
            );
        }
        collect_typevars_in_expr(&fs[i].1, out);
        i = i + 1;
    }
    assert(add_new(ids_of(out@), Seq::<u32>::empty()) == ids_of(out@));
}

/// Appends to `out` the type variables named by the declared types and the
/// type annotations of the items and tail of `block`, each once.
pub fn collect_typevars_in_block(block: &Block, out: &mut Vec<TypeVarId>)
    ensures
        ids_of(final(out)@) == add_new(
            ids_of(old(out)@),
            items_annot_vars(block.items@) + annot_vars(*block.tail),
        ),
    decreases block,
{
    let ghost start = ids_of(out@);
    collect_in_items(&block.items, out);
    collect_typevars_in_expr(&block.tail, out);
    proof {
        lemma_add_new_concat(start, items_annot_vars(block.items@), annot_vars(*block.tail));
    }
}

fn collect_in_items(items: &Vec<BlockItem>, out: &mut Vec<TypeVarId>)
    ensures
        ids_of(final(out)@) == add_new(ids_of(old(out)@), items_annot_vars(items@)),
    decreases items,
{
    let ghost goal = add_new(ids_of(out@), items_annot_vars(items@));
    let mut i: usize = 0;
    assert(items@.subrange(0, items.len() as int) =~= items@);
    while i < items.len()
        invariant
            i <= items.len(),
            goal == add_new(ids_of(out@), items_annot_vars(items@.subrange(i as int, items.len() as int))),
        decreases items.len() - i,
    {
        let ghost before = ids_of(out@);
        proof {
            let t = items@.subrange(i as int, items.len() as int);
            assert(t[0] == items@[i as int]);
            assert(t.subrange(1, t.len() as int) =~= items@.subrange(i + 1, items.len() as int));
            lemma_add_new_concat(
                before,
                item_annot_vars(items@[i as int]),
                items_annot_vars(items@.subrange(i + 1, items.len() as int)),
            );
        }
        collect_in_item(&items[i], out);
        i = i + 1;
    }
    assert(add_new(ids_of(out@), Seq::<u32>::empty()) == ids_of(out@));
}

fn collect_in_item(item: &BlockItem, out: &mut Vec<TypeVarId>)
    ensures
        ids_of(final(out)@) == add_new(ids_of(old(out)@), item_annot_vars(*item)),
    decreases item,
{
    let ghost before = ids_of(out@);
    match item {
        BlockItem::Declaration(d) => {
            collect_typevars(&d.ty, out);
            collect_typevars_in_expr(&d.value, out);
            proof {
                lemma_add_new_concat(before, occurrences(d.ty@), annot_vars(d.value));
            }
        },
        BlockItem::Statement(s) => match &s.kind {
            StatementKind::Expr(e) => collect_typevars_in_expr(e, out),
            StatementKind::Return(e) => collect_typevars_in_expr(e, out),
            StatementKind::Defer(e) => collect_typevars_in_expr(e, out),
            StatementKind::Break => {
                assert(add_new(before, Seq::<u32>::empty()) == before);
            },
        },
    }
}

} // verus!
