//! Rewriting a closure body so that its captured locals are read from the
//! closure's environment tuple.

use crate::hir::generics::subst_view;
use crate::hir::lower::{Lower, LowerV};
use crate::hir::types::{
    Block, BlockItem, Const, Declaration, Expr, ExprKind, IntrinsicKind, LocalId, Statement,
    StatementKind, Ty, TyV,
};
use crate::lexer::types::Span;
use std::collections::HashMap;
use vstd::prelude::*;

verus! {

/// Whether `r` loads field `index` of the environment tuple (of type
/// `env_ty`) through the environment parameter `env`, as a value of type
/// `cap_ty`, every node spanning `span`:
/// `(*(env as *EnvTuple)).index`.
pub open spec fn env_load(r: Expr, cap_ty: Ty, index: usize, env: LocalId, env_ty: TyV, span: Span) -> bool {
    &&& r.span == span
    &&& r.ty == cap_ty
    &&& r.kind matches ExprKind::TupleField { target: d, index: k }
    &&& k == index
    &&& d.span == span
    &&& d.ty@ == env_ty
    &&& d.kind matches ExprKind::Deref(c)
    &&& c.span == span
    &&& c.ty@ == TyV::Ptr(Box::new(env_ty))
    &&& c.kind matches ExprKind::Cast { target: t, expr: l }
    &&& t@ == TyV::Ptr(Box::new(env_ty))
    &&& l.span == span
    &&& l.ty@ == TyV::Ptr(Box::new(TyV::U8))
    &&& l.kind == ExprKind::Local(env)
}

/// Whether `r` is `e` with every read of a captured local (a key of `caps`)
/// replaced by the load of its slot of the environment (see [`env_load`]),
/// all else kept. Function literals, constants, type values and compile
/// errors are left as they are.
pub open spec fn rewritten(e: Expr, r: Expr, caps: Map<u32, usize>, env: LocalId, env_ty: TyV, span: Span) -> bool
    decreases e,
{
    match e.kind {
        ExprKind::Local(id) => if caps.contains_key(id.0) {
            env_load(r, e.ty, caps[id.0], env, env_ty, span)
        } else {
            r == e
        },
        ExprKind::Unary { op, operand } => {
            &&& same_node(e, r)
            &&& r.kind matches ExprKind::Unary { op: o, operand: x }
            &&& o == op
            &&& rewritten(*operand, *x, caps, env, env_ty, span)
        },
        ExprKind::Binary { op, lhs, rhs } => {
            &&& same_node(e, r)
            &&& r.kind matches ExprKind::Binary { op: o, lhs: x, rhs: y }
            &&& o == op
            &&& rewritten(*lhs, *x, caps, env, env_ty, span)
            &&& rewritten(*rhs, *y, caps, env, env_ty, span)
        },
        ExprKind::Cast { target, expr } => {
            &&& same_node(e, r)
            &&& r.kind matches ExprKind::Cast { target: t, expr: x }
            &&& t == target
            &&& rewritten(*expr, *x, caps, env, env_ty, span)
        },
        ExprKind::Call(call) => {
            &&& same_node(e, r)
            &&& r.kind matches ExprKind::Call(c)
            &&& rewritten(*call.callee, *c.callee, caps, env, env_ty, span)
            &&& rewritten_all(call.args@, c.args@, caps, env, env_ty, span)
        },
        ExprKind::Block(b) => {
            &&& same_node(e, r)
            &&& r.kind matches ExprKind::Block(b2)
            &&& b2.span == b.span
            &&& rewritten_items(b.items@, b2.items@, caps, env, env_ty, span)
            &&& rewritten(*b.tail, *b2.tail, caps, env, env_ty, span)
        },
        ExprKind::If { condition, then_branch, else_branch } => {
            &&& same_node(e, r)
            &&& r.kind matches ExprKind::If { condition: c, then_branch: t, else_branch: x }
            &&& rewritten(*condition, *c, caps, env, env_ty, span)
            &&& rewritten(*then_branch, *t, caps, env, env_ty, span)
            &&& rewritten(*else_branch, *x, caps, env, env_ty, span)
        },
        ExprKind::While { condition, body } => {
            &&& same_node(e, r)
            &&& r.kind matches ExprKind::While { condition: c, body: b2 }
            &&& rewritten(*condition, *c, caps, env, env_ty, span)
            &&& b2.span == body.span
            &&& rewritten_items(body.items@, b2.items@, caps, env, env_ty, span)
            &&& rewritten(*body.tail, *b2.tail, caps, env, env_ty, span)
        },
        ExprKind::Assign { target, value } => {
            &&& same_node(e, r)
            &&& r.kind matches ExprKind::Assign { target: t, value: v }
            &&& rewritten(*target, *t, caps, env, env_ty, span)
            &&& rewritten(*value, *v, caps, env, env_ty, span)
        },
        ExprKind::Array(items) => {
            &&& same_node(e, r)
            &&& r.kind matches ExprKind::Array(xs)
            &&& rewritten_all(items@, xs@, caps, env, env_ty, span)
        },
        ExprKind::Subscript { expr, index } => {
            &&& same_node(e, r)
            &&& r.kind matches ExprKind::Subscript { expr: x, index: i }
            &&& rewritten(*expr, *x, caps, env, env_ty, span)
            &&& rewritten(*index, *i, caps, env, env_ty, span)
        },
        ExprKind::Ref(t) => {
            &&& same_node(e, r)
            &&& r.kind matches ExprKind::Ref(x)
            &&& rewritten(*t, *x, caps, env, env_ty, span)
        },
        ExprKind::Deref(t) => {
            &&& same_node(e, r)
            &&& r.kind matches ExprKind::Deref(x)
            &&& rewritten(*t, *x, caps, env, env_ty, span)
        },
        ExprKind::StructLiteral { fields } => {
            &&& same_node(e, r)
            &&& r.kind matches ExprKind::StructLiteral { fields: fs }
            &&& rewritten_fields(fields@, fs@, caps, env, env_ty, span)
        },
        ExprKind::Field { target, name, index } => {
            &&& same_node(e, r)
            &&& r.kind matches ExprKind::Field { target: t, name: n, index: i }
            &&& n == name
            &&& i == index
            &&& rewritten(*target, *t, caps, env, env_ty, span)
        },
        ExprKind::TupleField { target, index } => {
            &&& same_node(e, r)
            &&& r.kind matches ExprKind::TupleField { target: t, index: i }
            &&& i == index
            &&& rewritten(*target, *t, caps, env, env_ty, span)
        },
        ExprKind::Tuple(elems) => {
            &&& same_node(e, r)
            &&& r.kind matches ExprKind::Tuple(xs)
            &&& rewritten_all(elems@, xs@, caps, env, env_ty, span)
        },
        ExprKind::Intrinsic { kind, elem_ty, args } => {
            &&& same_node(e, r)
            &&& r.kind matches ExprKind::Intrinsic { kind: k, elem_ty: t, args: xs }
            &&& k == kind
            &&& t == elem_ty
            &&& rewritten_all(args@, xs@, caps, env, env_ty, span)
        },
        _ => r == e,
    }
}

/// `r` keeps the span and the type of `e`.
pub open spec fn same_node(e: Expr, r: Expr) -> bool {
    r.span == e.span && r.ty == e.ty
}

pub open spec fn rewritten_all(es: Seq<Expr>, rs: Seq<Expr>, caps: Map<u32, usize>, env: LocalId, env_ty: TyV, span: Span) -> bool
    decreases es,
{
    &&& rs.len() == es.len()
    &&& forall|i: int| 0 <= i < es.len() ==> rewritten(#[trigger] es[i], rs[i], caps, env, env_ty, span)
}

pub open spec fn rewritten_fields(
    fs: Seq<(String, Expr)>,
    rs: Seq<(String, Expr)>,
    caps: Map<u32, usize>,
    env: LocalId,
    env_ty: TyV,
    span: Span,
) -> bool
    decreases fs,
{
    &&& rs.len() == fs.len()
    &&& forall|i: int|
        0 <= i < fs.len() ==> rs[i].0 == (#[trigger] fs[i]).0 && rewritten(fs[i].1, rs[i].1, caps, env, env_ty, span)
}

pub open spec fn rewritten_items(
    items: Seq<BlockItem>,
    rs: Seq<BlockItem>,
    caps: Map<u32, usize>,
    env: LocalId,
    env_ty: TyV,
    span: Span,
) -> bool
    decreases items,
{
    &&& rs.len() == items.len()
    &&& forall|i: int| 0 <= i < items.len() ==> rewritten_item(#[trigger] items[i], rs[i], caps, env, env_ty, span)
}

/// A declaration keeps all but its value, which is rewritten; a statement
/// keeps its span and kind and has its expression rewritten.
pub open spec fn rewritten_item(item: BlockItem, r: BlockItem, caps: Map<u32, usize>, env: LocalId, env_ty: TyV, span: Span) -> bool
    decreases item,
{
    match item {
        BlockItem::Declaration(d) => {
            &&& r matches BlockItem::Declaration(d2)
            &&& d2.id == d.id
            &&& d2.span == d.span
            &&& d2.mutable == d.mutable
            &&& d2.name == d.name
            &&& d2.ty == d.ty
            &&& rewritten(d.value, d2.value, caps, env, env_ty, span)
        },
        BlockItem::Statement(s) => {
            &&& r matches BlockItem::Statement(s2)
            &&& s2.span == s.span
            &&& match s.kind {
                StatementKind::Expr(x) => s2.kind matches StatementKind::Expr(y) && rewritten(x, y, caps, env, env_ty, span),
                StatementKind::Return(x) => s2.kind matches StatementKind::Return(y) && rewritten(x, y, caps, env, env_ty, span),
                StatementKind::Defer(x) => s2.kind matches StatementKind::Defer(y) && rewritten(x, y, caps, env, env_ty, span),
                StatementKind::Break => s2.kind is Break,
            }
        },
    }
}

fn env_load_expr(cap_ty: Ty, index: usize, env: LocalId, env_tuple_ty: &Ty, span: Span) -> (r: Expr)
    ensures
        env_load(r, cap_ty, index, env, env_tuple_ty@, span),
{
    let env_ptr_ty = Ty::Ptr(Box::new(env_tuple_ty.duplicate()));
    let env_local = Expr { span, ty: Ty::Ptr(Box::new(Ty::U8)), kind: ExprKind::Local(env) };
    let env_cast = Expr {
        span,
        ty: Ty::Ptr(Box::new(env_tuple_ty.duplicate())),
        kind: ExprKind::Cast { target: env_ptr_ty, expr: Box::new(env_local) },
    };
    let env_deref = Expr { span, ty: env_tuple_ty.duplicate(), kind: ExprKind::Deref(Box::new(env_cast)) };
    proof {
        reveal_with_fuel(crate::hir::types::ty_view, 2);
    }
    Expr { span, ty: cap_ty, kind: ExprKind::TupleField { target: Box::new(env_deref), index } }
}


/// Replaces, inside `expr`, every read of a local whose id is a key of
/// `captures_by_id` by the load of its slot of the environment tuple
/// (`(*(env as *EnvTuple)).index`, read through the parameter
/// `env_param_id`); the new nodes span `span`.
pub fn rewrite_captures_in_expr(
    expr: &mut Expr,
    captures_by_id: &HashMap<u32, usize>,
    env_param_id: LocalId,
    env_tuple_ty: &Ty,
    span: Span,
)
    ensures
        rewritten(*old(expr), *final(expr), captures_by_id@, env_param_id, env_tuple_ty@, span),
    decreases *old(expr),
{
    match &mut expr.kind {
        ExprKind::Local(id) => {
            let id = *id;
            match captures_by_id.get(&id.0) {
                Some(index) => {
                    let index = *index;
                    let mut cap_ty = Ty::Unit;
                    std::mem::swap(&mut cap_ty, &mut expr.ty);
                    *expr = env_load_expr(cap_ty, index, env_param_id, env_tuple_ty, span);
                },
                None => {},
            }
        },
        ExprKind::Unary { operand, .. } => {
            rewrite_captures_in_expr(&mut **operand, captures_by_id, env_param_id, env_tuple_ty, span);
        },
        ExprKind::Binary { lhs, rhs, .. } => {
            rewrite_captures_in_expr(&mut **lhs, captures_by_id, env_param_id, env_tuple_ty, span);
            rewrite_captures_in_expr(&mut **rhs, captures_by_id, env_param_id, env_tuple_ty, span);
        },
        ExprKind::Cast { expr: inner, .. } => {
            rewrite_captures_in_expr(&mut **inner, captures_by_id, env_param_id, env_tuple_ty, span);
        },
        ExprKind::Call(call) => {
            rewrite_captures_in_expr(&mut *call.callee, captures_by_id, env_param_id, env_tuple_ty, span);
            rewrite_all(&mut call.args, captures_by_id, env_param_id, env_tuple_ty, span);
        },
        ExprKind::Block(b) => {
            rewrite_block(b, captures_by_id, env_param_id, env_tuple_ty, span);
        },
        ExprKind::If { condition, then_branch, else_branch } => {
            rewrite_captures_in_expr(&mut **condition, captures_by_id, env_param_id, env_tuple_ty, span);
            rewrite_captures_in_expr(&mut **then_branch, captures_by_id, env_param_id, env_tuple_ty, span);
            rewrite_captures_in_expr(&mut **else_branch, captures_by_id, env_param_id, env_tuple_ty, span);
        },
        ExprKind::While { condition, body } => {
            rewrite_captures_in_expr(&mut **condition, captures_by_id, env_param_id, env_tuple_ty, span);
            rewrite_block(body, captures_by_id, env_param_id, env_tuple_ty, span);
        },
        ExprKind::Assign { target, value } => {
            rewrite_captures_in_expr(&mut **target, captures_by_id, env_param_id, env_tuple_ty, span);
            rewrite_captures_in_expr(&mut **value, captures_by_id, env_param_id, env_tuple_ty, span);
        },
        ExprKind::Array(items) => {
            rewrite_all(items, captures_by_id, env_param_id, env_tuple_ty, span);
        },
        ExprKind::Subscript { expr: arr, index } => {
            rewrite_captures_in_expr(&mut **arr, captures_by_id, env_param_id, env_tuple_ty, span);
            rewrite_captures_in_expr(&mut **index, captures_by_id, env_param_id, env_tuple_ty, span);
        },
        ExprKind::Ref(inner) => {
            rewrite_captures_in_expr(&mut **inner, captures_by_id, env_param_id, env_tuple_ty, span);
        },
        ExprKind::Deref(inner) => {
            rewrite_captures_in_expr(&mut **inner, captures_by_id, env_param_id, env_tuple_ty, span);
        },
        ExprKind::StructLiteral { fields } => {
            rewrite_fields(fields, captures_by_id, env_param_id, env_tuple_ty, span);
        },
        ExprKind::Field { target, .. } => {
            rewrite_captures_in_expr(&mut **target, captures_by_id, env_param_id, env_tuple_ty, span);
        },
        ExprKind::TupleField { target, .. } => {
            rewrite_captures_in_expr(&mut **target, captures_by_id, env_param_id, env_tuple_ty, span);
        },
        ExprKind::Tuple(elems) => {
            rewrite_all(elems, captures_by_id, env_param_id, env_tuple_ty, span);
        },
        ExprKind::Intrinsic { args, .. } => {
            rewrite_all(args, captures_by_id, env_param_id, env_tuple_ty, span);
        },
        _ => {},
    }
}

fn rewrite_all(
    es: &mut Vec<Expr>,
    captures_by_id: &HashMap<u32, usize>,
    env_param_id: LocalId,
    env_tuple_ty: &Ty,
    span: Span,
)
    ensures
        rewritten_all(old(es)@, final(es)@, captures_by_id@, env_param_id, env_tuple_ty@, span),
    decreases *old(es),
{
    let ghost orig = es@;
    let mut i: usize = 0;
    while i < es.len()
        invariant
            es.len() == orig.len(),
            i <= es.len(),
            orig == old(es)@,
            forall|j: int| 0 <= j < i ==> rewritten(#[trigger] orig[j], es@[j], captures_by_id@, env_param_id, env_tuple_ty@, span),
            forall|j: int| i <= j < es.len() ==> #[trigger] es@[j] == orig[j],
        decreases es.len() - i,
    {
        rewrite_captures_in_expr(&mut es[i], captures_by_id, env_param_id, env_tuple_ty, span);
        i = i + 1;
    }
}

fn rewrite_fields(
    fs: &mut Vec<(String, Expr)>,
    captures_by_id: &HashMap<u32, usize>,
    env_param_id: LocalId,
    env_tuple_ty: &Ty,
    span: Span,
)
    ensures
        rewritten_fields(old(fs)@, final(fs)@, captures_by_id@, env_param_id, env_tuple_ty@, span),
    decreases *old(fs),
{
    let ghost orig = fs@;
    let mut i: usize = 0;
    while i < fs.len()
        invariant
            fs.len() == orig.len(),
            i <= fs.len(),
            orig == old(fs)@,
            forall|j: int|
                0 <= j < i ==> fs@[j].0 == (#[trigger] orig[j]).0 && rewritten(orig[j].1, fs@[j].1, captures_by_id@, env_param_id, env_tuple_ty@, span),
            forall|j: int| i <= j < fs.len() ==> #[trigger] fs@[j] == orig[j],
        decreases fs.len() - i,
    {
        rewrite_captures_in_expr(&mut fs[i].1, captures_by_id, env_param_id, env_tuple_ty, span);
        i = i + 1;
    }
}

fn rewrite_block(
    b: &mut Block,
    captures_by_id: &HashMap<u32, usize>,
    env_param_id: LocalId,
    env_tuple_ty: &Ty,
    span: Span,
)
    ensures
        final(b).span == old(b).span,
        rewritten_items(old(b).items@, final(b).items@, captures_by_id@, env_param_id, env_tuple_ty@, span),
        rewritten(*old(b).tail, *final(b).tail, captures_by_id@, env_param_id, env_tuple_ty@, span),
    decreases *old(b),
{
    rewrite_items(&mut b.items, captures_by_id, env_param_id, env_tuple_ty, span);
    rewrite_captures_in_expr(&mut *b.tail, captures_by_id, env_param_id, env_tuple_ty, span);
}

fn rewrite_items(
    items: &mut Vec<BlockItem>,
    captures_by_id: &HashMap<u32, usize>,
    env_param_id: LocalId,
    env_tuple_ty: &Ty,
    span: Span,
)
    ensures
        rewritten_items(old(items)@, final(items)@, captures_by_id@, env_param_id, env_tuple_ty@, span),
    decreases *old(items),
{
    let ghost orig = items@;
    let mut i: usize = 0;
    while i < items.len()
        invariant
            items.len() == orig.len(),
            i <= items.len(),
            orig == old(items)@,
            forall|j: int| 0 <= j < i ==> rewritten_item(#[trigger] orig[j], items@[j], captures_by_id@, env_param_id, env_tuple_ty@, span),
            forall|j: int| i <= j < items.len() ==> #[trigger] items@[j] == orig[j],
        decreases items.len() - i,
    {
        rewrite_item(&mut items[i], captures_by_id, env_param_id, env_tuple_ty, span);
        i = i + 1;
    }
}

fn rewrite_item(
    item: &mut BlockItem,
    captures_by_id: &HashMap<u32, usize>,
    env_param_id: LocalId,
    env_tuple_ty: &Ty,
    span: Span,
)
    ensures
        rewritten_item(*old(item), *final(item), captures_by_id@, env_param_id, env_tuple_ty@, span),
    decreases *old(item),
{
    match item {
        BlockItem::Declaration(d) => {
            rewrite_captures_in_expr(&mut d.value, captures_by_id, env_param_id, env_tuple_ty, span);
        },
        BlockItem::Statement(s) => match &mut s.kind {
            StatementKind::Expr(e) => {
                rewrite_captures_in_expr(e, captures_by_id, env_param_id, env_tuple_ty, span);
            },
            StatementKind::Return(e) => {
                rewrite_captures_in_expr(e, captures_by_id, env_param_id, env_tuple_ty, span);
            },
            StatementKind::Defer(e) => {
                rewrite_captures_in_expr(e, captures_by_id, env_param_id, env_tuple_ty, span);
            },
            StatementKind::Break => {},
        },
    }
}

/// Whether `a` is the statement `(*env).index = cap` for the capture `cap`
/// (its id and type), through the local `env` of type `*env_ty`, every node
/// spanning `span`.
pub open spec fn env_store(a: BlockItem, index: int, cap: (u32, TyV), env: u32, env_ty: TyV, span: Span) -> bool {
    &&& a matches BlockItem::Statement(s)
    &&& s.span == span
    &&& s.kind matches StatementKind::Expr(x)
    &&& x.span == span
    &&& x.ty == Ty::Unit
    &&& x.kind matches ExprKind::Assign { target: f, value: v }
    &&& f.span == span
    &&& f.ty@ == cap.1
    &&& f.kind matches ExprKind::TupleField { target: d, index: k }
    &&& k == index
    &&& d.span == span
    &&& d.ty@ == env_ty
    &&& d.kind matches ExprKind::Deref(l)
    &&& l.span == span
    &&& l.ty@ == TyV::Ptr(Box::new(env_ty))
    &&& l.kind == ExprKind::Local(LocalId(env))
    &&& v.span == span
    &&& v.ty@ == cap.1
    &&& v.kind == ExprKind::Local(LocalId(cap.0))
}

/// Whether `r` is the block that allocates a closure's environment tuple
/// (of type `env_ty`) and fills it with the captures, in order:
/// `{ let __env = alloc<EnvTuple>(1); (*__env).0 = cap_0; ...; __env as *u8 }`,
/// with `env` the id of `__env` and every node spanning `span`.
pub open spec fn env_alloc_block(r: Expr, caps: Seq<(u32, TyV)>, env: u32, env_ty: TyV, span: Span) -> bool {
    &&& r.span == span
    &&& r.ty@ == TyV::Ptr(Box::new(TyV::U8))
    &&& r.kind matches ExprKind::Block(b)
    &&& b.span == span
    &&& b.items.len() == caps.len() + 1
    &&& b.items@[0] matches BlockItem::Declaration(d)
    &&& d.id == LocalId(env)
    &&& d.span == span
    &&& !d.mutable
    &&& d.name@ == "__env"@
    &&& d.ty@ == TyV::Ptr(Box::new(env_ty))
    &&& d.value.span == span
    &&& d.value.ty@ == TyV::Ptr(Box::new(env_ty))
    &&& d.value.kind matches ExprKind::Intrinsic { kind: ik, elem_ty: et, args: one }
    &&& ik == IntrinsicKind::Alloc
    &&& et@ == env_ty
    &&& one.len() == 1
    &&& one@[0] == (Expr { span, ty: Ty::Int, kind: ExprKind::Const(Const::Int(1)) })
    &&& forall|i: int| 0 <= i < caps.len() ==> env_store(#[trigger] b.items@[i + 1], i, caps[i], env, env_ty, span)
    &&& b.tail.span == span
    &&& b.tail.ty@ == TyV::Ptr(Box::new(TyV::U8))
    &&& b.tail.kind matches ExprKind::Cast { target: t, expr: e }
    &&& t@ == TyV::Ptr(Box::new(TyV::U8))
    &&& e.span == span
    &&& e.ty@ == TyV::Ptr(Box::new(env_ty))
    &&& e.kind == ExprKind::Local(LocalId(env))
}

pub open spec fn caps_view(c: Seq<(LocalId, Ty)>) -> Seq<(u32, TyV)> {
    c.map_values(|x: (LocalId, Ty)| (x.0.0, x.1@))
}

fn env_store_item(index: usize, cap_id: LocalId, cap_ty: &Ty, env: LocalId, env_tuple_ty: &Ty, span: Span) -> (a: BlockItem)
    ensures
        env_store(a, index as int, (cap_id.0, cap_ty@), env.0, env_tuple_ty@, span),
{
    let env_local_expr = Expr { span, ty: Ty::Ptr(Box::new(env_tuple_ty.duplicate())), kind: ExprKind::Local(env) };
    let env_deref = Expr { span, ty: env_tuple_ty.duplicate(), kind: ExprKind::Deref(Box::new(env_local_expr)) };
    let field = Expr {
        span,
        ty: cap_ty.duplicate(),
        kind: ExprKind::TupleField { target: Box::new(env_deref), index },
    };
    let value = Expr { span, ty: cap_ty.duplicate(), kind: ExprKind::Local(cap_id) };
    let assign = Expr {
        span,
        ty: Ty::Unit,
        kind: ExprKind::Assign { target: Box::new(field), value: Box::new(value) },
    };
    BlockItem::Statement(Statement { span, kind: StatementKind::Expr(assign) })
}

impl Lower {
    /// The block that allocates a closure's environment tuple of type
    /// `env_tuple_ty` and stores each capture in its slot, in order (see
    /// [`env_alloc_block`]); `__env` gets the next local id, bound to a
    /// pointer to the tuple.
    pub fn build_env_alloc_expr(&mut self, captures: &Vec<(LocalId, Ty)>, env_tuple_ty: &Ty, span: Span) -> (r: Expr)
        requires
            old(self)@.next_id < u32::MAX,
        ensures
            env_alloc_block(r, caps_view(captures@), old(self)@.next_id as u32, env_tuple_ty@, span),
            final(self)@ == (LowerV {
                next_id: (old(self)@.next_id + 1) as u32,
                bindings: old(self)@.bindings.insert(old(self)@.next_id, TyV::Ptr(Box::new(env_tuple_ty@))),
                ..old(self)@
            }),
            final(self).wf() == old(self).wf(),
    {
        let env_local_id = self.id_gen.fresh();
        let env_ptr_ty = Ty::Ptr(Box::new(env_tuple_ty.duplicate()));
        self.bindings.insert(env_local_id.0, env_ptr_ty);
        proof {
            assert(subst_view(self.bindings@) =~= old(self)@.bindings.insert(
                env_local_id.0,
                TyV::Ptr(Box::new(env_tuple_ty@)),
            ));
        }
        let one = Expr { span, ty: Ty::Int, kind: ExprKind::Const(Const::Int(1)) };
        let alloc_call = Expr {
            span,
            ty: Ty::Ptr(Box::new(env_tuple_ty.duplicate())),
            kind: ExprKind::Intrinsic {
                kind: IntrinsicKind::Alloc,
                elem_ty: env_tuple_ty.duplicate(),
                args: vec![one],
            },
        };
        let env_decl = Declaration {
            id: env_local_id,
            span,
            mutable: false,
            name: "__env".to_string(),
            ty: Ty::Ptr(Box::new(env_tuple_ty.duplicate())),
            value: alloc_call,
        };
        let mut items: Vec<BlockItem> = Vec::new();
        items.push(BlockItem::Declaration(env_decl));
        let ghost cv = caps_view(captures@);
        let mut i: usize = 0;
        while i < captures.len()
            invariant
                i <= captures.len(),
                cv == caps_view(captures@),
                items.len() == i + 1,
                items@[0] matches BlockItem::Declaration(d) && d.id == env_local_id && d.span == span && !d.mutable
                    && d.name@ == "__env"@ && d.ty@ == TyV::Ptr(Box::new(env_tuple_ty@)) && d.value.span == span
                    && d.value.ty@ == TyV::Ptr(Box::new(env_tuple_ty@)) && (d.value.kind matches ExprKind::Intrinsic {
                    kind: ik,
                    elem_ty: et,
                    args: one,
                } && ik == IntrinsicKind::Alloc && et@ == env_tuple_ty@ && one.len() == 1 && one@[0] == (Expr {
                    span,
                    ty: Ty::Int,
                    kind: ExprKind::Const(Const::Int(1)),
                })),
                forall|j: int| 0 <= j < i ==> env_store(#[trigger] items@[j + 1], j, cv[j], env_local_id.0, env_tuple_ty@, span),
            decreases captures.len() - i,
        {
            let item = env_store_item(i, captures[i].0, &captures[i].1, env_local_id, env_tuple_ty, span);
            assert(cv[i as int] == (captures@[i as int].0.0, captures@[i as int].1@));
            items.push(item);
            i = i + 1;
        }
        let cast_tail = Expr {
            span,
            ty: Ty::Ptr(Box::new(Ty::U8)),
            kind: ExprKind::Cast {
                target: Ty::Ptr(Box::new(Ty::U8)),
                expr: Box::new(Expr { span, ty: Ty::Ptr(Box::new(env_tuple_ty.duplicate())), kind: ExprKind::Local(env_local_id) }),
            },
        };
        proof {
            reveal_with_fuel(crate::hir::types::ty_view, 2);
            reveal_strlit("__env");
        }
        Expr { span, ty: Ty::Ptr(Box::new(Ty::U8)), kind: ExprKind::Block(Block { span, items, tail: Box::new(cast_tail) }) }
    }
}

} // verus!
