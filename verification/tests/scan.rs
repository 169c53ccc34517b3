use frey::hir::capture::rewrite_captures_in_expr;
use frey::hir::scan::{
    block_has_typevars, collect_typevars_in_block, collect_typevars_in_expr, expr_has_typevars,
};
use frey::hir::types::{
    BinaryOperator, Block, BlockItem, Const, Declaration, Expr, ExprKind, FunctionCall,
    IntrinsicKind, LocalId, Statement, StatementKind, Ty, TypeVarId, UnaryOperator, is_place_kind,
    unit_expr,
};
use frey::lexer::types::{Position, Span};
use std::collections::HashMap;

fn span() -> Span {
    let p = Position { offset: 0, line: 1, column: 1 };
    Span { start: p, end: p }
}

fn expr(ty: Ty, kind: ExprKind) -> Expr {
    Expr { span: span(), ty, kind }
}

fn lit(n: i32) -> Expr {
    expr(Ty::Int, ExprKind::Const(Const::Int(n)))
}

fn tv(n: u32) -> Ty {
    Ty::TypeVar(TypeVarId(n))
}

fn cast_to(target: Ty, e: Expr) -> Expr {
    expr(Ty::Int, ExprKind::Cast { target, expr: Box::new(e) })
}

fn ids(v: &[TypeVarId]) -> Vec<u32> {
    v.iter().map(|t| t.0).collect()
}

#[test]
fn a_constant_of_a_concrete_type_has_no_type_variables() {
    assert!(!expr_has_typevars(&lit(1)));
}

#[test]
fn a_node_typed_by_a_type_variable_is_found() {
    let e = expr(tv(3), ExprKind::Local(LocalId(0)));
    assert!(expr_has_typevars(&e));
}

#[test]
fn a_type_variable_deep_inside_a_cast_target_is_found() {
    let inner = cast_to(Ty::Ptr(Box::new(tv(2))), lit(0));
    let e = expr(Ty::Int, ExprKind::Unary { op: UnaryOperator::Minus, operand: Box::new(inner) });
    assert!(expr_has_typevars(&e));
}

#[test]
fn a_declared_type_with_a_type_variable_makes_the_block_generic() {
    let d = Declaration {
        id: LocalId(1),
        span: span(),
        mutable: false,
        name: "x".to_string(),
        ty: tv(5),
        value: lit(1),
    };
    let b = Block { span: span(), items: vec![BlockItem::Declaration(d)], tail: Box::new(lit(2)) };
    assert!(block_has_typevars(&b));
    let b2 = Block { span: span(), items: vec![], tail: Box::new(lit(2)) };
    assert!(!block_has_typevars(&b2));
}

#[test]
fn collecting_annotations_skips_the_node_types_and_repeats() {
    // The node types (TypeVar 9) are not annotations; the cast targets are.
    let a = cast_to(tv(4), expr(tv(9), ExprKind::Local(LocalId(0))));
    let b = cast_to(Ty::Tuple(vec![tv(1), tv(4)]), lit(0));
    let e = expr(tv(9), ExprKind::Tuple(vec![a, b]));
    let mut out = Vec::new();
    collect_typevars_in_expr(&e, &mut out);
    assert_eq!(ids(&out), vec![4, 1]);
}

#[test]
fn collecting_keeps_what_was_there_and_adds_intrinsic_element_types() {
    let e = expr(
        Ty::Ptr(Box::new(tv(7))),
        ExprKind::Intrinsic { kind: IntrinsicKind::Alloc, elem_ty: tv(7), args: vec![lit(3)] },
    );
    let mut out = vec![TypeVarId(2)];
    collect_typevars_in_expr(&e, &mut out);
    assert_eq!(ids(&out), vec![2, 7]);
    collect_typevars_in_expr(&e, &mut out);
    assert_eq!(ids(&out), vec![2, 7]);
}

#[test]
fn collecting_in_a_block_walks_declarations_statements_and_tail() {
    let d = Declaration {
        id: LocalId(1),
        span: span(),
        mutable: true,
        name: "p".to_string(),
        ty: Ty::Ptr(Box::new(tv(6))),
        value: cast_to(tv(8), lit(0)),
    };
    let s = Statement { span: span(), kind: StatementKind::Expr(cast_to(tv(6), lit(1))) };
    let b = Block {
        span: span(),
        items: vec![BlockItem::Declaration(d), BlockItem::Statement(s)],
        tail: Box::new(cast_to(tv(3), lit(2))),
    };
    let mut out = Vec::new();
    collect_typevars_in_block(&b, &mut out);
    assert_eq!(ids(&out), vec![6, 8, 3]);
}

fn local(id: u32, ty: Ty) -> Expr {
    expr(ty, ExprKind::Local(LocalId(id)))
}

fn env_slot(e: &Expr) -> Option<(u32, usize)> {
    let ExprKind::TupleField { target, index } = &e.kind else { return None };
    let ExprKind::Deref(cast) = &target.kind else { return None };
    let ExprKind::Cast { target: ptr_ty, expr: env } = &cast.kind else { return None };
    let env_tuple = Ty::Tuple(vec![Ty::Int, Ty::U8]);
    assert_eq!(*ptr_ty, Ty::Ptr(Box::new(env_tuple)));
    assert_eq!(env.ty, Ty::Ptr(Box::new(Ty::U8)));
    let ExprKind::Local(LocalId(env_id)) = env.kind else { return None };
    Some((env_id, *index))
}

#[test]
fn captured_locals_are_read_from_the_environment() {
    let mut caps = HashMap::new();
    caps.insert(1u32, 0usize);
    caps.insert(3u32, 1usize);
    let env_tuple = Ty::Tuple(vec![Ty::Int, Ty::U8]);
    let mut e = expr(
        Ty::Int,
        ExprKind::Binary {
            op: BinaryOperator::Add,
            lhs: Box::new(local(1, Ty::Int)),
            rhs: Box::new(local(2, Ty::Int)),
        },
    );
    let at = Span { start: Position { offset: 4, line: 2, column: 3 }, end: Position { offset: 9, line: 2, column: 8 } };
    rewrite_captures_in_expr(&mut e, &caps, LocalId(9), &env_tuple, at);
    let ExprKind::Binary { lhs, rhs, .. } = &e.kind else { panic!("not a binary") };
    assert_eq!(env_slot(lhs), Some((9, 0)));
    assert_eq!(lhs.ty, Ty::Int);
    assert_eq!(lhs.span, at);
    assert!(matches!(rhs.kind, ExprKind::Local(LocalId(2))));
}

#[test]
fn captures_inside_blocks_and_calls_are_rewritten_too() {
    let mut caps = HashMap::new();
    caps.insert(3u32, 1usize);
    let env_tuple = Ty::Tuple(vec![Ty::Int, Ty::U8]);
    let call = expr(
        Ty::Unit,
        ExprKind::Call(FunctionCall {
            callee: Box::new(local(5, Ty::Unit)),
            args: vec![local(3, Ty::U8), lit(4)],
        }),
    );
    let s = Statement { span: span(), kind: StatementKind::Expr(call) };
    let mut e = expr(
        Ty::U8,
        ExprKind::Block(Block {
            span: span(),
            items: vec![BlockItem::Statement(s)],
            tail: Box::new(local(3, Ty::U8)),
        }),
    );
    rewrite_captures_in_expr(&mut e, &caps, LocalId(0), &env_tuple, span());
    let ExprKind::Block(b) = &e.kind else { panic!("not a block") };
    assert_eq!(env_slot(&b.tail), Some((0, 1)));
    let BlockItem::Statement(Statement { kind: StatementKind::Expr(c), .. }) = &b.items[0] else {
        panic!("not a statement")
    };
    let ExprKind::Call(FunctionCall { callee, args }) = &c.kind else { panic!("not a call") };
    assert!(matches!(callee.kind, ExprKind::Local(LocalId(5))));
    assert_eq!(env_slot(&args[0]), Some((0, 1)));
    assert!(matches!(args[1].kind, ExprKind::Const(Const::Int(4))));
}

#[test]
fn places_are_locals_fields_subscripts_and_dereferences() {
    assert!(is_place_kind(&ExprKind::Local(LocalId(0))));
    assert!(is_place_kind(&ExprKind::Deref(Box::new(lit(0)))));
    assert!(is_place_kind(&ExprKind::Subscript { expr: Box::new(lit(0)), index: Box::new(lit(1)) }));
    assert!(is_place_kind(&ExprKind::Field { target: Box::new(lit(0)), name: "x".to_string(), index: 0 }));
    assert!(!is_place_kind(&ExprKind::Const(Const::Int(1))));
    assert!(!is_place_kind(&ExprKind::TupleField { target: Box::new(lit(0)), index: 0 }));
}

#[test]
fn the_unit_expression_has_the_unit_type() {
    let u = unit_expr(span());
    assert_eq!(u.ty, Ty::Unit);
    assert!(matches!(u.kind, ExprKind::Const(Const::Unit)));
    assert_eq!(u.span, span());
}

#[test]
fn the_environment_block_allocates_and_fills_the_tuple() {
    let mut l = frey::hir::lower::Lower::new();
    let env_tuple = Ty::Tuple(vec![Ty::Int, Ty::U8]);
    let caps = vec![(LocalId(5), Ty::Int), (LocalId(6), Ty::U8)];
    let e = l.build_env_alloc_expr(&caps, &env_tuple, span());
    assert_eq!(e.ty, Ty::Ptr(Box::new(Ty::U8)));
    let ExprKind::Block(b) = &e.kind else { panic!("not a block") };
    assert_eq!(b.items.len(), 3);
    let BlockItem::Declaration(d) = &b.items[0] else { panic!("not a declaration") };
    assert_eq!(d.name, "__env");
    assert_eq!(d.ty, Ty::Ptr(Box::new(Ty::Tuple(vec![Ty::Int, Ty::U8]))));
    let env_id = d.id;
    assert!(matches!(&d.value.kind, ExprKind::Intrinsic { kind: IntrinsicKind::Alloc, args, .. } if args.len() == 1));
    for (i, item) in b.items[1..].iter().enumerate() {
        let BlockItem::Statement(Statement { kind: StatementKind::Expr(a), .. }) = item else { panic!("not a statement") };
        let ExprKind::Assign { target, value } = &a.kind else { panic!("not an assignment") };
        let ExprKind::TupleField { target: d, index } = &target.kind else { panic!("not a tuple field") };
        assert_eq!(*index, i);
        let ExprKind::Deref(p) = &d.kind else { panic!("not a dereference") };
        assert!(matches!(p.kind, ExprKind::Local(id) if id == env_id));
        assert!(matches!(value.kind, ExprKind::Local(LocalId(n)) if n == 5 + i as u32));
    }
    assert!(matches!(&b.tail.kind, ExprKind::Cast { .. }));
    assert_eq!(l.bindings.get(&env_id.0), Some(&Ty::Ptr(Box::new(Ty::Tuple(vec![Ty::Int, Ty::U8])))));
}
