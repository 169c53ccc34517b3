use frey::ast::parser::Parser;
use frey::hir::error::ErrorKind;
use frey::hir::lower::Lower;
use frey::hir::types::{BlockItem, Const, ExprKind, LocalId, Program, StatementKind, Ty};
use frey::lexer::tokenize;
use frey::semantics::type_checker::type_check;

fn lower_src(src: &str) -> Result<Program, ErrorKind> {
    let ast = Parser::new(tokenize(src).unwrap()).parse().unwrap();
    frey::hir::lower(&ast).map_err(|e| e.kind)
}

fn body_of(p: &Program, i: usize) -> &frey::hir::types::Block {
    let ExprKind::Function(f) = &p.declarations[i].value.kind else { panic!("not a function") };
    &f.body
}

#[test]
fn a_function_body_lowers_with_its_types() {
    let p = lower_src("let main = () -> Int { let x = 1; let y: u8 = 2; x + 3 };").unwrap();
    assert_eq!(p.declarations.len(), 1);
    assert_eq!(p.declarations[0].name, "main");
    assert_eq!(
        p.declarations[0].ty,
        Ty::Function { params: vec![], return_ty: Box::new(Ty::Int), varargs: false }
    );
    let b = body_of(&p, 0);
    assert_eq!(b.items.len(), 2);
    let BlockItem::Declaration(y) = &b.items[1] else { panic!("not a declaration") };
    // The literal is coerced to the annotated type.
    assert_eq!(y.ty, Ty::U8);
    assert_eq!(y.value.ty, Ty::U8);
    assert_eq!(b.tail.ty, Ty::Int);
    assert!(matches!(b.tail.kind, ExprKind::Binary { .. }));
    assert_eq!(type_check(&p), Ok(()));
}

#[test]
fn names_resolve_to_parameters_and_locals() {
    let p = lower_src("let f = (a: Int) -> Int { let b = a; b };").unwrap();
    let ExprKind::Function(f) = &p.declarations[0].value.kind else { panic!("not a function") };
    let pid = f.params[0].id;
    let BlockItem::Declaration(b) = &f.body.items[0] else { panic!("not a declaration") };
    assert!(matches!(b.value.kind, ExprKind::Local(id) if id == pid));
    assert!(matches!(f.body.tail.kind, ExprKind::Local(id) if id == b.id));
}

#[test]
fn calls_coerce_literal_arguments_to_parameter_types() {
    let p = lower_src("let g = (x: u8) -> u8 { x }; let main = () -> u8 { g(7) };").unwrap();
    let b = body_of(&p, 1);
    let ExprKind::Call(call) = &b.tail.kind else { panic!("not a call") };
    assert_eq!(b.tail.ty, Ty::U8);
    assert_eq!(call.args[0].ty, Ty::U8);
    // The literal is wrapped in a cast to the parameter type.
    let ExprKind::Cast { target, expr } = &call.args[0].kind else { panic!("not a cast") };
    assert_eq!(*target, Ty::U8);
    assert!(matches!(expr.kind, ExprKind::Const(Const::Int(7))));
    assert!(matches!(call.callee.kind, ExprKind::Local(LocalId(_))));
}

#[test]
fn unknown_names_and_fields_are_reported() {
    assert_eq!(
        lower_src("let main = () -> Int { nope };").err(),
        Some(ErrorKind::NameNotFound { name: "nope".to_string() })
    );
    assert_eq!(
        lower_src("let P = struct { x: Int }; let f = (p: *P) -> Int { p.y };").err(),
        Some(ErrorKind::UnknownField { struct_name: "P".to_string(), field: "y".to_string() })
    );
    assert_eq!(lower_src("let main = () -> Int { let a = []; 0 };").err(), Some(ErrorKind::EmptyArrayLiteral));
}

#[test]
fn fields_are_reached_through_pointers() {
    let p = lower_src("let P = struct { x: Int, y: u8 }; let f = (p: **P) -> u8 { p.y };").unwrap();
    let b = body_of(&p, 0);
    let ExprKind::Field { target, index, .. } = &b.tail.kind else { panic!("not a field") };
    assert_eq!(*index, 1);
    assert_eq!(target.ty, Ty::Struct("P".to_string()));
    assert!(matches!(target.kind, ExprKind::Deref(_)));
    assert_eq!(p.structs.len(), 1);
}

#[test]
fn if_and_while_and_statements_lower() {
    let src = "let main = () -> Int { let mut i = 0; while i < 3 { i = i + 1; } defer i; if i == 3 { 1 } else { 2 } };";
    let p = lower_src(src).unwrap();
    let b = body_of(&p, 0);
    assert!(matches!(&b.items[2], BlockItem::Statement(s) if matches!(s.kind, StatementKind::Defer(_))));
    assert_eq!(b.tail.ty, Ty::Int);
    assert!(matches!(b.tail.kind, ExprKind::If { .. }));
    assert_eq!(type_check(&p), Ok(()));
}

#[test]
fn a_second_binding_in_one_scope_is_refused() {
    assert_eq!(
        lower_src("let main = () -> Int { let a = 1; let a = 2; a };").err(),
        Some(ErrorKind::AlreadyDefined { name: "a".to_string() })
    );
}

#[test]
fn constructs_not_lowered_here_are_reported() {
    let r = lower_src("let main = () -> Int { let f = () -> Int { 1 }; 0 };");
    assert!(matches!(r, Err(ErrorKind::NotLowered { .. })));
}

#[test]
fn an_expression_lowers_in_a_scope() {
    let mut lw = Lower::new();
    let e = Parser::new(tokenize("[2.5, 1.5][1]").unwrap()).parse_expr().unwrap();
    let x = lw.lower_expr_with_hint(&e, None).unwrap();
    assert_eq!(x.ty, Ty::Float);
    assert!(matches!(x.kind, ExprKind::Subscript { .. }));
    assert_eq!(x.span, e.span);
}

#[test]
fn struct_literals_follow_the_definition_order() {
    let p = lower_src("let P = struct { x: Int, y: u8 }; let f = () -> P { P { y: 1, x: 2 } };").unwrap();
    let b = body_of(&p, 0);
    assert_eq!(b.tail.ty, Ty::Struct("P".to_string()));
    let ExprKind::StructLiteral { fields } = &b.tail.kind else { panic!("not a struct literal") };
    assert_eq!(fields[0].0, "x");
    assert_eq!(fields[1].0, "y");
    assert_eq!(fields[1].1.ty, Ty::U8);
    assert_eq!(
        lower_src("let P = struct { x: Int, y: u8 }; let f = () -> P { P { x: 2 } };").err(),
        Some(ErrorKind::MissingFields { struct_name: "P".to_string(), missing: vec!["y".to_string()] })
    );
    assert_eq!(
        lower_src("let P = struct { x: Int }; let f = () -> P { P { x: 2, x: 3 } };").err(),
        Some(ErrorKind::DuplicateField { struct_name: "P".to_string(), field: "x".to_string() })
    );
}

#[test]
fn method_calls_pass_the_receiver_first_by_address_when_needed() {
    let src = "let P = struct { x: Int }; let getx = (p: *P) -> Int { p.x }; let main = () -> Int { let p = P { x: 1 }; p.getx() };";
    let p = lower_src(src).unwrap();
    let b = body_of(&p, 1);
    let ExprKind::Call(call) = &b.tail.kind else { panic!("not a call") };
    assert!(matches!(call.callee.kind, ExprKind::Local(id) if id == p.declarations[0].id));
    assert_eq!(call.args.len(), 1);
    assert!(matches!(call.args[0].kind, ExprKind::Ref(_)));
    assert_eq!(b.tail.ty, Ty::Int);
}

#[test]
fn overloaded_calls_pick_the_accepting_function() {
    let src = "let f = (x: Int) -> Int { x }; let f = (x: *u8) -> u8 { 0 }; let main = () -> Int { f(1) };";
    let p = lower_src(src).unwrap();
    let b = body_of(&p, 2);
    let ExprKind::Call(call) = &b.tail.kind else { panic!("not a call") };
    assert!(matches!(call.callee.kind, ExprKind::Local(id) if id == p.declarations[0].id));
    assert_eq!(b.tail.ty, Ty::Int);
}

#[test]
fn lowered_operands_keep_their_source_spans() {
    let mut lw = Lower::new();
    let e = Parser::new(tokenize("-(1 + 2)").unwrap()).parse_expr().unwrap();
    let x = lw.lower_expr_with_hint(&e, None).unwrap();
    let frey::ast::types::ExprKind::Unary { expr: inner, .. } = &e.kind else { panic!("not unary") };
    let ExprKind::Unary { operand, .. } = &x.kind else { panic!("not unary") };
    assert_eq!(operand.span, inner.span);
    let frey::ast::types::ExprKind::Binary { lhs, rhs, .. } = &inner.kind else { panic!("not binary") };
    let ExprKind::Binary { lhs: l, rhs: r, .. } = &operand.kind else { panic!("not binary") };
    assert_eq!(l.span, lhs.span);
    assert_eq!(r.span, rhs.span);
}
