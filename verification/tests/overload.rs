use frey::hir::error::{Error, ErrorKind};
use frey::hir::lower::Lower;
use frey::hir::overload::{apply_recv_adjust, maybe_autoref, receiver_forms, RecvAdjust};
use frey::hir::types::{tys_duplicate, Const, Expr, ExprKind, LocalId, StructDef, Ty, TypeVarId};
use frey::lexer::types::{Position, Span};

fn span(line: usize) -> Span {
    let p = Position { offset: 0, line, column: 1 };
    Span { start: p, end: p }
}

fn func(params: Vec<Ty>) -> Ty {
    Ty::Function { params, return_ty: Box::new(Ty::Unit), varargs: false }
}

fn ptr(t: Ty) -> Ty {
    Ty::Ptr(Box::new(t))
}

fn local(id: u32, ty: Ty) -> Expr {
    Expr { span: span(1), ty, kind: ExprKind::Local(LocalId(id)) }
}

fn with_fns(fns: &[(&str, u32, Vec<Ty>)]) -> Lower {
    let mut l = Lower::new();
    for (name, id, params) in fns {
        l.bindings.insert(*id, func(tys_duplicate(params)));
        match l.overloads.iter_mut().find(|(n, _)| n == name) {
            Some((_, ids)) => ids.push(LocalId(*id)),
            None => l.overloads.push((name.to_string(), vec![LocalId(*id)])),
        }
    }
    l
}

#[test]
fn the_parameters_of_a_function_binding() {
    let l = with_fns(&[("f", 3, vec![Ty::Int, ptr(Ty::U8)])]);
    assert_eq!(l.fn_params(LocalId(3)), vec![Ty::Int, ptr(Ty::U8)]);
    assert_eq!(l.fn_params(LocalId(9)), Vec::<Ty>::new());
}

#[test]
fn overloads_match_by_argument_types() {
    let l = Lower::new();
    let tv = Ty::TypeVar(TypeVarId(0));
    assert!(l.overload_matches(&vec![Ty::Int], &vec![Ty::Int]));
    assert!(!l.overload_matches(&vec![Ty::Int], &vec![Ty::F32]));
    assert!(!l.overload_matches(&vec![Ty::Int], &vec![]));
    assert!(l.overload_matches(&vec![tv.duplicate(), tv.duplicate()], &vec![Ty::U8, Ty::U8]));
    assert!(!l.overload_matches(&vec![tv.duplicate(), tv.duplicate()], &vec![Ty::U8, Ty::Int]));
}

#[test]
fn the_one_accepting_overload_is_chosen() {
    let l = with_fns(&[("f", 3, vec![Ty::Int]), ("f", 4, vec![ptr(Ty::U8)])]);
    let name = "f".to_string();
    assert_eq!(l.resolve_overload(&name, &vec![Ty::Int], span(2)), Ok(LocalId(3)));
    assert_eq!(l.resolve_overload(&name, &vec![ptr(Ty::U8)], span(2)), Ok(LocalId(4)));
    assert_eq!(
        l.resolve_overload(&name, &vec![Ty::F32], span(2)),
        Err(Error { span: span(2), kind: ErrorKind::NoMatchingOverload { name: "f".to_string() } })
    );
    assert_eq!(
        l.resolve_overload(&"g".to_string(), &vec![Ty::Int], span(3)),
        Err(Error { span: span(3), kind: ErrorKind::NoMatchingOverload { name: "g".to_string() } })
    );
}

#[test]
fn two_accepting_overloads_are_ambiguous() {
    let l = with_fns(&[("g", 5, vec![Ty::TypeVar(TypeVarId(0))]), ("g", 6, vec![Ty::Int])]);
    assert_eq!(
        l.resolve_overload(&"g".to_string(), &vec![Ty::Int], span(4)),
        Err(Error { span: span(4), kind: ErrorKind::AmbiguousOverload { name: "g".to_string() } })
    );
    assert_eq!(l.resolve_overload(&"g".to_string(), &vec![Ty::U8], span(4)), Ok(LocalId(5)));
}

#[test]
fn receiver_forms_in_order_of_preference() {
    let forms = receiver_forms(&local(1, ptr(Ty::Int)));
    assert_eq!(forms.len(), 3);
    assert_eq!(forms[0], (ptr(Ty::Int), RecvAdjust::AsIs));
    assert_eq!(forms[1], (ptr(ptr(Ty::Int)), RecvAdjust::Ref));
    assert_eq!(forms[2], (Ty::Int, RecvAdjust::Deref));
    let lit = Expr { span: span(1), ty: Ty::Int, kind: ExprKind::Const(Const::Int(1)) };
    assert_eq!(receiver_forms(&lit), vec![(Ty::Int, RecvAdjust::AsIs)]);
}

#[test]
fn adjusting_a_receiver_takes_its_address_or_dereferences_it() {
    let r = apply_recv_adjust(local(1, Ty::Int), RecvAdjust::Ref);
    assert_eq!(r.ty, ptr(Ty::Int));
    assert!(matches!(r.kind, ExprKind::Ref(_)));
    let d = apply_recv_adjust(local(1, ptr(Ty::U8)), RecvAdjust::Deref);
    assert_eq!(d.ty, Ty::U8);
    assert!(matches!(d.kind, ExprKind::Deref(_)));
    let same = apply_recv_adjust(local(2, Ty::Int), RecvAdjust::AsIs);
    assert!(matches!(same.kind, ExprKind::Local(LocalId(2))));
}

#[test]
fn a_method_taking_a_pointer_gets_the_receiver_by_address() {
    let s = Ty::Struct("S".to_string());
    let l = with_fns(&[("len", 7, vec![ptr(s.duplicate())])]);
    let (id, recv) = l.resolve_method(&"len".to_string(), local(1, s.duplicate()), &vec![], span(5)).unwrap();
    assert_eq!(id, LocalId(7));
    assert_eq!(recv.ty, ptr(s));
    assert!(matches!(recv.kind, ExprKind::Ref(_)));
}

#[test]
fn a_method_on_a_pointer_receiver_may_dereference_it() {
    let l = with_fns(&[("get", 8, vec![Ty::Int, Ty::U8])]);
    let (id, recv) =
        l.resolve_method(&"get".to_string(), local(1, ptr(Ty::Int)), &vec![Ty::U8], span(5)).unwrap();
    assert_eq!(id, LocalId(8));
    assert_eq!(recv.ty, Ty::Int);
    assert!(matches!(recv.kind, ExprKind::Deref(_)));
    let err = l.resolve_method(&"get".to_string(), local(1, ptr(Ty::Int)), &vec![], span(6));
    assert_eq!(
        err.err(),
        Some(Error { span: span(6), kind: ErrorKind::NoMatchingOverload { name: "get".to_string() } })
    );
}

#[test]
fn a_method_named_by_a_local_function_value() {
    let mut l = Lower::new();
    l.bindings.insert(2, func(vec![ptr(Ty::Int)]));
    l.scopes[0].push(("cb".to_string(), LocalId(2)));
    l.enter_scope();
    let (id, recv) = l.resolve_method(&"cb".to_string(), local(1, Ty::Int), &vec![], span(7)).unwrap();
    assert_eq!(id, LocalId(2));
    assert!(matches!(recv.kind, ExprKind::Ref(_)));
    assert_eq!(
        l.resolve_method(&"nope".to_string(), local(1, Ty::Int), &vec![], span(8)).err(),
        Some(Error { span: span(8), kind: ErrorKind::NameNotFound { name: "nope".to_string() } })
    );
}

#[test]
fn names_resolve_from_the_innermost_scope_out() {
    let mut l = Lower::new();
    l.scopes[0].push(("x".to_string(), LocalId(1)));
    assert_eq!(l.resolve(&"x".to_string()), Some(LocalId(1)));
    l.enter_scope();
    l.scopes[1].push(("x".to_string(), LocalId(2)));
    assert_eq!(l.resolve(&"x".to_string()), Some(LocalId(2)));
    l.leave_scope();
    assert_eq!(l.resolve(&"x".to_string()), Some(LocalId(1)));
    assert_eq!(l.resolve(&"y".to_string()), None);
}

#[test]
fn autoref_only_for_places_that_are_not_pointers() {
    let f = func(vec![ptr(Ty::Int)]);
    assert!(matches!(maybe_autoref(local(1, Ty::Int), &f).kind, ExprKind::Ref(_)));
    assert!(matches!(maybe_autoref(local(1, ptr(Ty::Int)), &f).kind, ExprKind::Local(_)));
    let lit = Expr { span: span(1), ty: Ty::Int, kind: ExprKind::Const(Const::Int(1)) };
    assert!(matches!(maybe_autoref(lit, &f).kind, ExprKind::Const(_)));
    assert!(matches!(maybe_autoref(local(1, Ty::Int), &func(vec![Ty::Int])).kind, ExprKind::Local(_)));
}

#[test]
fn field_access_dereferences_pointers_until_a_value() {
    let l = Lower::new();
    let s = Ty::Struct("S".to_string());
    let r = l.autoderef_to_struct(local(1, ptr(ptr(s.duplicate()))));
    assert_eq!(r.ty, s);
    let ExprKind::Deref(inner) = &r.kind else { panic!("not a dereference") };
    assert_eq!(inner.ty, ptr(Ty::Struct("S".to_string())));
    assert!(matches!(inner.kind, ExprKind::Deref(_)));
    let plain = l.autoderef_to_struct(local(2, Ty::Int));
    assert!(matches!(plain.kind, ExprKind::Local(LocalId(2))));
}

#[test]
fn fields_are_found_through_pointers_and_templates() {
    let mut l = Lower::new();
    l.structs.push(StructDef {
        name: "S".to_string(),
        type_var_ids: vec![],
        fields: vec![("a".to_string(), Ty::Int), ("b".to_string(), ptr(Ty::U8))],
    });
    l.struct_templates.push(StructDef {
        name: "P".to_string(),
        type_var_ids: vec![TypeVarId(0)],
        fields: vec![("x".to_string(), Ty::TypeVar(TypeVarId(0))), ("y".to_string(), Ty::Int)],
    });
    let s = Ty::Struct("S".to_string());
    assert_eq!(l.resolve_field(&ptr(ptr(s.duplicate())), &"b".to_string()), Some((1, ptr(Ty::U8))));
    assert_eq!(l.resolve_field(&s, &"a".to_string()), Some((0, Ty::Int)));
    assert_eq!(l.resolve_field(&s, &"c".to_string()), None);
    assert_eq!(l.resolve_field(&Ty::Int, &"a".to_string()), None);
    let p = Ty::GenericStruct { name: "P".to_string(), args: vec![ptr(Ty::F64)] };
    assert_eq!(l.resolve_field(&p, &"x".to_string()), Some((0, ptr(Ty::F64))));
    assert_eq!(l.resolve_field(&ptr(p), &"y".to_string()), Some((1, Ty::Int)));
}

#[test]
fn argument_hints_come_from_the_one_fitting_overload() {
    let t0 = Ty::TypeVar(TypeVarId(0));
    let mut l = with_fns(&[("f", 3, vec![Ty::Int, t0.duplicate()]), ("f", 4, vec![ptr(Ty::U8)])]);
    let name = "f".to_string();
    assert_eq!(l.arg_hints_from_args(&name, &vec![Some(Ty::Int), None]), Some(vec![Ty::Int, t0.duplicate()]));
    assert_eq!(l.arg_hints_from_args(&name, &vec![Some(Ty::Int), Some(Ty::U8)]), Some(vec![Ty::Int, Ty::U8]));
    assert_eq!(l.arg_hints_from_args(&name, &vec![Some(Ty::F32), None]), None);
    assert_eq!(l.arg_hints_from_args(&name, &vec![None]), Some(vec![ptr(Ty::U8)]));
    assert_eq!(l.arg_hints_from_args(&"g".to_string(), &vec![None]), None);
}

#[test]
fn argument_hints_from_the_receiver_of_a_method_call() {
    let t0 = Ty::TypeVar(TypeVarId(0));
    let s = Ty::Struct("S".to_string());
    let mut l = with_fns(&[
        ("push", 3, vec![ptr(s.duplicate()), t0.duplicate()]),
        ("push", 4, vec![Ty::Int, Ty::U8, Ty::U8]),
    ]);
    let name = "push".to_string();
    // The receiver is a place of type S: by address it fits `push(*S, $T)`.
    assert_eq!(l.arg_hints_from_receiver(&name, &local(1, s.duplicate()), &vec![None]), Some(vec![t0.duplicate()]));
    assert_eq!(
        l.arg_hints_from_receiver(&name, &local(1, s.duplicate()), &vec![Some(Ty::F64)]),
        Some(vec![Ty::F64])
    );
    // Two other arguments: only `push(Int, U8, U8)` has the arity, and an Int receiver fits it.
    assert_eq!(
        l.arg_hints_from_receiver(&name, &local(2, Ty::Int), &vec![None, None]),
        Some(vec![Ty::U8, Ty::U8])
    );
    assert_eq!(l.arg_hints_from_receiver(&name, &local(2, Ty::F32), &vec![None, None]), None);
    assert_eq!(l.arg_hints_from_receiver(&"pop".to_string(), &local(1, s), &vec![]), None);
}
