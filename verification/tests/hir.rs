use frey::hir::coerce::{coerce_int_literal, coerce_through_tails, const_int_literal, fits_in_ty};
use frey::hir::comptime::{eval, eval_binary, expr_diverges, item_diverges, CtValue};
use frey::hir::error::{Error, ErrorKind};
use frey::hir::generics::{
    collect_typevars, enum_type_args_from_hint, try_unify_one, ty_has_typevars, unify, Origins,
};
use frey::hir::types::{
    end_of, mangle_specialization, mangle_struct_specialization, BinaryOperator, Block, BlockItem,
    Const, Expr, ExprKind, LocalIdGen, Statement, StatementKind, Ty, TypeVarId, UnaryOperator,
};
use frey::lexer::types::{Position, Span};
use std::collections::HashMap;

fn span(line: usize, column: usize) -> Span {
    let p = Position { offset: 0, line, column };
    Span { start: p, end: p }
}

fn lit(n: i32) -> Expr {
    Expr { span: span(1, 1), ty: Ty::Int, kind: ExprKind::Const(Const::Int(n)) }
}

fn tv(n: u32) -> Ty {
    Ty::TypeVar(TypeVarId(n))
}

fn ptr(t: Ty) -> Ty {
    Ty::Ptr(Box::new(t))
}

fn func(params: Vec<Ty>, ret: Ty) -> Ty {
    Ty::Function { params, return_ty: Box::new(ret), varargs: false }
}

fn generic(name: &str, args: Vec<Ty>) -> Ty {
    Ty::GenericStruct { name: name.to_string(), args }
}

#[test]
fn ty_predicates() {
    assert!(ptr(Ty::Int).is_pointer());
    assert!(!Ty::Int.is_pointer());
    assert!(Ty::I8.is_int() && Ty::I64.is_int() && !Ty::U8.is_int());
    assert!(Ty::U32.is_uint() && !Ty::Int.is_uint());
    assert!(Ty::F64.is_float() && !Ty::I64.is_float());
    assert!(Ty::U64.is_integer() && Ty::Int.is_integer() && !Ty::Float.is_integer());
    assert!(Ty::F32.is_number() && Ty::UInt.is_number() && !Ty::Unit.is_number());
    assert!(tv(0).is_generic() && !Ty::Int.is_generic());
}

#[test]
fn ty_bit_widths() {
    assert_eq!(Ty::I8.bit_width(), Some(8));
    assert_eq!(Ty::U8.bit_width(), Some(8));
    assert_eq!(Ty::Int.bit_width(), Some(32));
    assert_eq!(Ty::Float.bit_width(), Some(32));
    assert_eq!(Ty::U64.bit_width(), Some(64));
    assert_eq!(Ty::F64.bit_width(), Some(64));
    assert_eq!(Ty::Unit.bit_width(), None);
    assert_eq!(ptr(Ty::Int).bit_width(), None);
}

#[test]
fn ty_text_renders_nested_types() {
    let t = func(vec![ptr(Ty::U8), Ty::Int], Ty::Array { element: Box::new(Ty::F64), count: 3 });
    assert_eq!(t.text(), "(*u8, Int) -> [f64; 3]");
    assert_eq!(generic("Pair", vec![Ty::Int, Ty::I8]).text(), "Pair<Int, i8>");
    assert_eq!(tv(7).text(), "type var id 7");
    assert_eq!(Ty::Tuple(vec![Ty::Unit, Ty::UInt]).text(), "(Unit, UInt)");
    assert_eq!(Ty::Struct("Point".to_string()).text(), "Point");
}

#[test]
fn ty_same_and_duplicate() {
    let t = func(vec![ptr(Ty::U8)], generic("Box", vec![Ty::Int]));
    let d = t.duplicate();
    assert!(t.same(&d));
    assert_eq!(t, d);
    assert!(!t.same(&func(vec![ptr(Ty::I8)], generic("Box", vec![Ty::Int]))));
    assert!(!Ty::Struct("A".to_string()).same(&Ty::Enum("A".to_string())));
}

#[test]
fn mangles_specializations() {
    assert_eq!(mangle_specialization("id", &[Ty::Int]), "id$Int");
    assert_eq!(mangle_specialization("pair", &[Ty::U8, ptr(Ty::Int)]), "pair$u8$*Int");
    assert_eq!(mangle_specialization("f", &[]), "f");
    assert_eq!(mangle_struct_specialization("Box", &[Ty::F32]), "Box$f32");
}

#[test]
fn end_of_is_empty_span_at_end() {
    let s = Span {
        start: Position { offset: 3, line: 1, column: 4 },
        end: Position { offset: 9, line: 2, column: 2 },
    };
    let e = end_of(s);
    assert_eq!(e.start, s.end);
    assert_eq!(e.end, s.end);
}

#[test]
fn local_ids_are_fresh() {
    let mut g = LocalIdGen::new();
    let a = g.fresh();
    let b = g.fresh();
    assert_ne!(a, b);
    assert_eq!(a.0 + 1, b.0);
}

#[test]
fn finds_type_variables() {
    assert!(!ty_has_typevars(&Ty::Int));
    assert!(ty_has_typevars(&ptr(tv(1))));
    assert!(ty_has_typevars(&func(vec![Ty::Int], tv(0))));
    assert!(!ty_has_typevars(&func(vec![Ty::Int], Ty::Unit)));
    assert!(ty_has_typevars(&generic("Box", vec![tv(3)])));
}

#[test]
fn collects_type_variables_once_in_order() {
    let t = func(vec![tv(2), ptr(tv(1)), tv(2)], generic("Pair", vec![tv(1), tv(5)]));
    let mut out = vec![TypeVarId(5)];
    collect_typevars(&t, &mut out);
    assert_eq!(out, vec![TypeVarId(5), TypeVarId(2), TypeVarId(1)]);
}

#[test]
fn collecting_twice_adds_nothing() {
    let t = Ty::Tuple(vec![tv(4), tv(3), tv(4)]);
    let mut out = Vec::new();
    collect_typevars(&t, &mut out);
    let once = out.clone();
    collect_typevars(&t, &mut out);
    assert_eq!(out, once);
    assert_eq!(once, vec![TypeVarId(4), TypeVarId(3)]);
}

#[test]
fn unify_binds_type_variables() {
    let mut subst = HashMap::new();
    let origins = Origins::new();
    let param = func(vec![tv(0), ptr(tv(1))], tv(0));
    let arg = func(vec![Ty::Int, ptr(Ty::U8)], Ty::Int);
    assert_eq!(unify(&param, &arg, span(1, 1), &mut subst, &origins), Ok(()));
    assert_eq!(subst.get(&0), Some(&Ty::Int));
    assert_eq!(subst.get(&1), Some(&Ty::U8));
}

#[test]
fn unify_reports_conflicting_binding() {
    let mut subst = HashMap::new();
    let origins = Origins::new();
    let param = func(vec![tv(0), tv(0)], Ty::Unit);
    let arg = func(vec![Ty::Int, Ty::F32], Ty::Unit);
    let r = unify(&param, &arg, span(4, 2), &mut subst, &origins);
    assert_eq!(
        r,
        Err(Error {
            span: span(4, 2),
            kind: ErrorKind::TypeMismatch { expected: Ty::Int, found: Ty::F32 },
        })
    );
    // The binding made before the failure stays.
    assert_eq!(subst.get(&0), Some(&Ty::Int));
}

#[test]
fn unify_mismatched_shapes() {
    let mut subst = HashMap::new();
    let origins = Origins::new();
    let r = unify(&ptr(Ty::Int), &Ty::Int, span(1, 1), &mut subst, &origins);
    assert_eq!(
        r,
        Err(Error {
            span: span(1, 1),
            kind: ErrorKind::TypeMismatch { expected: ptr(Ty::Int), found: Ty::Int },
        })
    );
    let r = unify(
        &Ty::Array { element: Box::new(tv(0)), count: 2 },
        &Ty::Array { element: Box::new(Ty::Int), count: 3 },
        span(1, 1),
        &mut subst,
        &origins,
    );
    assert!(r.is_err());
    assert!(subst.is_empty());
}

#[test]
fn unify_through_struct_origin() {
    let mut origins = Origins::new();
    assert!(origins.insert(false, "Box$Int".to_string(), "Box".to_string(), vec![Ty::Int]));
    let mut subst = HashMap::new();
    let param = generic("Box", vec![tv(0)]);
    let arg = Ty::Struct("Box$Int".to_string());
    assert_eq!(unify(&param, &arg, span(1, 1), &mut subst, &origins), Ok(()));
    assert_eq!(subst.get(&0), Some(&Ty::Int));
    // A specialization of another template does not match.
    let mut subst = HashMap::new();
    let other = generic("Vec", vec![tv(0)]);
    assert!(unify(&other, &arg, span(1, 1), &mut subst, &origins).is_err());
}

#[test]
fn origins_refuse_self_reference() {
    let mut origins = Origins::new();
    assert!(!origins.insert(
        false,
        "Node$Int".to_string(),
        "Node".to_string(),
        vec![Ty::Struct("Node$Int".to_string())]
    ));
    assert_eq!(origins.len(), 0);
    assert!(origins.insert(false, "A".to_string(), "T".to_string(), vec![Ty::Struct("B".to_string())]));
    // `B` is named by an earlier record, so it cannot be recorded after it.
    assert!(!origins.insert(false, "B".to_string(), "T".to_string(), vec![Ty::Int]));
    // Pointers do not change that: any mention counts.
    assert!(origins.insert(true, "B".to_string(), "E".to_string(), vec![Ty::Int]));
    assert!(origins.get(true, &"B".to_string()).is_some());
    assert!(origins.get(false, &"B".to_string()).is_none());
}

#[test]
fn try_unify_one_orients_by_type_variables() {
    let origins = Origins::new();
    let mut subst = HashMap::new();
    // The argument holds the type variable here, so it is the inferred side.
    assert!(try_unify_one(&tv(9), &Ty::U32, &mut subst, &origins));
    assert_eq!(subst.get(&9), Some(&Ty::U32));
    let mut subst = HashMap::new();
    assert!(!try_unify_one(&Ty::Int, &Ty::U8, &mut subst, &origins));
}

#[test]
fn unify_is_reflexive_without_type_variables() {
    let origins = Origins::new();
    let mut subst = HashMap::new();
    subst.insert(3, Ty::Int);
    let t = func(vec![generic("Box", vec![Ty::U8])], Ty::Tuple(vec![Ty::Int, Ty::F64]));
    assert_eq!(unify(&t, &t, span(1, 1), &mut subst, &origins), Ok(()));
    assert_eq!(subst.len(), 1);
}

#[test]
fn enum_args_from_hints() {
    let mut origins = Origins::new();
    assert!(origins.insert(true, "Option$u8".to_string(), "Option".to_string(), vec![Ty::U8]));
    let hint = Ty::Enum("Option$u8".to_string());
    assert_eq!(enum_type_args_from_hint("Option", Some(&hint), &origins), Some(vec![Ty::U8]));
    assert_eq!(enum_type_args_from_hint("Result", Some(&hint), &origins), None);
    let g = Ty::GenericEnum { name: "Option".to_string(), args: vec![tv(1)] };
    assert_eq!(enum_type_args_from_hint("Option", Some(&g), &origins), Some(vec![tv(1)]));
    assert_eq!(enum_type_args_from_hint("Option", None, &origins), None);
}

#[test]
fn const_int_literals() {
    assert_eq!(const_int_literal(&lit(5)), Some(5));
    let neg = Expr {
        span: span(1, 1),
        ty: Ty::Int,
        kind: ExprKind::Unary { op: UnaryOperator::Minus, operand: Box::new(lit(7)) },
    };
    assert_eq!(const_int_literal(&neg), Some(-7));
    let min = Expr {
        span: span(1, 1),
        ty: Ty::Int,
        kind: ExprKind::Unary { op: UnaryOperator::Minus, operand: Box::new(lit(i32::MIN)) },
    };
    assert_eq!(const_int_literal(&min), None);
    let typed = Expr { span: span(1, 1), ty: Ty::U8, kind: ExprKind::Const(Const::Int(1)) };
    assert_eq!(const_int_literal(&typed), None);
}

#[test]
fn literal_ranges() {
    assert!(fits_in_ty(127, &Ty::I8) && !fits_in_ty(128, &Ty::I8) && fits_in_ty(-128, &Ty::I8));
    assert!(fits_in_ty(255, &Ty::U8) && !fits_in_ty(256, &Ty::U8) && !fits_in_ty(-1, &Ty::U8));
    assert!(fits_in_ty(0, &Ty::U64) && !fits_in_ty(-5, &Ty::UInt));
    assert!(fits_in_ty(i32::MIN, &Ty::I64) && fits_in_ty(-3, &Ty::F32));
    assert!(!fits_in_ty(1, &Ty::Unit) && !fits_in_ty(1, &ptr(Ty::Int)));
}

#[test]
fn coerces_fitting_literal_with_cast() {
    let e = coerce_int_literal(lit(200), &Ty::U8).unwrap();
    assert_eq!(e.ty, Ty::U8);
    let ExprKind::Cast { target, expr } = e.kind else {
        panic!("expected a cast");
    };
    assert_eq!(target, Ty::U8);
    assert!(matches!(expr.kind, ExprKind::Const(Const::Int(200))));
}

#[test]
fn literal_out_of_range_is_an_error() {
    let r = coerce_int_literal(lit(300), &Ty::U8);
    let Err(err) = r else {
        panic!("expected an error");
    };
    assert_eq!(err.kind, ErrorKind::LiteralOutOfRange { value: 300, target: Ty::U8 });
    assert_eq!(err.kind.message(), "literal 300 is out of range for type u8");
}

#[test]
fn coercion_leaves_other_expressions() {
    let e = coerce_int_literal(lit(3), &Ty::Int).unwrap();
    assert!(matches!(e.kind, ExprKind::Const(Const::Int(3))));
    let e = coerce_int_literal(lit(3), &ptr(Ty::Int)).unwrap();
    assert_eq!(e.ty, Ty::Int);
}

#[test]
fn coerces_through_if_branches() {
    let cond = Expr { span: span(1, 1), ty: Ty::Int, kind: ExprKind::Local(LocalIdGen::new().fresh()) };
    let block = |n: i32| Expr {
        span: span(1, 1),
        ty: Ty::Int,
        kind: ExprKind::Block(Block { span: span(1, 1), items: Vec::new(), tail: Box::new(lit(n)) }),
    };
    let e = Expr {
        span: span(1, 1),
        ty: Ty::Int,
        kind: ExprKind::If {
            condition: Box::new(cond),
            then_branch: Box::new(block(1)),
            else_branch: Box::new(block(2)),
        },
    };
    let r = coerce_through_tails(e, &Ty::I8).unwrap();
    assert_eq!(r.ty, Ty::I8);
    let ExprKind::If { then_branch, .. } = r.kind else {
        panic!("expected if");
    };
    assert_eq!(then_branch.ty, Ty::I8);
    let ExprKind::Block(b) = then_branch.kind else {
        panic!("expected block");
    };
    assert!(matches!(b.tail.kind, ExprKind::Cast { .. }));
}

#[test]
fn coercion_through_tails_reports_first_bad_literal() {
    let e = Expr {
        span: span(1, 1),
        ty: Ty::Int,
        kind: ExprKind::If {
            condition: Box::new(lit(1)),
            then_branch: Box::new(lit(1000)),
            else_branch: Box::new(lit(-1)),
        },
    };
    let Err(err) = coerce_through_tails(e, &Ty::U8) else {
        panic!("expected an error");
    };
    assert_eq!(err.kind, ErrorKind::LiteralOutOfRange { value: 1000, target: Ty::U8 });
}

fn type_value(t: Ty) -> Expr {
    Expr { span: span(1, 1), ty: Ty::Unit, kind: ExprKind::TypeValue(t) }
}

fn string(s: &str) -> Expr {
    Expr { span: span(1, 1), ty: Ty::Unit, kind: ExprKind::Const(Const::Str(s.to_string())) }
}

#[test]
fn comptime_evaluates_constants() {
    assert!(matches!(eval(&lit(4)), Some(CtValue::Int(4))));
    assert!(matches!(eval(&type_value(Ty::Int)), Some(CtValue::Type(Ty::Int))));
    assert!(eval(&type_value(tv(0))).is_none());
    assert!(matches!(eval(&string("a")), Some(CtValue::Str(s)) if s == "a"));
}

#[test]
fn comptime_compares_types_and_strings() {
    let a = type_value(Ty::Int);
    let b = type_value(Ty::U8);
    assert!(matches!(eval_binary(BinaryOperator::Eq, &a, &a), Some(CtValue::Bool(true))));
    assert!(matches!(eval_binary(BinaryOperator::Eq, &a, &b), Some(CtValue::Bool(false))));
    assert!(matches!(eval_binary(BinaryOperator::Ne, &a, &b), Some(CtValue::Bool(true))));
    let x = string("x");
    let y = string("y");
    assert!(matches!(eval_binary(BinaryOperator::Ne, &x, &y), Some(CtValue::Bool(true))));
    assert!(eval_binary(BinaryOperator::Add, &a, &a).is_none());
    assert!(eval_binary(BinaryOperator::Eq, &a, &x).is_none());
    assert!(eval_binary(BinaryOperator::Eq, &lit(1), &lit(1)).is_none());
}

#[test]
fn divergence() {
    let err = Expr { span: span(1, 1), ty: Ty::Unit, kind: ExprKind::CompError("no".to_string()) };
    assert!(expr_diverges(&err));
    let ret = BlockItem::Statement(Statement { span: span(1, 1), kind: StatementKind::Return(lit(1)) });
    assert!(item_diverges(&ret));
    let brk = BlockItem::Statement(Statement { span: span(1, 1), kind: StatementKind::Break });
    assert!(!item_diverges(&brk));
    let block = Expr {
        span: span(1, 1),
        ty: Ty::Unit,
        kind: ExprKind::Block(Block { span: span(1, 1), items: vec![brk, ret], tail: Box::new(lit(0)) }),
    };
    assert!(expr_diverges(&block));
    let half = Expr {
        span: span(1, 1),
        ty: Ty::Unit,
        kind: ExprKind::If {
            condition: Box::new(lit(1)),
            then_branch: Box::new(err),
            else_branch: Box::new(lit(2)),
        },
    };
    assert!(!expr_diverges(&half));
}

#[test]
fn hir_error_messages() {
    let e = Error {
        span: span(3, 9),
        kind: ErrorKind::TypeMismatch { expected: Ty::Int, found: ptr(Ty::U8) },
    };
    assert_eq!(e.message(), "type mismatch: expected Int, found *u8 at line 3, column 9");
    let k = ErrorKind::MissingFields {
        struct_name: "P".to_string(),
        missing: vec!["x".to_string(), "y".to_string()],
    };
    assert_eq!(k.message(), "struct literal for `P` is missing fields: x, y");
    let k = ErrorKind::GenericAlreadyDefined { name: "T".to_string() };
    assert_eq!(
        k.message(),
        "generic type `$T` is already declared in this function; use `T` to refer to it"
    );
    let k = ErrorKind::TupleIndexOutOfRange { len: 2, index: 5 };
    assert_eq!(k.message(), "tuple index 5 out of range for tuple of length 2");
    assert_eq!(
        ErrorKind::StructDefNotAllowedHere.message(),
        "struct definitions are only allowed as `let X = struct {...};`"
    );
    let k = ErrorKind::LiteralOutOfRange { value: -1, target: Ty::U32 };
    assert_eq!(k.message(), "literal -1 is out of range for type u32");
}

#[test]
fn debug_text_of_constants() {
    assert_eq!(Const::Int(-3).debug_text(), "Int(-3)");
    assert_eq!(Const::Str("a\"b".to_string()).debug_text(), "Str(\"a\\\"b\")");
    assert_eq!(Const::Unit.debug_text(), "Unit");
}

#[test]
fn debug_text_of_expressions() {
    let sum = Expr {
        span: span(1, 1),
        ty: Ty::Int,
        kind: ExprKind::Binary { op: BinaryOperator::Add, lhs: Box::new(lit(1)), rhs: Box::new(lit(2)) },
    };
    assert_eq!(sum.debug_text(), "Add(Int(1) : Int, Int(2) : Int) : Int");
    let arr = Expr {
        span: span(1, 1),
        ty: Ty::Array { element: Box::new(Ty::Int), count: 2 },
        kind: ExprKind::Array(vec![lit(1), lit(2)]),
    };
    assert_eq!(arr.debug_text(), "Array[Int(1) : Int, Int(2) : Int] : [Int; 2]");
    let neg = ExprKind::Unary { op: UnaryOperator::Minus, operand: Box::new(lit(4)) };
    assert_eq!(neg.debug_text(), "Minus(Int(4) : Int)");
}

#[test]
fn debug_text_of_blocks() {
    let stmt = Statement { span: span(1, 1), kind: StatementKind::Break };
    let block = Block { span: span(1, 1), items: vec![BlockItem::Statement(stmt)], tail: Box::new(lit(0)) };
    assert_eq!(block.debug_text(), "Block { items: [Break], tail: Int(0) : Int }");
    assert_eq!(StatementKind::Expr(lit(5)).debug_text(), "Expr(Int(5) : Int)");
}

#[test]
fn unify_succeeds_when_an_extension_of_the_bindings_solves_the_parameter() {
    // Parameter (T0, *[T1; 2], T0) against (Int, *[U8; 2], Int), starting from
    // T0 := Int: the substitution T0 := Int, T1 := U8 extends it and solves
    // the parameter, so unification succeeds and ends with exactly that.
    let mut subst = HashMap::new();
    subst.insert(0u32, Ty::Int);
    let origins = Origins::new();
    let arr = |t: Ty| Ty::Array { element: Box::new(t), count: 2 };
    let param = Ty::Tuple(vec![tv(0), ptr(arr(tv(1))), tv(0)]);
    let arg = Ty::Tuple(vec![Ty::Int, ptr(arr(Ty::U8)), Ty::Int]);
    assert_eq!(unify(&param, &arg, span(1, 1), &mut subst, &origins), Ok(()));
    assert_eq!(subst.len(), 2);
    assert_eq!(subst.get(&1), Some(&Ty::U8));
    // With T0 := U8 instead, no extension solves it, and it fails.
    let mut other = HashMap::new();
    other.insert(0u32, Ty::U8);
    assert!(unify(&param, &arg, span(1, 1), &mut other, &origins).is_err());
}
