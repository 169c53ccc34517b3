use frey::hir::types::{
    BinaryOperator, Block, BlockItem, Const, Declaration, Expr, ExprKind, Function, FunctionCall,
    LocalId, LocalIdGen, Param, Program, Statement, StatementKind, Ty, UnaryOperator,
};
use frey::lexer::types::{Position, Span};
use frey::semantics::error::{Error, ErrorKind};
use frey::semantics::type_checker::type_check;

fn span(line: usize, column: usize) -> Span {
    let p = Position { offset: 0, line, column };
    Span { start: p, end: p }
}

fn expr(ty: Ty, kind: ExprKind) -> Expr {
    Expr { span: span(1, 1), ty, kind }
}

fn at(line: usize, e: Expr) -> Expr {
    Expr { span: span(line, 1), ..e }
}

fn lit(n: i32) -> Expr {
    expr(Ty::Int, ExprKind::Const(Const::Int(n)))
}

fn unit() -> Expr {
    expr(Ty::Unit, ExprKind::Const(Const::Unit))
}

fn local(id: LocalId, ty: Ty) -> Expr {
    expr(ty, ExprKind::Local(id))
}

fn binary(op: BinaryOperator, lhs: Expr, rhs: Expr) -> Expr {
    let ty = lhs.ty.duplicate();
    expr(ty, ExprKind::Binary { op, lhs: Box::new(lhs), rhs: Box::new(rhs) })
}

fn block(items: Vec<BlockItem>, tail: Expr) -> Block {
    Block { span: span(1, 1), items, tail: Box::new(tail) }
}

fn decl(id: LocalId, name: &str, mutable: bool, value: Expr) -> Declaration {
    let ty = value.ty.duplicate();
    Declaration { id, span: span(1, 1), mutable, name: name.to_string(), ty, value }
}

fn stmt(kind: StatementKind) -> BlockItem {
    BlockItem::Statement(Statement { span: span(9, 9), kind })
}

fn function(params: Vec<Param>, return_ty: Ty, body: Block) -> Expr {
    let fn_ty = Ty::Function {
        params: params.iter().map(|p| p.ty.duplicate()).collect(),
        return_ty: Box::new(return_ty.duplicate()),
        varargs: false,
    };
    expr(fn_ty, ExprKind::Function(Function { params, return_ty, body }))
}

fn program(declarations: Vec<Declaration>) -> Program {
    Program { span: span(1, 1), declarations, structs: Vec::new(), enums: Vec::new() }
}

fn mismatch(line: usize, expected: Ty, found: Ty) -> Result<(), Error> {
    Err(Error { span: span(line, 1), kind: ErrorKind::TypeMismatch { expected, found } })
}

#[test]
fn well_typed_program_passes() {
    let mut ids = LocalIdGen::new();
    let x = ids.fresh();
    let f = ids.fresh();
    let a = ids.fresh();
    let param = Param { id: a, span: span(1, 1), name: "a".to_string(), ty: Ty::Int };
    let body = block(Vec::new(), binary(BinaryOperator::Add, local(a, Ty::Int), lit(1)));
    let p = program(vec![
        decl(x, "x", false, lit(1)),
        decl(f, "f", false, function(vec![param], Ty::Int, body)),
    ]);
    assert_eq!(type_check(&p), Ok(()));
}

#[test]
fn binary_operands_must_match() {
    let mut ids = LocalIdGen::new();
    let x = ids.fresh();
    let f = expr(Ty::F32, ExprKind::Const(Const::Float("1.5".to_string())));
    let p = program(vec![decl(x, "x", false, binary(BinaryOperator::Add, lit(1), at(4, f)))]);
    assert_eq!(type_check(&p), mismatch(4, Ty::Int, Ty::F32));
}

#[test]
fn shifts_need_integers() {
    let mut ids = LocalIdGen::new();
    let x = ids.fresh();
    let f = at(2, expr(Ty::F64, ExprKind::Const(Const::Float("2.0".to_string()))));
    let f2 = expr(Ty::F64, ExprKind::Const(Const::Float("1.0".to_string())));
    let p = program(vec![decl(x, "x", false, binary(BinaryOperator::Shl, f, f2))]);
    assert_eq!(type_check(&p), mismatch(2, Ty::Int, Ty::F64));
}

#[test]
fn assignment_to_immutable_binding_is_rejected() {
    let mut ids = LocalIdGen::new();
    let x = ids.fresh();
    let f = ids.fresh();
    let assign = Expr {
        span: span(6, 3),
        ty: Ty::Unit,
        kind: ExprKind::Assign { target: Box::new(local(x, Ty::Int)), value: Box::new(lit(2)) },
    };
    let body = block(vec![stmt(StatementKind::Expr(assign))], unit());
    let p = program(vec![
        decl(x, "x", false, lit(1)),
        decl(f, "f", false, function(Vec::new(), Ty::Unit, body)),
    ]);
    assert_eq!(
        type_check(&p),
        Err(Error { span: span(6, 3), kind: ErrorKind::AssignToImmutable { name: "x".to_string() } })
    );
}

#[test]
fn functions_may_assign_outer_mutable_bindings() {
    let mut ids = LocalIdGen::new();
    let f = ids.fresh();
    let counter = ids.fresh();
    let assign = expr(
        Ty::Unit,
        ExprKind::Assign { target: Box::new(local(counter, Ty::Int)), value: Box::new(lit(2)) },
    );
    let body = block(vec![stmt(StatementKind::Expr(assign))], unit());
    // `f` comes first but still sees the later top-level `counter`.
    let p = program(vec![
        decl(f, "f", false, function(Vec::new(), Ty::Unit, body)),
        decl(counter, "counter", true, lit(0)),
    ]);
    assert_eq!(type_check(&p), Ok(()));
}

#[test]
fn assignment_through_pointer_needs_no_mut() {
    let mut ids = LocalIdGen::new();
    let p_id = ids.fresh();
    let f = ids.fresh();
    let ptr_ty = Ty::Ptr(Box::new(Ty::Int));
    let target = expr(Ty::Int, ExprKind::Deref(Box::new(local(p_id, ptr_ty.duplicate()))));
    let assign = expr(Ty::Unit, ExprKind::Assign { target: Box::new(target), value: Box::new(lit(2)) });
    let param = Param { id: p_id, span: span(1, 1), name: "p".to_string(), ty: ptr_ty };
    let body = block(vec![stmt(StatementKind::Expr(assign))], unit());
    let p = program(vec![decl(f, "f", false, function(vec![param], Ty::Unit, body))]);
    assert_eq!(type_check(&p), Ok(()));
}

#[test]
fn break_outside_loop_is_rejected() {
    let mut ids = LocalIdGen::new();
    let f = ids.fresh();
    let body = block(vec![stmt(StatementKind::Break)], unit());
    let p = program(vec![decl(f, "f", false, function(Vec::new(), Ty::Unit, body))]);
    assert_eq!(type_check(&p), Err(Error { span: span(9, 9), kind: ErrorKind::BreakOutsideLoop }));
}

#[test]
fn break_inside_loop_is_accepted() {
    let mut ids = LocalIdGen::new();
    let f = ids.fresh();
    let lp = expr(
        Ty::Unit,
        ExprKind::While {
            condition: Box::new(lit(1)),
            body: block(vec![stmt(StatementKind::Break)], unit()),
        },
    );
    let body = block(vec![stmt(StatementKind::Expr(lp))], unit());
    let p = program(vec![decl(f, "f", false, function(Vec::new(), Ty::Unit, body))]);
    assert_eq!(type_check(&p), Ok(()));
}

#[test]
fn loop_body_tail_must_be_unit() {
    let mut ids = LocalIdGen::new();
    let f = ids.fresh();
    let lp = expr(
        Ty::Unit,
        ExprKind::While { condition: Box::new(lit(1)), body: block(Vec::new(), at(5, lit(3))) },
    );
    let body = block(vec![stmt(StatementKind::Expr(lp))], unit());
    let p = program(vec![decl(f, "f", false, function(Vec::new(), Ty::Unit, body))]);
    assert_eq!(type_check(&p), mismatch(5, Ty::Unit, Ty::Int));
}

fn callee_fn(id: LocalId, params: Vec<Ty>) -> Expr {
    local(id, Ty::Function { params, return_ty: Box::new(Ty::Int), varargs: false })
}

#[test]
fn call_arity_mismatch() {
    let mut ids = LocalIdGen::new();
    let g = ids.fresh();
    let x = ids.fresh();
    let call = Expr {
        span: span(7, 1),
        ty: Ty::Int,
        kind: ExprKind::Call(FunctionCall {
            callee: Box::new(callee_fn(g, vec![Ty::Int, Ty::Int])),
            args: vec![lit(1)],
        }),
    };
    let p = program(vec![decl(x, "x", false, call)]);
    assert_eq!(
        type_check(&p),
        Err(Error { span: span(7, 1), kind: ErrorKind::ArityMismatch { expected: 2, found: 1 } })
    );
}

#[test]
fn call_argument_type_mismatch() {
    let mut ids = LocalIdGen::new();
    let g = ids.fresh();
    let x = ids.fresh();
    let u8_arg = at(3, expr(Ty::U8, ExprKind::Const(Const::Int(1))));
    let call = expr(
        Ty::Int,
        ExprKind::Call(FunctionCall {
            callee: Box::new(callee_fn(g, vec![Ty::Int, Ty::Int])),
            args: vec![lit(1), u8_arg],
        }),
    );
    let p = program(vec![decl(x, "x", false, call)]);
    assert_eq!(type_check(&p), mismatch(3, Ty::Int, Ty::U8));
}

#[test]
fn return_type_must_match() {
    let mut ids = LocalIdGen::new();
    let f = ids.fresh();
    let ret = stmt(StatementKind::Return(at(8, expr(Ty::U8, ExprKind::Const(Const::Int(1))))));
    let body = block(vec![ret], lit(0));
    let p = program(vec![decl(f, "f", false, function(Vec::new(), Ty::Int, body))]);
    assert_eq!(type_check(&p), mismatch(8, Ty::Int, Ty::U8));
}

#[test]
fn diverging_body_skips_tail_check() {
    let mut ids = LocalIdGen::new();
    let f = ids.fresh();
    let body = block(vec![stmt(StatementKind::Return(lit(1)))], unit());
    let p = program(vec![decl(f, "f", false, function(Vec::new(), Ty::Int, body))]);
    assert_eq!(type_check(&p), Ok(()));
    let body = block(Vec::new(), at(2, unit()));
    let p = program(vec![decl(f, "f", false, function(Vec::new(), Ty::Int, body))]);
    assert_eq!(type_check(&p), mismatch(2, Ty::Int, Ty::Unit));
}

#[test]
fn if_branches_must_agree() {
    let mut ids = LocalIdGen::new();
    let x = ids.fresh();
    let e = expr(
        Ty::Int,
        ExprKind::If {
            condition: Box::new(lit(1)),
            then_branch: Box::new(lit(1)),
            else_branch: Box::new(at(5, expr(Ty::U8, ExprKind::Const(Const::Int(2))))),
        },
    );
    let p = program(vec![decl(x, "x", false, e)]);
    assert_eq!(type_check(&p), mismatch(5, Ty::Int, Ty::U8));
}

#[test]
fn casts_need_numbers() {
    let mut ids = LocalIdGen::new();
    let x = ids.fresh();
    let e = expr(
        Ty::Unit,
        ExprKind::Cast { target: Ty::Unit, expr: Box::new(at(4, lit(1))) },
    );
    let p = program(vec![decl(x, "x", false, e)]);
    assert_eq!(
        type_check(&p),
        Err(Error { span: span(4, 1), kind: ErrorKind::IllegalCast { ty: Ty::Unit } })
    );
}

#[test]
fn address_of_needs_a_place() {
    let mut ids = LocalIdGen::new();
    let x = ids.fresh();
    let e = expr(Ty::Ptr(Box::new(Ty::Int)), ExprKind::Ref(Box::new(at(6, lit(1)))));
    let p = program(vec![decl(x, "x", false, e)]);
    assert_eq!(type_check(&p), Err(Error { span: span(6, 1), kind: ErrorKind::NotAddressable }));
}

#[test]
fn negation_needs_a_number() {
    let mut ids = LocalIdGen::new();
    let x = ids.fresh();
    let e = expr(
        Ty::Unit,
        ExprKind::Unary { op: UnaryOperator::Minus, operand: Box::new(at(3, unit())) },
    );
    let p = program(vec![decl(x, "x", false, e)]);
    assert_eq!(type_check(&p), mismatch(3, Ty::Int, Ty::Unit));
}

#[test]
fn array_elements_must_match() {
    let mut ids = LocalIdGen::new();
    let x = ids.fresh();
    let e = expr(
        Ty::Array { element: Box::new(Ty::Int), count: 2 },
        ExprKind::Array(vec![lit(1), at(2, expr(Ty::I8, ExprKind::Const(Const::Int(2))))]),
    );
    let p = program(vec![decl(x, "x", false, e)]);
    assert_eq!(type_check(&p), mismatch(2, Ty::Int, Ty::I8));
}

#[test]
fn first_error_wins() {
    let mut ids = LocalIdGen::new();
    let x = ids.fresh();
    let y = ids.fresh();
    let bad1 = expr(Ty::Unit, ExprKind::Cast { target: Ty::Unit, expr: Box::new(at(1, lit(1))) });
    let bad2 = expr(Ty::Unit, ExprKind::Cast { target: Ty::Unit, expr: Box::new(at(2, lit(1))) });
    let p = program(vec![decl(x, "x", false, bad1), decl(y, "y", false, bad2)]);
    assert_eq!(
        type_check(&p),
        Err(Error { span: span(1, 1), kind: ErrorKind::IllegalCast { ty: Ty::Unit } })
    );
}

#[test]
fn semantic_error_messages() {
    let e = Error {
        span: span(2, 5),
        kind: ErrorKind::TypeMismatch { expected: Ty::Int, found: Ty::F32 },
    };
    assert_eq!(e.message(), "type mismatch\nexpected: Int\nfound: f32 at line 2, column 5");
    assert_eq!(
        ErrorKind::ArityMismatch { expected: 2, found: 3 }.message(),
        "wrong number of arguments: expected 2, found 3"
    );
    assert_eq!(ErrorKind::IllegalCast { ty: Ty::Unit }.message(), "type error\nillegal cast to : Unit");
}
