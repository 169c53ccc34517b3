//! The type checker: walks lowered HIR and checks the typing rules that
//! lowering leaves to it (operand types, branch agreement, returns, calls,
//! mutability of assignment targets, `break` placement).

use crate::hir::comptime::{expr_diverges, expr_diverges_spec, items_diverge, items_diverge_exec};
use crate::hir::types::{
    is_integer_v, is_number_v, lemma_tys_view, tys_view, BinaryOperator, Block, BlockItem,
    Declaration, Expr, ExprKind, Function, FunctionCall, LocalId, Param, Program, Statement,
    StatementKind, Ty, TyV, UnaryOperator,
};
use crate::lexer::types::Span;
use crate::semantics::error::{Error, ErrorKind, ErrorKindV};
use std::collections::HashMap;
use vstd::prelude::*;

verus! {

/// What the checker knows at a point of its walk: the return types of the
/// enclosing functions (innermost last), each binding seen so far by id
/// (its name and whether it is `mut`), and whether a loop encloses the
/// point.
pub struct TcState {
    pub ret: Seq<TyV>,
    pub binds: Map<u32, (Seq<char>, bool)>,
    pub in_loop: bool,
}

/// The outcome of checking: the state afterwards, the first type error
/// (where, and what), or `Stuck` for HIR that lowering never produces (a
/// call of a non-function, a `return` outside any function, an assignment to
/// a binding never declared, ...).
pub enum Tc {
    Done(TcState),
    Fail(Span, ErrorKindV),
    Stuck,
}

pub open spec fn mismatch_at(span: Span, expected: TyV, found: TyV) -> Tc {
    Tc::Fail(span, ErrorKindV::TypeMismatch { expected, found })
}

/// The local whose mutability gates an assignment to `t`: `Some(None)` when
/// the place is reached through a pointer (no binding needs to be `mut`),
/// `None` when `t` is not a place at all.
pub open spec fn local_root(t: Expr) -> Option<Option<u32>>
    decreases t,
{
    match t.kind {
        ExprKind::Local(id) => Some(Some(id.0)),
        ExprKind::Subscript { expr, .. } => if expr.ty@ is Ptr {
            Some(None)
        } else {
            local_root(*expr)
        },
        ExprKind::Field { target, .. } => local_root(*target),
        ExprKind::TupleField { target, .. } => local_root(*target),
        ExprKind::Deref(_) => Some(None),
        _ => None,
    }
}

/// Whether `&e` may be taken.
pub open spec fn addressable(e: Expr) -> bool {
    e.kind is Local || e.kind is Subscript || e.kind is Deref || e.kind is Field
}

/// Arithmetic and comparisons take numbers; shifts, bitwise and logical
/// operators take integers.
pub open spec fn numeric_op(op: BinaryOperator) -> bool {
    match op {
        BinaryOperator::Add | BinaryOperator::Sub | BinaryOperator::Mul | BinaryOperator::Div
        | BinaryOperator::Mod | BinaryOperator::Lt | BinaryOperator::Le | BinaryOperator::Gt
        | BinaryOperator::Ge | BinaryOperator::Eq | BinaryOperator::Ne => true,
        _ => false,
    }
}

/// The operand error of a binary operation, if any: a left operand of the
/// wrong kind, or a right operand of another type than the left.
pub open spec fn binary_error(op: BinaryOperator, lhs: Expr, rhs: Expr) -> Option<Tc> {
    if numeric_op(op) && !is_number_v(lhs.ty@) {
        Some(mismatch_at(lhs.span, TyV::Int, lhs.ty@))
    } else if !numeric_op(op) && !is_integer_v(lhs.ty@) {
        Some(mismatch_at(lhs.span, TyV::Int, lhs.ty@))
    } else if lhs.ty@ != rhs.ty@ {
        Some(mismatch_at(rhs.span, lhs.ty@, rhs.ty@))
    } else {
        None
    }
}

/// The first argument whose type differs from its parameter's: its span,
/// the parameter type and the argument type.
pub open spec fn first_arg_mismatch(args: Seq<Expr>, params: Seq<TyV>) -> Option<(Span, TyV, TyV)>
    decreases args.len(),
{
    if args.len() == 0 || params.len() == 0 {
        None
    } else if args[0].ty@ != params[0] {
        Some((args[0].span, params[0], args[0].ty@))
    } else {
        first_arg_mismatch(args.subrange(1, args.len() as int), params.subrange(1, params.len() as int))
    }
}

/// The bindings after registering `params`, in order, as immutable.
pub open spec fn bind_params(binds: Map<u32, (Seq<char>, bool)>, params: Seq<Param>) -> Map<
    u32,
    (Seq<char>, bool),
>
    decreases params.len(),
{
    if params.len() == 0 {
        binds
    } else {
        let last = params[params.len() - 1];
        bind_params(binds, params.subrange(0, params.len() - 1)).insert(last.id.0, (last.name@, false))
    }
}

/// The bindings after registering the declarations `decls`, in order.
pub open spec fn bind_decls(binds: Map<u32, (Seq<char>, bool)>, decls: Seq<Declaration>) -> Map<
    u32,
    (Seq<char>, bool),
>
    decreases decls.len(),
{
    if decls.len() == 0 {
        binds
    } else {
        let last = decls[decls.len() - 1];
        bind_decls(binds, decls.subrange(0, decls.len() - 1)).insert(
            last.id.0,
            (last.name@, last.mutable),
        )
    }
}

pub open spec fn with_binding(st: TcState, id: u32, name: Seq<char>, mutable: bool) -> TcState {
    TcState { ret: st.ret, binds: st.binds.insert(id, (name, mutable)), in_loop: st.in_loop }
}

pub open spec fn with_loop(st: TcState, in_loop: bool) -> TcState {
    TcState { ret: st.ret, binds: st.binds, in_loop }
}

pub open spec fn tc_expr(st: TcState, e: Expr) -> Tc
    decreases e,
{
    match e.kind {
        ExprKind::Const(_) => Tc::Done(st),
        ExprKind::Local(_) => Tc::Done(st),
        ExprKind::Function(f) => tc_function(st, f),
        ExprKind::Call(call) => tc_call(st, call, e.span),
        ExprKind::Unary { op, operand } => match tc_expr(st, *operand) {
            Tc::Done(s1) => {
                if (op is Minus && !is_number_v(operand.ty@)) || (op is Not && !is_integer_v(
                    operand.ty@,
                )) {
                    mismatch_at(operand.span, TyV::Int, operand.ty@)
                } else {
                    Tc::Done(s1)
                }
            },
            other => other,
        },
        ExprKind::Cast { target, expr } => match tc_expr(st, *expr) {
            Tc::Done(s1) => {
                if !is_number_v(expr.ty@) || !is_number_v(target@) {
                    Tc::Fail(expr.span, ErrorKindV::IllegalCast { ty: target@ })
                } else {
                    Tc::Done(s1)
                }
            },
            other => other,
        },
        ExprKind::Binary { op, lhs, rhs } => match tc_expr(st, *lhs) {
            Tc::Done(s1) => match tc_expr(s1, *rhs) {
                Tc::Done(s2) => match binary_error(op, *lhs, *rhs) {
                    Some(err) => err,
                    None => Tc::Done(s2),
                },
                other => other,
            },
            other => other,
        },
        ExprKind::Block(b) => match tc_items(st, b.items@) {
            Tc::Done(s1) => tc_expr(s1, *b.tail),
            other => other,
        },
        ExprKind::Assign { target, value } => match tc_expr(st, *target) {
            Tc::Done(s1) => match tc_expr(s1, *value) {
                Tc::Done(s2) => match local_root(*target) {
                    None => Tc::Stuck,
                    Some(root) => {
                        if root is Some && !s2.binds.contains_key(root->Some_0) {
                            Tc::Stuck
                        } else if root is Some && !s2.binds[root->Some_0].1 {
                            Tc::Fail(
                                e.span,
                                ErrorKindV::AssignToImmutable { name: s2.binds[root->Some_0].0 },
                            )
                        } else if value.ty@ != target.ty@ {
                            mismatch_at(value.span, target.ty@, value.ty@)
                        } else {
                            Tc::Done(s2)
                        }
                    },
                },
                other => other,
            },
            other => other,
        },
        ExprKind::If { condition, then_branch, else_branch } => match tc_expr(st, *condition) {
            Tc::Done(s1) => {
                if !is_integer_v(condition.ty@) {
                    mismatch_at(condition.span, TyV::Int, condition.ty@)
                } else {
                    match tc_expr(s1, *then_branch) {
                        Tc::Done(s2) => match tc_expr(s2, *else_branch) {
                            Tc::Done(s3) => {
                                if then_branch.ty@ != else_branch.ty@ {
                                    mismatch_at(else_branch.span, then_branch.ty@, else_branch.ty@)
                                } else {
                                    Tc::Done(s3)
                                }
                            },
                            other => other,
                        },
                        other => other,
                    }
                }
            },
            other => other,
        },
        ExprKind::Array(items) => match e.ty@ {
            TyV::Array { element, .. } => tc_array(st, items@, *element),
            _ => Tc::Stuck,
        },
        ExprKind::Subscript { expr, index } => match tc_expr(st, *expr) {
            Tc::Done(s1) => match tc_expr(s1, *index) {
                Tc::Done(s2) => {
                    if !(expr.ty@ is Array || expr.ty@ is Ptr) {
                        Tc::Stuck
                    } else if !is_integer_v(index.ty@) {
                        mismatch_at(index.span, TyV::Int, index.ty@)
                    } else {
                        Tc::Done(s2)
                    }
                },
                other => other,
            },
            other => other,
        },
        ExprKind::Ref(target) => match tc_expr(st, *target) {
            Tc::Done(s1) => {
                if addressable(*target) {
                    Tc::Done(s1)
                } else {
                    Tc::Fail(target.span, ErrorKindV::NotAddressable)
                }
            },
            other => other,
        },
        ExprKind::Deref(target) => match tc_expr(st, *target) {
            Tc::Done(s1) => {
                if target.ty@ is Ptr {
                    Tc::Done(s1)
                } else {
                    Tc::Stuck
                }
            },
            other => other,
        },
        ExprKind::StructLiteral { fields } => tc_fields(st, fields@),
        ExprKind::Field { target, .. } => tc_expr(st, *target),
        ExprKind::While { condition, body } => match tc_expr(st, *condition) {
            Tc::Done(s1) => {
                if !is_integer_v(condition.ty@) {
                    mismatch_at(condition.span, TyV::Int, condition.ty@)
                } else {
                    match tc_body_block(with_loop(s1, true), body, TyV::Unit) {
                        Tc::Done(s2) => Tc::Done(with_loop(s2, s1.in_loop)),
                        other => other,
                    }
                }
            },
            other => other,
        },
        ExprKind::TypeValue(_) => Tc::Done(st),
        ExprKind::CompError(_) => Tc::Done(st),
        ExprKind::Intrinsic { args, .. } => tc_exprs(st, args@),
        ExprKind::Tuple(elems) => tc_exprs(st, elems@),
        ExprKind::TupleField { target, .. } => tc_expr(st, *target),
    }
}

pub open spec fn tc_call(st: TcState, call: FunctionCall, span: Span) -> Tc
    decreases call,
{
    match tc_expr(st, *call.callee) {
        Tc::Done(s1) => match tc_exprs(s1, call.args@) {
            Tc::Done(s2) => match call.callee.ty@ {
                TyV::Function { params, .. } => {
                    if call.args.len() != params.len() {
                        Tc::Fail(
                            span,
                            ErrorKindV::ArityMismatch {
                                expected: params.len() as usize,
                                found: call.args.len() as usize,
                            },
                        )
                    } else {
                        match first_arg_mismatch(call.args@, params) {
                            Some((sp, expected, found)) => mismatch_at(sp, expected, found),
                            None => Tc::Done(s2),
                        }
                    }
                },
                _ => Tc::Stuck,
            },
            other => other,
        },
        other => other,
    }
}

pub open spec fn tc_exprs(st: TcState, es: Seq<Expr>) -> Tc
    decreases es,
{
    if es.len() == 0 {
        Tc::Done(st)
    } else {
        match tc_expr(st, es[0]) {
            Tc::Done(s1) => tc_exprs(s1, es.subrange(1, es.len() as int)),
            other => other,
        }
    }
}

pub open spec fn tc_fields(st: TcState, fs: Seq<(String, Expr)>) -> Tc
    decreases fs,
{
    if fs.len() == 0 {
        Tc::Done(st)
    } else {
        match tc_expr(st, fs[0].1) {
            Tc::Done(s1) => tc_fields(s1, fs.subrange(1, fs.len() as int)),
            other => other,
        }
    }
}

/// Checks each element and that its type is the array's element type.
pub open spec fn tc_array(st: TcState, items: Seq<Expr>, element: TyV) -> Tc
    decreases items,
{
    if items.len() == 0 {
        Tc::Done(st)
    } else {
        match tc_expr(st, items[0]) {
            Tc::Done(s1) => {
                if items[0].ty@ != element {
                    mismatch_at(items[0].span, element, items[0].ty@)
                } else {
                    tc_array(s1, items.subrange(1, items.len() as int), element)
                }
            },
            other => other,
        }
    }
}

pub open spec fn tc_items(st: TcState, items: Seq<BlockItem>) -> Tc
    decreases items,
{
    if items.len() == 0 {
        Tc::Done(st)
    } else {
        match tc_item(st, items[0]) {
            Tc::Done(s1) => tc_items(s1, items.subrange(1, items.len() as int)),
            other => other,
        }
    }
}

pub open spec fn tc_item(st: TcState, item: BlockItem) -> Tc
    decreases item,
{
    match item {
        BlockItem::Declaration(d) => tc_expr(with_binding(st, d.id.0, d.name@, d.mutable), d.value),
        BlockItem::Statement(s) => tc_stmt(st, s),
    }
}

pub open spec fn tc_stmt(st: TcState, s: Statement) -> Tc
    decreases s,
{
    match s.kind {
        StatementKind::Return(e) => match tc_expr(st, e) {
            Tc::Done(s1) => {
                if s1.ret.len() == 0 {
                    Tc::Stuck
                } else if e.ty@ != s1.ret.last() {
                    mismatch_at(e.span, s1.ret.last(), e.ty@)
                } else {
                    Tc::Done(s1)
                }
            },
            other => other,
        },
        StatementKind::Expr(e) => tc_expr(st, e),
        StatementKind::Break => if st.in_loop {
            Tc::Done(st)
        } else {
            Tc::Fail(s.span, ErrorKindV::BreakOutsideLoop)
        },
        StatementKind::Defer(e) => tc_expr(st, e),
    }
}

/// A function body: its tail must have the return type unless control
/// cannot reach it.
pub open spec fn tc_body(st: TcState, body: Block, ret: TyV) -> Tc
    decreases body,
{
    match tc_items(st, body.items@) {
        Tc::Done(s1) => match tc_expr(s1, *body.tail) {
            Tc::Done(s2) => {
                if !(items_diverge(body.items@) || expr_diverges_spec(*body.tail)) && body.tail.ty@
                    != ret {
                    mismatch_at(body.tail.span, ret, body.tail.ty@)
                } else {
                    Tc::Done(s2)
                }
            },
            other => other,
        },
        other => other,
    }
}

/// A loop body: its tail must have type `expected`.
pub open spec fn tc_body_block(st: TcState, body: Block, expected: TyV) -> Tc
    decreases body,
{
    match tc_items(st, body.items@) {
        Tc::Done(s1) => match tc_expr(s1, *body.tail) {
            Tc::Done(s2) => {
                if body.tail.ty@ != expected {
                    mismatch_at(body.tail.span, expected, body.tail.ty@)
                } else {
                    Tc::Done(s2)
                }
            },
            other => other,
        },
        other => other,
    }
}

pub open spec fn tc_function(st: TcState, f: Function) -> Tc
    decreases f,
{
    let s1 = TcState {
        ret: st.ret.push(f.return_ty@),
        binds: bind_params(st.binds, f.params@),
        in_loop: st.in_loop,
    };
    match tc_body(s1, f.body, f.return_ty@) {
        Tc::Done(s2) => Tc::Done(
            TcState { ret: s2.ret.subrange(0, s2.ret.len() - 1), binds: s2.binds, in_loop: s2.in_loop },
        ),
        other => other,
    }
}

pub open spec fn tc_decls(st: TcState, decls: Seq<Declaration>) -> Tc
    decreases decls.len(),
{
    if decls.len() == 0 {
        Tc::Done(st)
    } else {
        let d = decls[0];
        match tc_expr(with_binding(st, d.id.0, d.name@, d.mutable), d.value) {
            Tc::Done(s1) => tc_decls(s1, decls.subrange(1, decls.len() as int)),
            other => other,
        }
    }
}

/// Checking a program: every top-level binding is registered first, so that
/// function bodies may assign to outer mutable bindings; then each
/// declaration is checked in order.
pub open spec fn tc_program(p: Program) -> Tc {
    tc_decls(
        TcState {
            ret: Seq::empty(),
            binds: bind_decls(Map::empty(), p.declarations@),
            in_loop: false,
        },
        p.declarations@,
    )
}

/// Whether `r` is what checking produced: success, or the first error.
pub open spec fn reports(r: Result<(), Error>, outcome: Tc) -> bool {
    match r {
        Ok(()) => outcome is Done,
        Err(e) => outcome == Tc::Fail(e.span, e.kind@),
    }
}

/// What the checker records about a binding.
pub struct BindingInfo {
    pub name: String,
    pub mutable: bool,
}

pub open spec fn binds_view(m: Map<u32, BindingInfo>) -> Map<u32, (Seq<char>, bool)> {
    m.map_values(|b: BindingInfo| (b.name@, b.mutable))
}

/// Whether `r`, with the checker left in state `st`, is the outcome `o`.
pub open spec fn outcome_is(r: Result<(), Error>, o: Tc, st: TcState) -> bool {
    match r {
        Ok(()) => o == Tc::Done(st),
        Err(e) => o == Tc::Fail(e.span, e.kind@),
    }
}

pub struct Typechecker {
    expected_return: Vec<Ty>,
    bindings: HashMap<u32, BindingInfo>,
    in_loop: bool,
}

fn mismatch(span: Span, expected: Ty, found: &Ty) -> (e: Error)
    ensures
        e.span == span,
        e.kind@ == (ErrorKindV::TypeMismatch { expected: expected@, found: found@ }),
{
    Error { span, kind: ErrorKind::TypeMismatch { expected, found: found.duplicate() } }
}

/// The local whose mutability gates an assignment to `target`; `None` when
/// the place is reached through a pointer.
fn assignment_local_root(target: &Expr) -> (r: Option<LocalId>)
    requires
        local_root(*target) is Some,
    ensures
        local_root(*target) == Some(
            match r {
                Some(id) => Some(id.0),
                None => None,
            },
        ),
    decreases target,
{
    match &target.kind {
        ExprKind::Local(id) => Some(*id),
        ExprKind::Subscript { expr, .. } => {
            if expr.ty.is_pointer() {
                None
            } else {
                assignment_local_root(expr)
            }
        },
        ExprKind::Field { target, .. } => assignment_local_root(target),
        ExprKind::TupleField { target, .. } => assignment_local_root(target),
        ExprKind::Deref(_) => None,
        _ => None,
    }
}

/// Whether `&e` may be taken: `e` is a place.
fn is_addressable(e: &Expr) -> (r: bool)
    ensures
        r == addressable(*e),
{
    match &e.kind {
        ExprKind::Local(_) | ExprKind::Subscript { .. } | ExprKind::Deref(_) | ExprKind::Field {
            ..
        } => true,
        _ => false,
    }
}

fn is_numeric_op(op: BinaryOperator) -> (r: bool)
    ensures
        r == numeric_op(op),
{
    match op {
        BinaryOperator::Add | BinaryOperator::Sub | BinaryOperator::Mul | BinaryOperator::Div
        | BinaryOperator::Mod | BinaryOperator::Lt | BinaryOperator::Le | BinaryOperator::Gt
        | BinaryOperator::Ge | BinaryOperator::Eq | BinaryOperator::Ne => true,
        _ => false,
    }
}

impl Typechecker {
    pub closed spec fn view(&self) -> TcState {
        TcState {
            ret: tys_view(self.expected_return@),
            binds: binds_view(self.bindings@),
            in_loop: self.in_loop,
        }
    }

    pub fn new() -> (r: Typechecker)
        ensures
            r@ == (TcState { ret: Seq::empty(), binds: Map::empty(), in_loop: false }),
    {
        let r = Typechecker { expected_return: Vec::new(), bindings: HashMap::new(), in_loop: false };
        proof {
            assert(tys_view(r.expected_return@) =~= Seq::<TyV>::empty());
            assert(binds_view(r.bindings@) =~= Map::<u32, (Seq<char>, bool)>::empty());
        }
        r
    }

    fn bind(&mut self, id: LocalId, name: &String, mutable: bool)
        ensures
            final(self)@ == with_binding(old(self)@, id.0, name@, mutable),
    {
        self.bindings.insert(id.0, BindingInfo { name: name.clone(), mutable });
        proof {
            assert(binds_view(self.bindings@) =~= binds_view(old(self).bindings@).insert(
                id.0,
                (name@, mutable),
            ));
        }
    }

    fn check_program(&mut self, p: &Program) -> (r: Result<(), Error>)
        requires
            old(self)@ == (TcState { ret: Seq::empty(), binds: Map::empty(), in_loop: false }),
            !(tc_program(*p) is Stuck),
        ensures
            reports(r, tc_program(*p)),
    {
        let decls = &p.declarations;
        let mut i: usize = 0;
        while i < decls.len()
            invariant
                i <= decls.len(),
                self@ == (TcState {
                    ret: Seq::empty(),
                    binds: bind_decls(Map::empty(), decls@.subrange(0, i as int)),
                    in_loop: false,
                }),
            decreases decls.len() - i,
        {
            self.bind(decls[i].id, &decls[i].name, decls[i].mutable);
            proof {
                let x = decls@.subrange(0, i + 1);
                assert(x.subrange(0, i as int) =~= decls@.subrange(0, i as int));
            }
            i = i + 1;
        }
        assert(decls@.subrange(0, decls.len() as int) =~= decls@);
        let mut i: usize = 0;
        while i < decls.len()
            invariant
                i <= decls.len(),
                tc_program(*p) == tc_decls(self@, decls@.subrange(i as int, decls.len() as int)),
                !(tc_program(*p) is Stuck),
                decls == &p.declarations,
            decreases decls.len() - i,
        {
            proof {
                let t = decls@.subrange(i as int, decls.len() as int);
                assert(t[0] == decls@[i as int]);
                assert(t.subrange(1, t.len() as int) =~= decls@.subrange(i + 1, decls.len() as int));
            }
            let d = &decls[i];
            self.bind(d.id, &d.name, d.mutable);
            let r = self.check_expr(&d.value);
            if r.is_err() {
                return r;
            }
            i = i + 1;
        }
        Ok(())
    }

    fn check_expr(&mut self, e: &Expr) -> (r: Result<(), Error>)
        requires
            !(tc_expr(old(self)@, *e) is Stuck),
        ensures
            outcome_is(r, tc_expr(old(self)@, *e), final(self)@),
            r is Ok ==> final(self)@.ret == old(self)@.ret,
        decreases e,
    {
        match &e.kind {
            ExprKind::Const(_) => Ok(()),
            ExprKind::Local(_) => Ok(()),
            ExprKind::Function(func) => self.check_function(func),
            ExprKind::Call(call) => self.check_call(call, e),
            ExprKind::Unary { operand, op } => {
                self.check_expr(operand)?;
                match op {
                    UnaryOperator::Minus => {
                        if !operand.ty.is_number() {
                            return Err(mismatch(operand.span, Ty::Int, &operand.ty));
                        }
                    },
                    UnaryOperator::Not => {
                        if !operand.ty.is_integer() {
                            return Err(mismatch(operand.span, Ty::Int, &operand.ty));
                        }
                    },
                }
                Ok(())
            },
            ExprKind::Cast { target, expr } => {
                self.check_expr(expr)?;
                if !expr.ty.is_number() || !target.is_number() {
                    return Err(
                        Error { span: expr.span, kind: ErrorKind::IllegalCast { ty: target.duplicate() } },
                    );
                }
                Ok(())
            },
            ExprKind::Binary { lhs, rhs, op } => {
                self.check_expr(lhs)?;
                self.check_expr(rhs)?;
                self.check_binary_op(*op, lhs, rhs)
            },
            ExprKind::Block(block) => {
                self.check_items(&block.items)?;
                self.check_expr(&block.tail)
            },
            ExprKind::Assign { target, value } => {
                self.check_expr(target)?;
                self.check_expr(value)?;
                if let Some(root_id) = assignment_local_root(target) {
                    match self.bindings.get(&root_id.0) {
                        Some(binding) => {
                            if !binding.mutable {
                                return Err(
                                    Error {
                                        span: e.span,
                                        kind: ErrorKind::AssignToImmutable {
                                            name: binding.name.clone(),
                                        },
                                    },
                                );
                            }
                        },
                        None => {
                            return Ok(());
                        },
                    }
                }
                if !value.ty.same(&target.ty) {
                    return Err(mismatch(value.span, target.ty.duplicate(), &value.ty));
                }
                Ok(())
            },
            ExprKind::If { condition, then_branch, else_branch } => {
                self.check_expr(condition)?;
                if !condition.ty.is_integer() {
                    return Err(mismatch(condition.span, Ty::Int, &condition.ty));
                }
                self.check_expr(then_branch)?;
                self.check_expr(else_branch)?;
                if !then_branch.ty.same(&else_branch.ty) {
                    return Err(mismatch(else_branch.span, then_branch.ty.duplicate(), &else_branch.ty));
                }
                Ok(())
            },
            ExprKind::Array(items) => {
                match &e.ty {
                    Ty::Array { element, .. } => self.check_array(items, element),
                    _ => Ok(()),
                }
            },
            ExprKind::Subscript { expr, index } => {
                self.check_expr(expr)?;
                self.check_expr(index)?;
                if !index.ty.is_integer() {
                    return Err(mismatch(index.span, Ty::Int, &index.ty));
                }
                Ok(())
            },
            ExprKind::Ref(target) => {
                self.check_expr(target)?;
                if !is_addressable(target) {
                    return Err(Error { span: target.span, kind: ErrorKind::NotAddressable });
                }
                Ok(())
            },
            ExprKind::Deref(target) => self.check_expr(target),
            ExprKind::StructLiteral { fields } => self.check_fields(fields),
            ExprKind::Field { target, .. } => self.check_expr(target),
            ExprKind::While { condition, body } => {
                self.check_expr(condition)?;
                if !condition.ty.is_integer() {
                    return Err(mismatch(condition.span, Ty::Int, &condition.ty));
                }
                let saved = self.in_loop;
                self.in_loop = true;
                let result = self.check_body_block(body, &Ty::Unit);
                self.in_loop = saved;
                result
            },
            ExprKind::TypeValue(_) | ExprKind::CompError(_) => Ok(()),
            ExprKind::Intrinsic { args, .. } => self.check_exprs(args),
            ExprKind::Tuple(elems) => self.check_exprs(elems),
            ExprKind::TupleField { target, .. } => self.check_expr(target),
        }
    }

    fn check_exprs(&mut self, es: &Vec<Expr>) -> (r: Result<(), Error>)
        requires
            !(tc_exprs(old(self)@, es@) is Stuck),
        ensures
            outcome_is(r, tc_exprs(old(self)@, es@), final(self)@),
            r is Ok ==> final(self)@.ret == old(self)@.ret,
        decreases es,
    {
        let mut i: usize = 0;
        assert(es@.subrange(0, es.len() as int) =~= es@);
        while i < es.len()
            invariant
                i <= es.len(),
                tc_exprs(old(self)@, es@) == tc_exprs(self@, es@.subrange(i as int, es.len() as int)),
                !(tc_exprs(old(self)@, es@) is Stuck),
                self@.ret == old(self)@.ret,
            decreases es.len() - i,
        {
            proof {
                let t = es@.subrange(i as int, es.len() as int);
                assert(t[0] == es@[i as int]);
                assert(t.subrange(1, t.len() as int) =~= es@.subrange(i + 1, es.len() as int));
            }
            self.check_expr(&es[i])?;
            i = i + 1;
        }
        Ok(())
    }

    fn check_fields(&mut self, fs: &Vec<(String, Expr)>) -> (r: Result<(), Error>)
        requires
            !(tc_fields(old(self)@, fs@) is Stuck),
        ensures
            outcome_is(r, tc_fields(old(self)@, fs@), final(self)@),
            r is Ok ==> final(self)@.ret == old(self)@.ret,
        decreases fs,
    {
        let mut i: usize = 0;
        assert(fs@.subrange(0, fs.len() as int) =~= fs@);
        while i < fs.len()
            invariant
                i <= fs.len(),
                tc_fields(old(self)@, fs@) == tc_fields(self@, fs@.subrange(i as int, fs.len() as int)),
                !(tc_fields(old(self)@, fs@) is Stuck),
                self@.ret == old(self)@.ret,
            decreases fs.len() - i,
        {
            proof {
                let t = fs@.subrange(i as int, fs.len() as int);
                assert(t[0] == fs@[i as int]);
                assert(t.subrange(1, t.len() as int) =~= fs@.subrange(i + 1, fs.len() as int));
            }
            self.check_expr(&fs[i].1)?;
            i = i + 1;
        }
        Ok(())
    }

    fn check_array(&mut self, items: &Vec<Expr>, element: &Ty) -> (r: Result<(), Error>)
        requires
            !(tc_array(old(self)@, items@, element@) is Stuck),
        ensures
            outcome_is(r, tc_array(old(self)@, items@, element@), final(self)@),
            r is Ok ==> final(self)@.ret == old(self)@.ret,
        decreases items,
    {
        let mut i: usize = 0;
        assert(items@.subrange(0, items.len() as int) =~= items@);
        while i < items.len()
            invariant
                i <= items.len(),
                tc_array(old(self)@, items@, element@) == tc_array(
                    self@,
                    items@.subrange(i as int, items.len() as int),
                    element@,
                ),
                !(tc_array(old(self)@, items@, element@) is Stuck),
                self@.ret == old(self)@.ret,
            decreases items.len() - i,
        {
            proof {
                let t = items@.subrange(i as int, items.len() as int);
                assert(t[0] == items@[i as int]);
                assert(t.subrange(1, t.len() as int) =~= items@.subrange(i + 1, items.len() as int));
            }
            let item = &items[i];
            self.check_expr(item)?;
            if !item.ty.same(element) {
                return Err(mismatch(item.span, element.duplicate(), &item.ty));
            }
            i = i + 1;
        }
        Ok(())
    }

    fn check_item(&mut self, item: &BlockItem) -> (r: Result<(), Error>)
        requires
            !(tc_item(old(self)@, *item) is Stuck),
        ensures
            outcome_is(r, tc_item(old(self)@, *item), final(self)@),
            r is Ok ==> final(self)@.ret == old(self)@.ret,
        decreases item,
    {
        match item {
            BlockItem::Declaration(d) => self.check_declaration(d),
            BlockItem::Statement(s) => self.check_statement(s),
        }
    }

    /// Registers a nested declaration, so later assignments in the block
    /// see it, and checks its value.
    fn check_declaration(&mut self, d: &Declaration) -> (r: Result<(), Error>)
        requires
            !(tc_item(old(self)@, BlockItem::Declaration(*d)) is Stuck),
        ensures
            outcome_is(r, tc_item(old(self)@, BlockItem::Declaration(*d)), final(self)@),
            r is Ok ==> final(self)@.ret == old(self)@.ret,
        decreases d,
    {
        self.bind(d.id, &d.name, d.mutable);
        self.check_expr(&d.value)
    }

    /// The operand rules of a binary operator: arithmetic and comparisons
    /// take numbers, shifts, bitwise and logical operators take integers,
    /// and both operands have the same type.
    fn check_binary_op(&self, op: BinaryOperator, lhs: &Expr, rhs: &Expr) -> (r: Result<(), Error>)
        ensures
            match binary_error(op, *lhs, *rhs) {
                Some(err) => r matches Err(e) && err == Tc::Fail(e.span, e.kind@),
                None => r is Ok,
            },
    {
        if is_numeric_op(op) {
            self.require_number(lhs)?;
        } else {
            self.require_integer(lhs)?;
        }
        self.require_matching(lhs, rhs)
    }

    /// `e` has a number type.
    fn require_number(&self, e: &Expr) -> (r: Result<(), Error>)
        ensures
            r is Ok <==> is_number_v(e.ty@),
            r matches Err(x) ==> Tc::Fail(x.span, x.kind@) == mismatch_at(e.span, TyV::Int, e.ty@),
    {
        if !e.ty.is_number() {
            return Err(mismatch(e.span, Ty::Int, &e.ty));
        }
        Ok(())
    }

    /// `e` has an integer type.
    fn require_integer(&self, e: &Expr) -> (r: Result<(), Error>)
        ensures
            r is Ok <==> is_integer_v(e.ty@),
            r matches Err(x) ==> Tc::Fail(x.span, x.kind@) == mismatch_at(e.span, TyV::Int, e.ty@),
    {
        if !e.ty.is_integer() {
            return Err(mismatch(e.span, Ty::Int, &e.ty));
        }
        Ok(())
    }

    /// `rhs` has the type of `lhs`.
    fn require_matching(&self, lhs: &Expr, rhs: &Expr) -> (r: Result<(), Error>)
        ensures
            r is Ok <==> lhs.ty@ == rhs.ty@,
            r matches Err(x) ==> Tc::Fail(x.span, x.kind@) == mismatch_at(rhs.span, lhs.ty@, rhs.ty@),
    {
        if !lhs.ty.same(&rhs.ty) {
            return Err(mismatch(rhs.span, lhs.ty.duplicate(), &rhs.ty));
        }
        Ok(())
    }

    fn check_items(&mut self, items: &Vec<BlockItem>) -> (r: Result<(), Error>)
        requires
            !(tc_items(old(self)@, items@) is Stuck),
        ensures
            outcome_is(r, tc_items(old(self)@, items@), final(self)@),
            r is Ok ==> final(self)@.ret == old(self)@.ret,
        decreases items,
    {
        let mut i: usize = 0;
        assert(items@.subrange(0, items.len() as int) =~= items@);
        while i < items.len()
            invariant
                i <= items.len(),
                tc_items(old(self)@, items@) == tc_items(
                    self@,
                    items@.subrange(i as int, items.len() as int),
                ),
                !(tc_items(old(self)@, items@) is Stuck),
                self@.ret == old(self)@.ret,
            decreases items.len() - i,
        {
            proof {
                let t = items@.subrange(i as int, items.len() as int);
                assert(t[0] == items@[i as int]);
                assert(t.subrange(1, t.len() as int) =~= items@.subrange(i + 1, items.len() as int));
            }
            self.check_item(&items[i])?;
            i = i + 1;
        }
        Ok(())
    }

    fn check_statement(&mut self, s: &Statement) -> (r: Result<(), Error>)
        requires
            !(tc_stmt(old(self)@, *s) is Stuck),
        ensures
            outcome_is(r, tc_stmt(old(self)@, *s), final(self)@),
            r is Ok ==> final(self)@.ret == old(self)@.ret,
        decreases s,
    {
        match &s.kind {
            StatementKind::Return(e) => {
                self.check_expr(e)?;
                let n = self.expected_return.len();
                if n == 0 {
                    return Ok(());
                }
                proof {
                    lemma_tys_view(self.expected_return@);
                }
                let expected = &self.expected_return[n - 1];
                if !e.ty.same(expected) {
                    return Err(mismatch(e.span, expected.duplicate(), &e.ty));
                }
                Ok(())
            },
            StatementKind::Expr(e) => self.check_expr(e),
            StatementKind::Break => {
                if !self.in_loop {
                    return Err(Error { span: s.span, kind: ErrorKind::BreakOutsideLoop });
                }
                Ok(())
            },
            StatementKind::Defer(e) => self.check_expr(e),
        }
    }

    fn check_body(&mut self, body: &Block, return_ty: &Ty) -> (r: Result<(), Error>)
        requires
            !(tc_body(old(self)@, *body, return_ty@) is Stuck),
        ensures
            outcome_is(r, tc_body(old(self)@, *body, return_ty@), final(self)@),
            r is Ok ==> final(self)@.ret == old(self)@.ret,
        decreases body,
    {
        self.check_items(&body.items)?;
        self.check_expr(&body.tail)?;
        let diverges = items_diverge_exec(&body.items) || expr_diverges(&body.tail);
        if !diverges && !body.tail.ty.same(return_ty) {
            return Err(mismatch(body.tail.span, return_ty.duplicate(), &body.tail.ty));
        }
        Ok(())
    }

    fn check_body_block(&mut self, body: &Block, expected_tail_ty: &Ty) -> (r: Result<(), Error>)
        requires
            !(tc_body_block(old(self)@, *body, expected_tail_ty@) is Stuck),
        ensures
            outcome_is(r, tc_body_block(old(self)@, *body, expected_tail_ty@), final(self)@),
            r is Ok ==> final(self)@.ret == old(self)@.ret,
        decreases body,
    {
        self.check_items(&body.items)?;
        self.check_expr(&body.tail)?;
        if !body.tail.ty.same(expected_tail_ty) {
            return Err(mismatch(body.tail.span, expected_tail_ty.duplicate(), &body.tail.ty));
        }
        Ok(())
    }

    fn check_function(&mut self, f: &Function) -> (r: Result<(), Error>)
        requires
            !(tc_function(old(self)@, *f) is Stuck),
        ensures
            outcome_is(r, tc_function(old(self)@, *f), final(self)@),
            r is Ok ==> final(self)@.ret == old(self)@.ret,
        decreases f,
    {
        self.expected_return.push(f.return_ty.duplicate());
        proof {
            lemma_tys_view(self.expected_return@);
            lemma_tys_view(old(self).expected_return@);
            assert(tys_view(self.expected_return@) =~= tys_view(old(self).expected_return@).push(
                f.return_ty@,
            ));
        }
        let params = &f.params;
        let mut i: usize = 0;
        while i < params.len()
            invariant
                i <= params.len(),
                self@.ret == old(self)@.ret.push(f.return_ty@),
                self@.binds == bind_params(old(self)@.binds, params@.subrange(0, i as int)),
                self@.in_loop == old(self)@.in_loop,
                params == &f.params,
            decreases params.len() - i,
        {
            self.bind(params[i].id, &params[i].name, false);
            proof {
                let x = params@.subrange(0, i + 1);
                assert(x.subrange(0, i as int) =~= params@.subrange(0, i as int));
            }
            i = i + 1;
        }
        assert(params@.subrange(0, params.len() as int) =~= params@);
        self.check_body(&f.body, &f.return_ty)?;
        let ghost before = self.expected_return@;
        self.expected_return.pop();
        proof {
            lemma_tys_view(before);
            lemma_tys_view(self.expected_return@);
            assert(tys_view(self.expected_return@) =~= tys_view(before).subrange(
                0,
                tys_view(before).len() - 1,
            ));
        }
        Ok(())
    }

    fn check_call(&mut self, call: &FunctionCall, call_expr: &Expr) -> (r: Result<(), Error>)
        requires
            call_expr.kind == ExprKind::Call(*call),
            !(tc_call(old(self)@, *call, call_expr.span) is Stuck),
        ensures
            outcome_is(r, tc_call(old(self)@, *call, call_expr.span), final(self)@),
            r is Ok ==> final(self)@.ret == old(self)@.ret,
        decreases call,
    {
        self.check_expr(&call.callee)?;
        self.check_exprs(&call.args)?;
        let params = match &call.callee.ty {
            Ty::Function { params, .. } => params,
            _ => {
                return Ok(());
            },
        };
        proof {
            lemma_tys_view(params@);
        }
        if call.args.len() != params.len() {
            return Err(
                Error {
                    span: call_expr.span,
                    kind: ErrorKind::ArityMismatch { expected: params.len(), found: call.args.len() },
                },
            );
        }
        let mut i: usize = 0;
        assert(call.args@.subrange(0, call.args.len() as int) =~= call.args@);
        assert(tys_view(params@).subrange(0, params.len() as int) =~= tys_view(params@));
        assert(tc_call(old(self)@, *call, call_expr.span) == match first_arg_mismatch(
            call.args@,
            tys_view(params@),
        ) {
            Some((sp, expected, found)) => mismatch_at(sp, expected, found),
            None => Tc::Done(self@),
        });
        while i < call.args.len()
            invariant
                i <= call.args.len(),
                call.args.len() == params.len(),
                tc_call(old(self)@, *call, call_expr.span) == match first_arg_mismatch(
                    call.args@,
                    tys_view(params@),
                ) {
                    Some((sp, expected, found)) => mismatch_at(sp, expected, found),
                    None => Tc::Done(self@),
                },
                tys_view(params@).len() == params.len(),
                forall|j: int| 0 <= j < params.len() ==> #[trigger] tys_view(params@)[j] == params@[j]@,
                first_arg_mismatch(call.args@, tys_view(params@)) == first_arg_mismatch(
                    call.args@.subrange(i as int, call.args.len() as int),
                    tys_view(params@).subrange(i as int, params.len() as int),
                ),
            decreases call.args.len() - i,
        {
            proof {
                let ta = call.args@.subrange(i as int, call.args.len() as int);
                let tp = tys_view(params@).subrange(i as int, params.len() as int);
                assert(ta[0] == call.args@[i as int]);
                assert(tp[0] == params@[i as int]@);
                assert(ta.subrange(1, ta.len() as int) =~= call.args@.subrange(
                    i + 1,
                    call.args.len() as int,
                ));
                assert(tp.subrange(1, tp.len() as int) =~= tys_view(params@).subrange(
                    i + 1,
                    params.len() as int,
                ));
            }
            let arg = &call.args[i];
            if !arg.ty.same(&params[i]) {
                return Err(mismatch(arg.span, params[i].duplicate(), &arg.ty));
            }
            i = i + 1;
        }
        Ok(())
    }
}

/// Checks a lowered program: the typing rules of every expression, in
/// order, stopping at the first error.
pub fn type_check(program: &Program) -> (r: Result<(), Error>)
    requires
        !(tc_program(*program) is Stuck),
    ensures
        reports(r, tc_program(*program)),
{
    let mut checker = Typechecker::new();
    checker.check_program(program)
}

/// An assignment whose target and value check, and whose target is a place
/// rooted at a binding declared without `mut` (reached through no pointer),
/// fails with `AssignToImmutable`, naming that binding, at the span of the
/// assignment.
pub proof fn law_assign_to_immutable_binding(st: TcState, e: Expr, s1: TcState, s2: TcState, id: u32)
    requires
        e.kind matches ExprKind::Assign { target, value } && tc_expr(st, *target) == Tc::Done(s1)
            && tc_expr(s1, *value) == Tc::Done(s2) && local_root(*target) == Some(Some(id)),
        s2.binds.contains_key(id),
        !s2.binds[id].1,
    ensures
        tc_expr(st, e) == Tc::Fail(e.span, ErrorKindV::AssignToImmutable { name: s2.binds[id].0 }),
{
}

/// An assignment through a pointer (a dereference, or a subscript of a
/// pointer) asks for no `mut` binding: once target and value check, it
/// fails exactly when the value's type differs from the target's, with a
/// type mismatch at the value.
pub proof fn law_assign_through_pointer(st: TcState, e: Expr, s1: TcState, s2: TcState)
    requires
        e.kind matches ExprKind::Assign { target, value } && tc_expr(st, *target) == Tc::Done(s1)
            && tc_expr(s1, *value) == Tc::Done(s2) && local_root(*target) == Some(None::<u32>),
    ensures
        e.kind matches ExprKind::Assign { target, value } && tc_expr(st, e) == if value.ty@
            != target.ty@ {
            mismatch_at(value.span, target.ty@, value.ty@)
        } else {
            Tc::Done(s2)
        },
{
}

/// Two operands of one numeric type, integer or float, raise no operand
/// error for an arithmetic operator or a comparison (`+ - * / % < <= > >=
/// == !=`): `1.5 / 2.0` checks.
pub proof fn law_same_numbers_combine(op: BinaryOperator, lhs: Expr, rhs: Expr)
    requires
        op == BinaryOperator::Add || op == BinaryOperator::Sub || op == BinaryOperator::Mul || op
            == BinaryOperator::Div || op == BinaryOperator::Mod || op == BinaryOperator::Lt || op
            == BinaryOperator::Le || op == BinaryOperator::Gt || op == BinaryOperator::Ge || op
            == BinaryOperator::Eq || op == BinaryOperator::Ne,
        lhs.ty@ == rhs.ty@,
        is_number_v(lhs.ty@),
    ensures
        binary_error(op, lhs, rhs) is None,
{
}

/// Shifts, bitwise and logical operators take integers: two operands of one
/// integer type raise no error, a float operand on the left does.
pub proof fn law_integer_operators(op: BinaryOperator, lhs: Expr, rhs: Expr)
    requires
        op == BinaryOperator::Shl || op == BinaryOperator::Shr || op == BinaryOperator::BitAnd || op
            == BinaryOperator::BitOr || op == BinaryOperator::BitXor || op == BinaryOperator::And || op
            == BinaryOperator::Or,
    ensures
        lhs.ty@ == rhs.ty@ && is_integer_v(lhs.ty@) ==> binary_error(op, lhs, rhs) is None,
        !is_integer_v(lhs.ty@) ==> binary_error(op, lhs, rhs) is Some,
{
}

} // verus!
