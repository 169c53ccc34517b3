//! Lowering expressions, blocks, statements and declarations from the AST
//! to HIR: names resolve to locals, every node gets its type, integer
//! literals are coerced where a wider or narrower number is expected, and
//! field access dereferences pointers on the way.

use crate::ast::types as ast;
use crate::ast::types::{BinaryOperator, UnaryOperator};
use crate::hir::coerce::{coerce_int_literal, coerce_through_tails};
use crate::hir::error::{Error, ErrorKind};
use crate::hir::generics::{subst_view, ty_has_typevars};
use crate::hir::lower::{lookup_tv, Lower, LowerV};
use crate::hir::register::register_types_spec;
use crate::hir::types::{
    end_of, tys_duplicate, tys_view, unit_expr, Block, BlockItem, Const, Declaration, EnumDef, Expr,
    ExprKind, Function, FunctionCall, IntrinsicKind, LocalId, Param, Program, Statement, StatementKind,
    StructDef, Ty,
    TyV,
};
use crate::lexer::types::Span;
use vstd::prelude::*;

verus! {

/// The type of a binary operation's result: arithmetic keeps the operand
/// type, everything else yields `Int` (0 or 1 for comparisons and logic).
pub open spec fn binary_result(op: BinaryOperator, lhs: TyV) -> TyV {
    match op {
        BinaryOperator::Add | BinaryOperator::Sub | BinaryOperator::Mul | BinaryOperator::Div
        | BinaryOperator::Mod => lhs,
        _ => TyV::Int,
    }
}

/// The types of a list of expressions.
pub open spec fn types_of(xs: Seq<Expr>) -> Seq<TyV> {
    xs.map_values(|x: Expr| x.ty@)
}

/// What lowering `e` yields at the root: the node keeps the span of `e`,
/// has the HIR kind that corresponds to `e`'s, and has the type the
/// lowering rules give it from its children.
pub open spec fn root_lowered(e: ast::Expr, x: Expr) -> bool {
    &&& x.span == e.span
    &&& match e.kind {
        ast::ExprKind::Const(ast::Const::Int(n)) => x.ty == Ty::Int && x.kind == ExprKind::Const(
            Const::Int(n),
        ),
        ast::ExprKind::Const(ast::Const::Float(f)) => x.ty == Ty::Float && (x.kind matches ExprKind::Const(
            Const::Float(g),
        ) && g@ == f@),
        ast::ExprKind::Const(ast::Const::Str(s)) => x.ty@ == TyV::Ptr(Box::new(TyV::U8)) && (x.kind matches ExprKind::Const(
            Const::Str(t),
        ) && t@ == s@),
        ast::ExprKind::Identifier(_) => x.kind is Local,
        ast::ExprKind::Unary { op, .. } => (x.kind matches ExprKind::Unary { op: o, operand } && o == op
            && x.ty@ == (if op is Not {
            TyV::Int
        } else {
            operand.ty@
        })),
        ast::ExprKind::Binary { op, .. } => (x.kind matches ExprKind::Binary { op: o, lhs, .. } && o == op
            && x.ty@ == binary_result(op, lhs.ty@)),
        ast::ExprKind::Block(_) => (x.kind matches ExprKind::Block(b) && x.ty@ == b.tail.ty@),
        ast::ExprKind::If { .. } => (x.kind matches ExprKind::If { then_branch: t, .. } && x.ty@ == t.ty@),
        ast::ExprKind::Cast { .. } => (x.kind matches ExprKind::Cast { target, .. } && x.ty@ == target@),
        ast::ExprKind::Assign { .. } => x.kind is Assign && x.ty == Ty::Unit,
        ast::ExprKind::While { .. } => x.kind is While && x.ty == Ty::Unit,
        ast::ExprKind::Subscript { .. } => (x.kind matches ExprKind::Subscript { expr: a, .. } && (
        match a.ty@ {
            TyV::Array { element, .. } => x.ty@ == *element,
            TyV::Ptr(p) => x.ty@ == *p,
            _ => false,
        })),
        ast::ExprKind::Array(items) => (x.kind matches ExprKind::Array(xs) && xs.len() == items.len()
            && xs.len() > 0 && x.ty@ == TyV::Array { element: Box::new(xs@[0].ty@), count: xs.len() }),
        ast::ExprKind::Ref(_) => (x.kind matches ExprKind::Ref(t) && x.ty@ == TyV::Ptr(Box::new(t.ty@))),
        ast::ExprKind::Deref(_) => (x.kind matches ExprKind::Deref(t) && (t.ty@ matches TyV::Ptr(p)
            && x.ty@ == *p)),
        ast::ExprKind::Field { name, .. } => (x.kind matches ExprKind::Field { target: t, name: n, .. }
            && n@ == name@ && !(t.ty@ is Ptr)),
        ast::ExprKind::Tuple(es) => (x.kind matches ExprKind::Tuple(xs) && xs.len() == es.len() && x.ty@
            == TyV::Tuple(types_of(xs@))),
        ast::ExprKind::TupleField { index, .. } => (x.kind matches ExprKind::TupleField { target: t, index: i }
            && i == index && (t.ty@ matches TyV::Tuple(ts) && index < ts.len() && x.ty@ == ts[index as int])),
        ast::ExprKind::Call { .. } => x.kind is Call || x.kind is Intrinsic,
        ast::ExprKind::StructLiteral { .. } => x.kind is StructLiteral && x.ty is Struct,
        _ => false,
    }
}

/// Whether `h` is the lowering of `c` (see [`spans_from`]), possibly
/// wrapped in the cast that coerces an integer literal, which keeps the
/// span.
pub open spec fn coerced_from(c: ast::Expr, h: Expr) -> bool
    decreases c, 2nat,
{
    spans_from(c, h) || (h.span == c.span && (h.kind matches ExprKind::Cast { expr, .. } && spans_from(
        c,
        *expr,
    )))
}

/// Whether the lowered `x` keeps the spans of `e`: its own, and,
/// recursively, those of the subexpressions that lowering keeps in place
/// (operands, assignment sides, cast operands, subscripts, references,
/// dereferences, conditions, array and tuple elements, block tails).
pub open spec fn spans_from(e: ast::Expr, x: Expr) -> bool
    decreases e, 1nat,
{
    &&& x.span == e.span
    &&& match e.kind {
        ast::ExprKind::Unary { expr, .. } => (x.kind matches ExprKind::Unary { operand, .. } && spans_from(
            *expr,
            *operand,
        )),
        ast::ExprKind::Binary { lhs, rhs, .. } => (x.kind matches ExprKind::Binary { lhs: l, rhs: r, .. }
            && coerced_from(*lhs, *l) && coerced_from(*rhs, *r)),
        ast::ExprKind::Assign { target, value } => (x.kind matches ExprKind::Assign { target: t, value: v }
            && spans_from(*target, *t) && coerced_from(*value, *v)),
        ast::ExprKind::Cast { expr, .. } => (x.kind matches ExprKind::Cast { expr: y, .. } && spans_from(
            *expr,
            *y,
        )),
        ast::ExprKind::Subscript { expr, index } => (x.kind matches ExprKind::Subscript { expr: a, index: i }
            && spans_from(*expr, *a) && spans_from(*index, *i)),
        ast::ExprKind::Ref(t) => (x.kind matches ExprKind::Ref(y) && spans_from(*t, *y)),
        ast::ExprKind::Deref(t) => (x.kind matches ExprKind::Deref(y) && spans_from(*t, *y)),
        ast::ExprKind::While { condition, .. } => (x.kind matches ExprKind::While { condition: c, .. }
            && spans_from(*condition, *c)),
        ast::ExprKind::If { condition, .. } => (x.kind matches ExprKind::If { condition: c, .. } && spans_from(
            *condition,
            *c,
        )),
        ast::ExprKind::Array(items) => (x.kind matches ExprKind::Array(xs) && xs.len() == items.len()
            && forall|i: int| 0 <= i < items.len() ==> spans_from(#[trigger] items@[i], xs@[i])),
        ast::ExprKind::Tuple(items) => (x.kind matches ExprKind::Tuple(xs) && xs.len() == items.len()
            && forall|i: int| 0 <= i < items.len() ==> spans_from(#[trigger] items@[i], xs@[i])),
        ast::ExprKind::Block(b) => (x.kind matches ExprKind::Block(y) && (b.tail matches Some(t) ==> spans_from(
            *t,
            *y.tail,
        ))),
        _ => true,
    }
}

/// The errors lowering `e` gives whatever its children are.
pub open spec fn root_error(e: ast::Expr, r: Result<Expr, Error>) -> bool {
    match e.kind {
        ast::ExprKind::StructDef { .. } | ast::ExprKind::EnumDef { .. } => r == Err::<Expr, Error>(
            Error { span: e.span, kind: ErrorKind::StructDefNotAllowedHere },
        ),
        ast::ExprKind::Array(items) => items.len() == 0 ==> r == Err::<Expr, Error>(
            Error { span: e.span, kind: ErrorKind::EmptyArrayLiteral },
        ),
        ast::ExprKind::TypeValue(_) => r matches Err(err) && err.span == e.span && err.kind is ComptimeError,
        ast::ExprKind::Function { .. } | ast::ExprKind::Closure { .. } | ast::ExprKind::Match { .. } => r matches Err(err) && err.span == e.span
            && err.kind is NotLowered,
        _ => true,
    }
}

/// The local a name resolves to and its type: the innermost binding of the
/// name, if the name is not a variant constructor.
pub open spec fn names_variant(st: LowerV, name: Seq<char>) -> bool {
    exists|k: int| 0 <= k < st.variant_constructors.len() && #[trigger] st.variant_constructors[k].0 == name
}

/// What lowering the identifier `name` at `span` gives in state `st`.
pub open spec fn identifier_lowered(st: LowerV, name: Seq<char>, span: Span, r: Result<Expr, Error>) -> bool {
    if names_variant(st, name) {
        r matches Err(err) && err.span == span && err.kind is NotLowered
    } else {
        match lookup_tv(st.value_scopes, name) {
            Some(id) if st.bindings.contains_key(id) => r matches Ok(x) && x.kind == ExprKind::Local(
                LocalId(id),
            ) && x.ty@ == st.bindings[id] && x.span == span,
            _ => r matches Err(err) && err.span == span && (err.kind matches ErrorKind::NameNotFound {
                name: n,
            } && n@ == name),
        }
    }
}

fn not_lowered(span: Span, what: &str) -> (r: Error)
    ensures
        r.span == span,
        r.kind is NotLowered,
{
    Error { span, kind: ErrorKind::NotLowered { construct: what.to_string() } }
}

impl Lower {
    /// Whether `name` is the constructor of an enum variant.
    pub fn is_variant_name(&self, name: &String) -> (r: bool)
        ensures
            r == names_variant(self@, name@),
    {
        let mut i: usize = 0;
        while i < self.variant_constructors.len()
            invariant
                i <= self.variant_constructors.len(),
                forall|k: int| 0 <= k < i ==> self@.variant_constructors[k].0 != name@,
            decreases self.variant_constructors.len() - i,
        {
            assert(self@.variant_constructors[i as int].0 == self.variant_constructors@[i as int].0@);
            if self.variant_constructors[i].0 == *name {
                return true;
            }
            i = i + 1;
        }
        false
    }

    /// Binds `name` to `id` in the innermost scope of value names.
    fn bind_name(&mut self, name: String, id: LocalId)
        requires
            old(self)@.value_scopes.len() > 0,
        ensures
            final(self)@.value_scopes.len() == old(self)@.value_scopes.len(),
            final(self).wf() == old(self).wf(),
    {
        let n = self.scopes.len();
        let mut scope = self.scopes.pop().unwrap();
        scope.push((name, id));
        self.scopes.push(scope);
        assert(self@.value_scopes.len() == n);
    }

    /// Lowers the identifier `name` (see [`identifier_lowered`]).
    pub fn lower_identifier(&self, name: &String, span: Span) -> (r: Result<Expr, Error>)
        ensures
            identifier_lowered(self@, name@, span, r),
    {
        if self.is_variant_name(name) {
            return Err(not_lowered(span, "an enum variant constructor"));
        }
        match self.resolve(name) {
            None => Err(Error { span, kind: ErrorKind::NameNotFound { name: name.clone() } }),
            Some(id) => match self.bindings.get(&id.0) {
                Some(t) => {
                    assert(subst_view(self.bindings@)[id.0] == t@);
                    Ok(Expr { span, ty: t.duplicate(), kind: ExprKind::Local(id) })
                },
                None => Err(Error { span, kind: ErrorKind::NameNotFound { name: name.clone() } }),
            },
        }
    }

    /// Lowers `e`, with `hint` the type the context expects (if known).
    pub fn lower_expr_with_hint(&mut self, e: &ast::Expr, hint: Option<&Ty>) -> (r: Result<Expr, Error>)
        requires
            old(self).wf(),
            old(self)@.value_scopes.len() > 0,
        ensures
            final(self).wf(),
            final(self)@.value_scopes.len() == old(self)@.value_scopes.len(),
            r matches Ok(x) ==> root_lowered(*e, x) && spans_from(*e, x),
            root_error(*e, r),
            e.kind matches ast::ExprKind::Identifier(name) ==> identifier_lowered(old(self)@, name@, e.span, r),
        decreases e, 2nat,
    {
        let span = e.span;
        match &e.kind {
            ast::ExprKind::Const(ast::Const::Int(n)) => Ok(Expr { span, ty: Ty::Int, kind: ExprKind::Const(Const::Int(*n)) }),
            ast::ExprKind::Const(ast::Const::Float(f)) => Ok(Expr { span, ty: Ty::Float, kind: ExprKind::Const(Const::Float(f.clone())) }),
            ast::ExprKind::Const(ast::Const::Str(s)) => {
                proof {
                    reveal_with_fuel(crate::hir::types::ty_view, 2);
                }
                Ok(Expr { span, ty: Ty::Ptr(Box::new(Ty::U8)), kind: ExprKind::Const(Const::Str(s.clone())) })
            },
            ast::ExprKind::Identifier(name) => self.lower_identifier(name, span),
            ast::ExprKind::TypeValue(_) => Err(
                Error {
                    span,
                    kind: ErrorKind::ComptimeError {
                        message: "a type can only be used as a value inside a #comptime function".to_string(),
                    },
                },
            ),
            ast::ExprKind::Function { .. } => Err(not_lowered(span, "a function literal")),
            ast::ExprKind::Closure { .. } => Err(not_lowered(span, "a closure")),
            ast::ExprKind::Match { .. } => Err(not_lowered(span, "a match expression")),
            ast::ExprKind::StructLiteral { name, type_args, fields } => {
                proof {
                    crate::hir::lower::lemma_find_struct(self@.structs, name@);
                }
                let concrete = crate::hir::lower::struct_index(&self.structs, name);
                let template = crate::hir::lower::struct_index(&self.struct_templates, name);
                if type_args.len() > 0 {
                    if template.is_some() {
                        return Err(not_lowered(span, "a generic struct literal"));
                    }
                    if concrete.is_some() {
                        return Err(Error { span, kind: ErrorKind::UnexpectedTypeArguments { name: name.clone() } });
                    }
                    return Err(Error { span, kind: ErrorKind::UnknownType { name: name.clone() } });
                }
                match concrete {
                    Some(k) => {
                        let def = crate::hir::lower::struct_def_duplicate(&self.structs[k]);
                        self.lower_struct_literal(&def, name, fields, span)
                    },
                    None => {
                        if template.is_some() {
                            return Err(not_lowered(span, "a generic struct literal"));
                        }
                        Err(Error { span, kind: ErrorKind::UnknownType { name: name.clone() } })
                    },
                }
            },
            ast::ExprKind::StructDef { .. } | ast::ExprKind::EnumDef { .. } => Err(
                Error { span, kind: ErrorKind::StructDefNotAllowedHere },
            ),
            ast::ExprKind::Call { .. } => self.lower_call(e),
            ast::ExprKind::Unary { op, expr } => {
                let operand = self.lower_expr_with_hint(expr, None)?;
                let ty = match op {
                    UnaryOperator::Not => Ty::Int,
                    UnaryOperator::Minus => operand.ty.duplicate(),
                };
                Ok(Expr { span, ty, kind: ExprKind::Unary { op: *op, operand: Box::new(operand) } })
            },
            ast::ExprKind::Binary { op, lhs: lhs_ast, rhs: rhs_ast } => {
                let lhs = self.lower_expr_with_hint(lhs_ast, None)?;
                let eq = match op {
                    BinaryOperator::Eq | BinaryOperator::Ne => true,
                    _ => false,
                };
                let lhs_ty = lhs.ty.duplicate();
                let rhs = if eq {
                    self.lower_expr_with_hint(rhs_ast, Some(&lhs_ty))?
                } else {
                    self.lower_expr_with_hint(rhs_ast, None)?
                };
                let ghost l0 = lhs;
                let ghost r0 = rhs;
                let (lhs, rhs) = if !lhs.ty.same(&rhs.ty) {
                    if rhs.ty.is_number() && !rhs.ty.same(&Ty::Int) {
                        let target = rhs.ty.duplicate();
                        (coerce_int_literal(lhs, &target)?, rhs)
                    } else if lhs.ty.is_number() && !lhs.ty.same(&Ty::Int) {
                        let target = lhs.ty.duplicate();
                        let rhs = coerce_int_literal(rhs, &target)?;
                        (lhs, rhs)
                    } else {
                        (lhs, rhs)
                    }
                } else {
                    (lhs, rhs)
                };
                proof {
                    assert(spans_from(**lhs_ast, l0));
                    assert(spans_from(**rhs_ast, r0));
                    assert(lhs == l0 || (lhs.span == l0.span && (lhs.kind matches ExprKind::Cast { expr, .. } && *expr == l0)));
                    assert(rhs == r0 || (rhs.span == r0.span && (rhs.kind matches ExprKind::Cast { expr, .. } && *expr == r0)));
                    assert(coerced_from(**lhs_ast, lhs));
                    assert(coerced_from(**rhs_ast, rhs));
                }
                let ty = match op {
                    BinaryOperator::Add | BinaryOperator::Sub | BinaryOperator::Mul | BinaryOperator::Div
                    | BinaryOperator::Mod => lhs.ty.duplicate(),
                    _ => Ty::Int,
                };
                Ok(Expr { span, ty, kind: ExprKind::Binary { op: *op, lhs: Box::new(lhs), rhs: Box::new(rhs) } })
            },
            ast::ExprKind::Block(block) => {
                let b = self.lower_block_with_hint(block, hint)?;
                let ty = b.tail.ty.duplicate();
                Ok(Expr { span, ty, kind: ExprKind::Block(b) })
            },
            ast::ExprKind::If { condition, then_branch, else_branch } => {
                let condition = self.lower_expr_with_hint(condition, None)?;
                let then_block = self.lower_block_with_hint(then_branch, hint)?;
                let then_span = then_block.span;
                let then_ty = then_block.tail.ty.duplicate();
                let then_expr = Expr { span: then_span, ty: then_ty, kind: ExprKind::Block(then_block) };
                let else_expr = match else_branch {
                    Some(b) => self.lower_expr_with_hint(b, hint)?,
                    None => unit_expr(end_of(span)),
                };
                let (then_expr, else_expr) = if !then_expr.ty.same(&else_expr.ty) {
                    if else_expr.ty.is_number() && !else_expr.ty.same(&Ty::Int) {
                        let target = else_expr.ty.duplicate();
                        (coerce_through_tails(then_expr, &target)?, else_expr)
                    } else if then_expr.ty.is_number() && !then_expr.ty.same(&Ty::Int) {
                        let target = then_expr.ty.duplicate();
                        let else_expr = coerce_through_tails(else_expr, &target)?;
                        (then_expr, else_expr)
                    } else {
                        (then_expr, else_expr)
                    }
                } else {
                    (then_expr, else_expr)
                };
                let ty = then_expr.ty.duplicate();
                Ok(
                    Expr {
                        span,
                        ty,
                        kind: ExprKind::If {
                            condition: Box::new(condition),
                            then_branch: Box::new(then_expr),
                            else_branch: Box::new(else_expr),
                        },
                    },
                )
            },
            ast::ExprKind::Cast { expr, target } => {
                let ty = self.lower_type(target)?;
                let inner = self.lower_expr_with_hint(expr, None)?;
                let t2 = ty.duplicate();
                Ok(Expr { span, ty, kind: ExprKind::Cast { target: t2, expr: Box::new(inner) } })
            },
            ast::ExprKind::Assign { target, value: value_ast } => {
                let target = self.lower_expr_with_hint(target, None)?;
                let hint_ty = target.ty.duplicate();
                let value = self.lower_expr_with_hint(value_ast, Some(&hint_ty))?;
                let ghost v0 = value;
                let value = coerce_int_literal(value, &target.ty)?;
                proof {
                    assert(spans_from(**value_ast, v0));
                    assert(value == v0 || (value.span == v0.span && (value.kind matches ExprKind::Cast { expr, .. } && *expr == v0)));
                    assert(coerced_from(**value_ast, value));
                }
                Ok(Expr { span, ty: Ty::Unit, kind: ExprKind::Assign { target: Box::new(target), value: Box::new(value) } })
            },
            ast::ExprKind::Subscript { expr, index } => {
                let target = self.lower_expr_with_hint(expr, None)?;
                let index = self.lower_expr_with_hint(index, None)?;
                let element = match &target.ty {
                    Ty::Array { element, .. } => element.duplicate(),
                    Ty::Ptr(element) => element.duplicate(),
                    other => {
                        return Err(Error { span: target.span, kind: ErrorKind::NotIndexable { found: other.duplicate() } });
                    },
                };
                Ok(Expr { span, ty: element, kind: ExprKind::Subscript { expr: Box::new(target), index: Box::new(index) } })
            },
            ast::ExprKind::Array(items) => {
                if items.len() == 0 {
                    return Err(Error { span, kind: ErrorKind::EmptyArrayLiteral });
                }
                let lowered = self.lower_exprs(items)?;
                let element = Box::new(lowered[0].ty.duplicate());
                let count = lowered.len();
                Ok(Expr { span, ty: Ty::Array { element, count }, kind: ExprKind::Array(lowered) })
            },
            ast::ExprKind::Ref(target) => {
                let target = self.lower_expr_with_hint(target, None)?;
                let ty = Ty::Ptr(Box::new(target.ty.duplicate()));
                Ok(Expr { span, ty, kind: ExprKind::Ref(Box::new(target)) })
            },
            ast::ExprKind::Deref(target) => {
                let target = self.lower_expr_with_hint(target, None)?;
                let ty = match &target.ty {
                    Ty::Ptr(inner) => inner.duplicate(),
                    other => {
                        return Err(Error { span: target.span, kind: ErrorKind::NotDereferencable { found: other.duplicate() } });
                    },
                };
                Ok(Expr { span, ty, kind: ExprKind::Deref(Box::new(target)) })
            },
            ast::ExprKind::While { condition, body } => {
                let condition = self.lower_expr_with_hint(condition, None)?;
                let body = self.lower_block_with_hint(body, None)?;
                Ok(Expr { span, ty: Ty::Unit, kind: ExprKind::While { condition: Box::new(condition), body } })
            },
            ast::ExprKind::Field { target, name } => {
                let target = self.lower_expr_with_hint(target, None)?;
                let target = self.autoderef_to_struct(target);
                let display = match &target.ty {
                    Ty::Struct(n) => n.clone(),
                    Ty::GenericStruct { name: n, .. } => n.clone(),
                    other => {
                        return Err(Error { span: target.span, kind: ErrorKind::NotAStruct { found: other.duplicate() } });
                    },
                };
                match self.resolve_field(&target.ty, name) {
                    Some((index, field_ty)) => Ok(
                        Expr {
                            span,
                            ty: field_ty,
                            kind: ExprKind::Field { target: Box::new(target), name: name.clone(), index },
                        },
                    ),
                    None => Err(
                        Error {
                            span,
                            kind: ErrorKind::UnknownField { struct_name: display, field: name.clone() },
                        },
                    ),
                }
            },
            ast::ExprKind::Tuple(elems) => {
                let lowered = self.lower_exprs(elems)?;
                let mut tys: Vec<Ty> = Vec::new();
                let mut i: usize = 0;
                while i < lowered.len()
                    invariant
                        i <= lowered.len(),
                        tys.len() == i,
                        forall|j: int| 0 <= j < i ==> (#[trigger] tys@[j])@ == lowered@[j].ty@,
                    decreases lowered.len() - i,
                {
                    tys.push(lowered[i].ty.duplicate());
                    i = i + 1;
                }
                proof {
                    crate::hir::types::lemma_tys_view(tys@);
                    assert(tys_view(tys@) =~= types_of(lowered@));
                }
                Ok(Expr { span, ty: Ty::Tuple(tys), kind: ExprKind::Tuple(lowered) })
            },
            ast::ExprKind::TupleField { target, index } => {
                let target = self.lower_expr_with_hint(target, None)?;
                let target = self.autoderef_to_struct(target);
                let field_ty = match &target.ty {
                    Ty::Tuple(elems) => {
                        proof {
                            crate::hir::types::lemma_tys_view(elems@);
                        }
                        if *index >= elems.len() {
                            return Err(
                                Error { span, kind: ErrorKind::TupleIndexOutOfRange { len: elems.len(), index: *index } },
                            );
                        }
                        elems[*index].duplicate()
                    },
                    other => {
                        return Err(Error { span: target.span, kind: ErrorKind::NotATuple { found: other.duplicate() } });
                    },
                };
                Ok(Expr { span, ty: field_ty, kind: ExprKind::TupleField { target: Box::new(target), index: *index } })
            },
        }
    }

    /// Lowers each expression of `es`, first to last, without hints.
    pub fn lower_exprs(&mut self, es: &Vec<ast::Expr>) -> (r: Result<Vec<Expr>, Error>)
        requires
            old(self).wf(),
            old(self)@.value_scopes.len() > 0,
        ensures
            final(self).wf(),
            final(self)@.value_scopes.len() == old(self)@.value_scopes.len(),
            r matches Ok(xs) ==> xs.len() == es.len() && forall|i: int| 0 <= i < es.len() ==> root_lowered(
                #[trigger] es@[i],
                xs@[i],
            ) && spans_from(es@[i], xs@[i]),
        decreases es, 2nat,
    {
        let mut out: Vec<Expr> = Vec::new();
        let mut i: usize = 0;
        while i < es.len()
            invariant
                self.wf(),
                self@.value_scopes.len() == old(self)@.value_scopes.len(),
                old(self)@.value_scopes.len() > 0,
                i <= es.len(),
                out.len() == i,
                forall|j: int| 0 <= j < i ==> root_lowered(#[trigger] es@[j], out@[j]) && spans_from(es@[j], out@[j]),
            decreases es.len() - i,
        {
            let x = self.lower_expr_with_hint(&es[i], None)?;
            out.push(x);
            i = i + 1;
        }
        Ok(out)
    }

    /// Lowers a call `callee<type_args>(args)` at `span`.
    fn lower_call(&mut self, e: &ast::Expr) -> (r: Result<Expr, Error>)
        requires
            old(self).wf(),
            old(self)@.value_scopes.len() > 0,
            e.kind is Call,
        ensures
            final(self).wf(),
            final(self)@.value_scopes.len() == old(self)@.value_scopes.len(),
            r matches Ok(x) ==> x.span == e.span && (x.kind is Call || x.kind is Intrinsic),
        decreases e, 1nat,
    {
        let span = e.span;
        let (callee, type_args, args) = match &e.kind {
            ast::ExprKind::Call { callee, type_args, args } => (callee, type_args, args),
            _ => {
                return Err(not_lowered(span, "a call"));
            },
        };
        match &callee.kind {
            ast::ExprKind::Identifier(n) => {
                if n.as_str() == "alloc" {
                    return self.lower_intrinsic(IntrinsicKind::Alloc, e);
                }
                if n.as_str() == "realloc" {
                    return self.lower_intrinsic(IntrinsicKind::Realloc, e);
                }
                if n.as_str() == "free" {
                    return self.lower_intrinsic(IntrinsicKind::Free, e);
                }
                if self.is_variant_name(n) {
                    return Err(not_lowered(span, "an enum variant constructor"));
                }
                if self.overload_count(n) > 1 {
                    let lowered = self.lower_exprs(args)?;
                    let arg_tys = types_vec(&lowered);
                    let _explicit = self.lower_types(type_args)?;
                    let fn_id = self.resolve_overload(n, &arg_tys, span)?;
                    let fn_ty = match self.bindings.get(&fn_id.0) {
                        Some(t) => t.duplicate(),
                        None => {
                            return Err(Error { span, kind: ErrorKind::NameNotFound { name: n.clone() } });
                        },
                    };
                    let callee = Expr { span, ty: fn_ty, kind: ExprKind::Local(fn_id) };
                    return self.finish_call(callee, lowered, span);
                }
            },
            ast::ExprKind::Field { target, name } => {
                let recv = self.lower_expr_with_hint(target, None)?;
                let _explicit = self.lower_types(type_args)?;
                let field = match self.resolve_field(&recv.ty, name) {
                    Some((index, fty)) => match &fty {
                        Ty::Function { .. } | Ty::Closure { .. } => Some((index, fty)),
                        _ => None,
                    },
                    None => None,
                };
                match field {
                    Some((index, fty)) => {
                        let target = self.autoderef_to_struct(recv);
                        let params = callee_params(&fty);
                        let callee = Expr {
                            span: target.span,
                            ty: fty,
                            kind: ExprKind::Field { target: Box::new(target), name: name.clone(), index },
                        };
                        let lowered = self.lower_args(args, &params)?;
                        return self.finish_call(callee, lowered, span);
                    },
                    None => {},
                }
                let lowered = self.lower_exprs(args)?;
                let other_tys = types_vec(&lowered);
                proof {
                    crate::hir::signatures::lemma_find_overload(self@.overloads, name@);
                }
                if self.overload_count(name) == 0 {
                    match self.resolve(name) {
                        Some(id) => {
                            if self.bindings.get(&id.0).is_none() {
                                return Err(Error { span, kind: ErrorKind::NameNotFound { name: name.clone() } });
                            }
                        },
                        None => {},
                    }
                }
                let (fn_id, recv) = self.resolve_method(name, recv, &other_tys, span)?;
                let fn_ty = match self.bindings.get(&fn_id.0) {
                    Some(t) => t.duplicate(),
                    None => {
                        return Err(Error { span, kind: ErrorKind::NameNotFound { name: name.clone() } });
                    },
                };
                let callee = Expr { span, ty: fn_ty, kind: ExprKind::Local(fn_id) };
                let mut all: Vec<Expr> = Vec::new();
                all.push(recv);
                let mut rest = lowered;
                while rest.len() > 0
                    decreases rest.len(),
                {
                    let v = rest.remove(0);
                    all.push(v);
                }
                return self.finish_call(callee, all, span);
            },
            _ => {},
        }
        let callee = self.lower_expr_with_hint(callee, None)?;
        let _explicit = self.lower_types(type_args)?;
        let params = callee_params(&callee.ty);
        let lowered = self.lower_args(args, &params)?;
        self.finish_call(callee, lowered, span)
    }

    /// The number of functions named `name`.
    pub fn overload_count(&self, name: &String) -> (r: usize)
        ensures
            r == crate::hir::overload::candidates(self@.overloads, name@).len(),
    {
        proof {
            crate::hir::signatures::lemma_find_overload(self@.overloads, name@);
        }
        match crate::hir::signatures::overload_index(&self.overloads, name) {
            Some(k) => {
                assert(self@.overloads[k as int] == (self.overloads@[k as int].0@, crate::hir::lower::local_ids(
                    self.overloads@[k as int].1@,
                )));
                self.overloads[k].1.len()
            },
            None => 0,
        }
    }

    /// Finishes a call once callee and arguments are lowered: the callee must
    /// have a function or closure type; integer-literal arguments are
    /// coerced to their parameter types; the call has the callee's return
    /// type. Calls of generic functions (whose specialization this library
    /// does not carry out) and function values passed where a closure is
    /// expected are reported as not lowered.
    fn finish_call(&self, callee: Expr, args: Vec<Expr>, span: Span) -> (r: Result<Expr, Error>)
        ensures
            r matches Ok(x) ==> x.span == span && (x.kind matches ExprKind::Call(c) && c.args.len() == args.len()
                && *c.callee == callee),
            !(callee.ty@ is Function || callee.ty@ is Closure) ==> r == Err::<Expr, Error>(
                Error { span: callee.span, kind: ErrorKind::NotCallable { found: callee.ty } },
            ),
    {
        let (params, return_ty) = match &callee.ty {
            Ty::Function { params, return_ty, .. } => (tys_duplicate(params), return_ty.duplicate()),
            Ty::Closure { params, return_ty } => (tys_duplicate(params), return_ty.duplicate()),
            _ => {
                let span = callee.span;
                return Err(Error { span, kind: ErrorKind::NotCallable { found: callee.ty } });
            },
        };
        if ty_has_typevars(&callee.ty) {
            return Err(not_lowered(span, "a call of a generic function"));
        }
        let mut coerced: Vec<Expr> = Vec::new();
        let mut rest = args;
        let ghost n = rest.len();
        let mut i: usize = 0;
        while rest.len() > 0
            invariant
                coerced.len() == i,
                i + rest.len() == n,
                callee.ty@ is Function || callee.ty@ is Closure,
            decreases rest.len(),
        {
            let v = rest.remove(0);
            let v = if i < params.len() {
                let is_fn = match &v.ty {
                    Ty::Function { varargs, .. } => !*varargs,
                    _ => false,
                };
                let to_closure = match &params[i] {
                    Ty::Closure { .. } => true,
                    _ => false,
                };
                if is_fn && to_closure {
                    return Err(not_lowered(v.span, "a function value passed as a closure"));
                }
                coerce_int_literal(v, &params[i])?
            } else {
                v
            };
            coerced.push(v);
            i = i + 1;
        }
        Ok(Expr { span, ty: return_ty, kind: ExprKind::Call(FunctionCall { callee: Box::new(callee), args: coerced }) })
    }

    /// Lowers the arguments of a call of a function with parameter types
    /// `params`, each with its parameter type as hint.
    fn lower_args(&mut self, args: &Vec<ast::Expr>, params: &Vec<Ty>) -> (r: Result<Vec<Expr>, Error>)
        requires
            old(self).wf(),
            old(self)@.value_scopes.len() > 0,
        ensures
            final(self).wf(),
            final(self)@.value_scopes.len() == old(self)@.value_scopes.len(),
            r matches Ok(xs) ==> xs.len() == args.len(),
        decreases args, 2nat,
    {
        let mut lowered: Vec<Expr> = Vec::new();
        let mut i: usize = 0;
        while i < args.len()
            invariant
                self.wf(),
                self@.value_scopes.len() == old(self)@.value_scopes.len(),
                old(self)@.value_scopes.len() > 0,
                i <= args.len(),
                lowered.len() == i,
            decreases args.len() - i,
        {
            let v = if i < params.len() {
                self.lower_expr_with_hint(&args[i], Some(&params[i]))?
            } else {
                self.lower_expr_with_hint(&args[i], None)?
            };
            lowered.push(v);
            i = i + 1;
        }
        Ok(lowered)
    }

    /// Lowers a heap intrinsic call: `alloc<T>(n)`, `realloc<T>(p, n)` or
    /// `free(p)`.
    pub fn lower_intrinsic(&mut self, kind: IntrinsicKind, e: &ast::Expr) -> (r: Result<Expr, Error>)
        requires
            old(self).wf(),
            old(self)@.value_scopes.len() > 0,
            e.kind is Call,
        ensures
            final(self).wf(),
            final(self)@.value_scopes.len() == old(self)@.value_scopes.len(),
            e.kind matches ast::ExprKind::Call { type_args, .. } && type_args.len() == 0 && !(kind is Free) ==> (r matches Err(err) && err.span == e.span && (err.kind matches ErrorKind::MissingTypeArguments {
                name: n,
            } && n@ == (if kind is Alloc { "alloc"@ } else { "realloc"@ }))),
            r matches Ok(x) ==> x.span == e.span && (x.kind matches ExprKind::Intrinsic { kind: k, elem_ty, args: xs }
                && k == kind && (e.kind matches ast::ExprKind::Call { args, .. } && xs.len() == args.len()) && (if kind is Free {
                x.ty == Ty::Unit
            } else {
                x.ty@ == TyV::Ptr(Box::new(elem_ty@))
            })),
        decreases e, 0nat,
    {
        let span = e.span;
        let (type_args, args) = match &e.kind {
            ast::ExprKind::Call { type_args, args, .. } => (type_args, args),
            _ => {
                return Err(not_lowered(span, "a call"));
            },
        };
        let elem_ty = if type_args.len() > 0 {
            self.lower_type(&type_args[0])?
        } else {
            match kind {
                IntrinsicKind::Alloc => {
                    proof {
                        reveal_strlit("alloc");
                    }
                    return Err(Error { span, kind: ErrorKind::MissingTypeArguments { name: "alloc".to_string() } });
                },
                IntrinsicKind::Realloc => {
                    proof {
                        reveal_strlit("realloc");
                    }
                    return Err(Error { span, kind: ErrorKind::MissingTypeArguments { name: "realloc".to_string() } });
                },
                IntrinsicKind::Free => Ty::Unit,
            }
        };
        let lowered = self.lower_exprs(args)?;
        let ty = match kind {
            IntrinsicKind::Free => Ty::Unit,
            _ => Ty::Ptr(Box::new(elem_ty.duplicate())),
        };
        Ok(Expr { span, ty, kind: ExprKind::Intrinsic { kind, elem_ty, args: lowered } })
    }

    /// Lowers a block: its items in order, then its tail (the unit value at
    /// the end of the block when there is none), with `hint` for the tail.
    pub fn lower_block_with_hint(&mut self, b: &ast::Block, hint: Option<&Ty>) -> (r: Result<Block, Error>)
        requires
            old(self).wf(),
            old(self)@.value_scopes.len() > 0,
        ensures
            final(self).wf(),
            final(self)@.value_scopes.len() == old(self)@.value_scopes.len(),
            r matches Ok(x) ==> x.span == b.span && (match b.tail {
                Some(t) => root_lowered(*t, *x.tail) && spans_from(*t, *x.tail),
                None => x.tail.span == end_of_spec(b.span) && x.tail.ty == Ty::Unit,
            }),
        decreases b, 2nat,
    {
        let mut items: Vec<BlockItem> = Vec::new();
        let mut i: usize = 0;
        while i < b.items.len()
            invariant
                self.wf(),
                self@.value_scopes.len() == old(self)@.value_scopes.len(),
                old(self)@.value_scopes.len() > 0,
                i <= b.items.len(),
            decreases b.items.len() - i,
        {
            match self.lower_block_item(&b.items[i])? {
                Some(item) => items.push(item),
                None => {},
            }
            i = i + 1;
        }
        let tail = match &b.tail {
            Some(t) => Box::new(self.lower_expr_with_hint(t, hint)?),
            None => Box::new(unit_expr(end_of(b.span))),
        };
        Ok(Block { span: b.span, items, tail })
    }

    fn lower_block_item(&mut self, item: &ast::BlockItem) -> (r: Result<Option<BlockItem>, Error>)
        requires
            old(self).wf(),
            old(self)@.value_scopes.len() > 0,
        ensures
            final(self).wf(),
            final(self)@.value_scopes.len() == old(self)@.value_scopes.len(),
        decreases item, 2nat,
    {
        match item {
            ast::BlockItem::Declaration(d) => match self.lower_declaration(d)? {
                Some(d) => Ok(Some(BlockItem::Declaration(d))),
                None => Ok(None),
            },
            ast::BlockItem::Statement(s) => Ok(Some(BlockItem::Statement(self.lower_statement(s)?))),
        }
    }

    /// Lowers a statement; a bare `return;` returns the unit value.
    pub fn lower_statement(&mut self, s: &ast::Statement) -> (r: Result<Statement, Error>)
        requires
            old(self).wf(),
            old(self)@.value_scopes.len() > 0,
        ensures
            final(self).wf(),
            final(self)@.value_scopes.len() == old(self)@.value_scopes.len(),
            r matches Ok(x) ==> x.span == s.span && match s.kind {
                ast::StatementKind::Return(Some(e)) => (x.kind matches StatementKind::Return(y) && root_lowered(e, y)),
                ast::StatementKind::Return(None) => (x.kind matches StatementKind::Return(y) && y.ty == Ty::Unit
                    && y.span == end_of_spec(s.span)),
                ast::StatementKind::Expr(e) => (x.kind matches StatementKind::Expr(y) && root_lowered(e, y)),
                ast::StatementKind::Defer(e) => (x.kind matches StatementKind::Defer(y) && root_lowered(e, y)),
                ast::StatementKind::Break => x.kind is Break,
            },
        decreases s, 2nat,
    {
        let kind = match &s.kind {
            ast::StatementKind::Return(Some(e)) => StatementKind::Return(self.lower_expr_with_hint(e, None)?),
            ast::StatementKind::Return(None) => StatementKind::Return(unit_expr(end_of(s.span))),
            ast::StatementKind::Expr(e) => StatementKind::Expr(self.lower_expr_with_hint(e, None)?),
            ast::StatementKind::Break => StatementKind::Break,
            ast::StatementKind::Defer(e) => StatementKind::Defer(self.lower_expr_with_hint(e, None)?),
        };
        Ok(Statement { span: s.span, kind })
    }

    /// Lowers a declaration inside a block: its annotation, if any, then its
    /// value with the annotation as hint (integer literals coerced to it,
    /// which the value's type must then be); the name is bound to a fresh
    /// local of the value's type, or, when the value names a function, to
    /// that function (no item then).
    pub fn lower_declaration(&mut self, d: &ast::Declaration) -> (r: Result<Option<Declaration>, Error>)
        requires
            old(self).wf(),
            old(self)@.value_scopes.len() > 0,
        ensures
            final(self).wf(),
            final(self)@.value_scopes.len() == old(self)@.value_scopes.len(),
            r matches Ok(Some(x)) ==> x.span == d.span && x.name@ == d.name@ && x.mutable == d.mutable
                && x.ty@ == x.value.ty@ && (d.ty is None && !(d.value.kind is Function) ==> root_lowered(d.value, x.value)),
        decreases d, 2nat,
    {
        match &d.value.kind {
            ast::ExprKind::Function { params, body, .. } => match self.fn_id_by_node.get(&d.id.value()) {
                Some(id) => {
                    let id = *id;
                    if d.ty.is_some() {
                        return Err(Error { span: d.span, kind: ErrorKind::TypeAnnotationNotAllowed });
                    }
                    let value = self.lower_top_level_function_body(id, params, body, d.value.span)?;
                    let ty = value.ty.duplicate();
                    return Ok(Some(Declaration { id, span: d.span, mutable: d.mutable, name: d.name.clone(), ty, value }));
                },
                None => {},
            },
            _ => {},
        }
        if self.declared_here(&d.name) {
            return Err(Error { span: d.span, kind: ErrorKind::AlreadyDefined { name: d.name.clone() } });
        }
        let expected = match &d.ty {
            Some(t) => Some(self.lower_type(t)?),
            None => None,
        };
        let mut value = match &expected {
            Some(t) => self.lower_expr_with_hint(&d.value, Some(t))?,
            None => self.lower_expr_with_hint(&d.value, None)?,
        };
        match &expected {
            Some(target) => {
                value = coerce_through_tails(value, target)?;
                if !value.ty.same(target) {
                    return Err(
                        Error {
                            span: value.span,
                            kind: ErrorKind::TypeMismatch { expected: target.duplicate(), found: value.ty.duplicate() },
                        },
                    );
                }
            },
            None => {},
        }
        let alias = match (&value.kind, &value.ty) {
            (ExprKind::Local(id), Ty::Function { .. }) => Some(*id),
            _ => None,
        };
        match alias {
            Some(id) => {
                self.bind_name(d.name.clone(), id);
                return Ok(None);
            },
            None => {},
        }
        if !self.id_gen.has_room() {
            return Err(not_lowered(d.span, "more locals than there are ids"));
        }
        let ty = value.ty.duplicate();
        let id = self.id_gen.fresh();
        self.bind_name(d.name.clone(), id);
        self.bindings.insert(id.0, ty.duplicate());
        Ok(Some(Declaration { id, span: d.span, mutable: d.mutable, name: d.name.clone(), ty, value }))
    }

    /// Whether the innermost scope already binds `name`.
    pub fn declared_here(&self, name: &String) -> (r: bool)
        requires
            self@.value_scopes.len() > 0,
        ensures
            r == crate::hir::lower::scope_find(self@.value_scopes.last(), name@) is Some,
    {
        let scope = &self.scopes[self.scopes.len() - 1];
        let ghost sv = crate::hir::lower::value_scope_view(*scope);
        assert(self@.value_scopes.last() == sv);
        let mut j: usize = scope.len();
        assert(sv.take(j as int) =~= sv);
        while j > 0
            invariant
                j <= scope.len(),
                self@.value_scopes.len() > 0,
                sv == self@.value_scopes.last(),
                sv == crate::hir::lower::value_scope_view(*scope),
                crate::hir::lower::scope_find(sv, name@) == crate::hir::lower::scope_find(sv.take(j as int), name@),
            decreases j,
        {
            assert(sv.take(j as int).drop_last() =~= sv.take(j - 1));
            assert(sv.take(j as int).last() == (scope@[j - 1].0@, scope@[j - 1].1.0));
            if scope[j - 1].0 == *name {
                assert(sv.take(j as int).last().0 == name@);
                return true;
            }
            j = j - 1;
        }
        false
    }
}

impl Lower {
    /// Lowers the body of the top-level function pre-registered as `id`,
    /// under the signature saved for it: each parameter becomes a fresh
    /// local of its type in a new scope (with the signature's type
    /// variables in scope), the body takes the return type as hint, and a
    /// numeric return type other than `Int` coerces the body's literal tails.
    pub fn lower_top_level_function_body(
        &mut self,
        id: LocalId,
        params: &Vec<ast::Param>,
        body: &ast::Block,
        span: Span,
    ) -> (r: Result<Expr, Error>)
        requires
            old(self).wf(),
            old(self)@.value_scopes.len() > 0,
        ensures
            final(self).wf(),
            final(self)@.value_scopes.len() == old(self)@.value_scopes.len(),
            r matches Ok(x) ==> x.span == span && x.kind is Function && x.ty is Function,
        decreases body, 3nat,
    {
        let sig = match self.pending_fn_sigs.remove(&id.0) {
            Some(sig) => sig,
            None => {
                return Err(not_lowered(span, "a function without a registered signature"));
            },
        };
        self.type_var_scopes.push(sig.scope);
        self.enter_scope();
        let mut hir_params: Vec<Param> = Vec::new();
        let mut i: usize = 0;
        let mut failed = false;
        while i < params.len() && i < sig.param_tys.len()
            invariant
                self.wf(),
                self@.value_scopes.len() == old(self)@.value_scopes.len() + 1,
                old(self)@.value_scopes.len() > 0,
                hir_params.len() == i,
            decreases params.len() - i,
        {
            if !self.id_gen.has_room() {
                failed = true;
                break;
            }
            let pid = self.id_gen.fresh();
            self.bind_name(params[i].name.clone(), pid);
            self.bindings.insert(pid.0, sig.param_tys[i].duplicate());
            hir_params.push(Param { id: pid, span: params[i].span, name: params[i].name.clone(), ty: sig.param_tys[i].duplicate() });
            i = i + 1;
        }
        let body_result = if failed {
            Err(not_lowered(span, "more locals than there are ids"))
        } else {
            self.lower_block_with_hint(body, Some(&sig.return_ty))
        };
        self.leave_scope();
        let _ = self.type_var_scopes.pop();
        let mut body = body_result?;
        if !body.tail.ty.same(&sig.return_ty) && sig.return_ty.is_number() && !sig.return_ty.same(&Ty::Int) {
            let mut tail = Box::new(unit_expr(body.span));
            std::mem::swap(&mut tail, &mut body.tail);
            body.tail = Box::new(coerce_through_tails(*tail, &sig.return_ty)?);
        }
        let mut param_tys: Vec<Ty> = Vec::new();
        let mut j: usize = 0;
        while j < hir_params.len()
            invariant
                j <= hir_params.len(),
            decreases hir_params.len() - j,
        {
            param_tys.push(hir_params[j].ty.duplicate());
            j = j + 1;
        }
        let fn_ty = Ty::Function { params: param_tys, return_ty: Box::new(sig.return_ty.duplicate()), varargs: false };
        Ok(Expr { span, ty: fn_ty, kind: ExprKind::Function(Function { params: hir_params, return_ty: sig.return_ty, body }) })
    }
}

/// Whether a top-level declaration defines a struct or an enum.
pub open spec fn is_type_def(d: ast::Declaration) -> bool {
    d.value.kind is StructDef || d.value.kind is EnumDef
}

/// Whether `x` comes from one of the declarations `ds` that is not a type
/// definition: it has its span.
pub open spec fn from_declaration(x: Declaration, ds: Seq<ast::Declaration>) -> bool {
    exists|j: int| 0 <= j < ds.len() && !is_type_def(ds[j]) && x.span == #[trigger] ds[j].span
}

impl Lower {
    /// Lowers a whole program: registers its struct and enum declarations
    /// and lowers their bodies, registers the signatures of its functions,
    /// then lowers every other declaration in order. Functions whose type
    /// still holds type variables are generic templates and are not emitted.
    /// The program spans from its first declaration to its last.
    pub fn lower_program(&mut self, program: &ast::Program) -> (r: Result<Program, Error>)
        requires
            old(self).wf(),
            old(self)@.value_scopes.len() > 0,
            program.declarations.len() > 0,
        ensures
            final(self).wf(),
            register_types_spec(old(self)@, program.declarations@).0 matches Err(e) ==> (r matches Err(x)
                && x.span == e.0),
            r matches Ok(p) ==> p.span == (Span {
                start: program.declarations@[0].span.start,
                end: program.declarations@.last().span.end,
            }),
            r matches Ok(p) ==> p.declarations.len() <= program.declarations.len(),
            r matches Ok(p) ==> forall|k: int|
                0 <= k < p.declarations.len() ==> from_declaration(#[trigger] p.declarations@[k], program.declarations@),
    {
        let ds = &program.declarations;
        let span = ds[0].span.join(ds[ds.len() - 1].span);
        match self.register_types(ds) {
            Ok(()) => {},
            Err(e) => {
                return Err(e);
            },
        }
        if ds.len() >= self.id_gen.remaining() as usize {
            return Err(not_lowered(span, "more declarations than there are ids"));
        }
        match self.pre_register_functions(ds) {
            Ok(()) => {},
            Err(e) => {
                return Err(e);
            },
        }
        let mut decls: Vec<Declaration> = Vec::new();
        let ghost mut src: Seq<int> = Seq::empty();
        let mut i: usize = 0;
        while i < ds.len()
            invariant
                self.wf(),
                self@.value_scopes.len() > 0,
                i <= ds.len(),
                ds == &program.declarations,
                ds.len() > 0,
                decls.len() <= i,
                !(register_types_spec(old(self)@, program.declarations@).0 is Err),
                span == (Span { start: program.declarations@[0].span.start, end: program.declarations@.last().span.end }),
                src.len() == decls.len(),
                forall|k: int|
                    0 <= k < decls.len() ==> 0 <= #[trigger] src[k] < i && !is_type_def(ds@[src[k]])
                        && decls@[k].span == ds@[src[k]].span,
            decreases ds.len() - i,
        {
            let d = &ds[i];
            let type_def = match &d.value.kind {
                ast::ExprKind::StructDef { .. } | ast::ExprKind::EnumDef { .. } => true,
                _ => false,
            };
            if !type_def {
                if d.comptime {
                    return Err(not_lowered(d.span, "a #comptime declaration"));
                }
                match self.lower_declaration(d)? {
                    Some(x) => {
                        if !ty_has_typevars(&x.ty) {
                            proof {
                                src = src.push(i as int);
                            }
                            decls.push(x);
                        }
                    },
                    None => {
                        return Err(not_lowered(d.span, "a top-level alias of a function"));
                    },
                }
            }
            i = i + 1;
        }
        assert forall|k: int| 0 <= k < decls.len() implies from_declaration(#[trigger] decls@[k], program.declarations@) by {
            let j = src[k];
            assert(0 <= j < program.declarations.len() && !is_type_def(program.declarations@[j])
                && decls@[k].span == program.declarations@[j].span);
        }
        let mut structs: Vec<StructDef> = Vec::new();
        std::mem::swap(&mut structs, &mut self.structs);
        let mut enums: Vec<EnumDef> = Vec::new();
        std::mem::swap(&mut enums, &mut self.enums);
        Ok(Program { span, declarations: decls, structs, enums })
    }
}

/// Lowers a program with a fresh lowering state (see
/// [`Lower::lower_program`]).
pub fn lower(p: &ast::Program) -> (r: Result<Program, Error>)
    requires
        p.declarations.len() > 0,
    ensures
        r matches Ok(x) ==> x.span == (Span {
            start: p.declarations@[0].span.start,
            end: p.declarations@.last().span.end,
        }) && x.declarations.len() <= p.declarations.len(),
{
    let mut l = Lower::new();
    l.lower_program(p)
}

impl Lower {
    /// Lowers the literal `name { fields }` of the concrete struct `def`:
    /// each field's value with its declared type as hint (an integer
    /// literal coerced to it), the fields put in the order of the
    /// definition. A field named twice or not in the definition, and fields
    /// of the definition left out, are errors.
    pub fn lower_struct_literal(
        &mut self,
        def: &StructDef,
        name: &String,
        fields: &Vec<ast::StructLiteralField>,
        span: Span,
    ) -> (r: Result<Expr, Error>)
        requires
            old(self).wf(),
            old(self)@.value_scopes.len() > 0,
        ensures
            final(self).wf(),
            final(self)@.value_scopes.len() == old(self)@.value_scopes.len(),
            r matches Ok(x) ==> x.span == span && x.ty@ == TyV::Struct(def.name@) && (x.kind matches ExprKind::StructLiteral {
                fields: fs,
            } && fs.len() == def.fields.len() && forall|k: int|
                0 <= k < fs.len() ==> (#[trigger] fs@[k]).0@ == def.fields@[k].0@),
        decreases fields, 2nat,
    {
        let n = def.fields.len();
        let mut slots: Vec<Option<Expr>> = Vec::new();
        let mut k: usize = 0;
        while k < n
            invariant
                n == def.fields.len(),
                k <= n,
                slots.len() == k,
            decreases n - k,
        {
            slots.push(None);
            k = k + 1;
        }
        let mut i: usize = 0;
        while i < fields.len()
            invariant
                self.wf(),
                self@.value_scopes.len() == old(self)@.value_scopes.len(),
                old(self)@.value_scopes.len() > 0,
                n == def.fields.len(),
                slots.len() == n,
                i <= fields.len(),
            decreases fields.len() - i,
        {
            let f = &fields[i];
            let mut at: usize = n;
            let mut j: usize = 0;
            while j < n
                invariant
                    n == def.fields.len(),
                    j <= n,
                    at <= n,
                decreases n - j,
            {
                if at == n && def.fields[j].0 == f.name {
                    at = j;
                }
                j = j + 1;
            }
            if at == n {
                return Err(
                    Error { span: f.span, kind: ErrorKind::UnknownField { struct_name: name.clone(), field: f.name.clone() } },
                );
            }
            if slots[at].is_some() {
                return Err(
                    Error { span: f.span, kind: ErrorKind::DuplicateField { struct_name: name.clone(), field: f.name.clone() } },
                );
            }
            let target = def.fields[at].1.duplicate();
            let value = self.lower_expr_with_hint(&f.value, Some(&target))?;
            let is_fn = match &value.ty {
                Ty::Function { varargs, .. } => !*varargs,
                _ => false,
            };
            let to_closure = match &target {
                Ty::Closure { .. } => true,
                _ => false,
            };
            if is_fn && to_closure {
                return Err(not_lowered(f.span, "a function value stored as a closure"));
            }
            let value = coerce_int_literal(value, &target)?;
            slots.set(at, Some(value));
            i = i + 1;
        }
        let mut missing: Vec<String> = Vec::new();
        let mut k: usize = 0;
        while k < n
            invariant
                n == def.fields.len(),
                slots.len() == n,
                k <= n,
                missing.len() == 0 ==> forall|q: int| 0 <= q < k ==> (#[trigger] slots@[q]) is Some,
            decreases n - k,
        {
            if slots[k].is_none() {
                missing.push(def.fields[k].0.clone());
            }
            k = k + 1;
        }
        if missing.len() > 0 {
            return Err(Error { span, kind: ErrorKind::MissingFields { struct_name: name.clone(), missing } });
        }
        let mut ordered: Vec<(String, Expr)> = Vec::new();
        let mut k: usize = 0;
        while k < n
            invariant
                n == def.fields.len(),
                slots.len() == n,
                k <= n,
                ordered.len() == k,
                forall|q: int| 0 <= q < k ==> (#[trigger] ordered@[q]).0@ == def.fields@[q].0@,
                forall|q: int| k <= q < n ==> (#[trigger] slots@[q]) is Some,
            decreases n - k,
        {
            let mut slot: Option<Expr> = None;
            std::mem::swap(&mut slot, &mut slots[k]);
            match slot {
                Some(v) => {
                    ordered.push((def.fields[k].0.clone(), v));
                },
                None => {
                    assert(false);
                    return Err(Error { span, kind: ErrorKind::MissingFields { struct_name: name.clone(), missing } });
                },
            }
            k = k + 1;
        }
        Ok(Expr { span, ty: Ty::Struct(def.name.clone()), kind: ExprKind::StructLiteral { fields: ordered } })
    }
}

/// The types of `xs`, in order.
fn types_vec(xs: &Vec<Expr>) -> (r: Vec<Ty>)
    ensures
        tys_view(r@) == types_of(xs@),
{
    let mut tys: Vec<Ty> = Vec::new();
    let mut i: usize = 0;
    while i < xs.len()
        invariant
            i <= xs.len(),
            tys.len() == i,
            forall|j: int| 0 <= j < i ==> (#[trigger] tys@[j])@ == xs@[j].ty@,
        decreases xs.len() - i,
    {
        tys.push(xs[i].ty.duplicate());
        i = i + 1;
    }
    proof {
        crate::hir::types::lemma_tys_view(tys@);
        assert(tys_view(tys@) =~= types_of(xs@));
    }
    tys
}

/// The parameter types of a function or closure type; none for another
/// type.
fn callee_params(t: &Ty) -> (r: Vec<Ty>)
    ensures
        match t@ {
            TyV::Function { params, .. } => tys_view(r@) == params,
            TyV::Closure { params, .. } => tys_view(r@) == params,
            _ => r.len() == 0,
        },
{
    match t {
        Ty::Function { params, .. } => tys_duplicate(params),
        Ty::Closure { params, .. } => tys_duplicate(params),
        _ => Vec::new(),
    }
}

pub open spec fn end_of_spec(span: Span) -> Span {
    Span { start: span.end, end: span.end }
}

/// Lowering a binary operation types it by its operator: the arithmetic
/// operators `+ - * / %` keep the type of their (coerced) left operand, so
/// `1.5 / 2.0` is a `Float`; comparisons, shifts, bitwise and logical
/// operators yield `Int`.
pub proof fn law_binary_result_type(e: ast::Expr, x: Expr)
    requires
        e.kind is Binary,
        root_lowered(e, x),
    ensures
        x.kind matches ExprKind::Binary { op, lhs, .. } && (op == e.kind->Binary_op) && (if op == BinaryOperator::Add
            || op == BinaryOperator::Sub || op == BinaryOperator::Mul || op == BinaryOperator::Div || op
            == BinaryOperator::Mod {
            x.ty@ == lhs.ty@
        } else {
            x.ty@ == TyV::Int
        }),
{
}

/// Lowering types the pointer operators and the unary operators by their
/// operand: `&x` is a pointer to the type of `x`, `*p` has the type `p`
/// points to, `-x` keeps the type of `x` and `!x` is an `Int`.
pub proof fn law_operand_types(e: ast::Expr, x: Expr)
    requires
        root_lowered(e, x),
    ensures
        e.kind is Ref ==> (x.kind matches ExprKind::Ref(t) && x.ty@ == TyV::Ptr(Box::new(t.ty@))),
        e.kind is Deref ==> (x.kind matches ExprKind::Deref(t) && t.ty@ == TyV::Ptr(Box::new(x.ty@))),
        e.kind matches ast::ExprKind::Unary { op, .. } ==> (x.kind matches ExprKind::Unary { operand, .. } && (
        if op == UnaryOperator::Minus {
            x.ty@ == operand.ty@
        } else {
            x.ty@ == TyV::Int
        })),
        e.kind is Assign || e.kind is While ==> x.ty == Ty::Unit,
{
}

} // verus!
