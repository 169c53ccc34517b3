//! The token grammar that the parser follows, as spec functions on token
//! sequences: what each parsing function reads from a position, the shape
//! of what it builds (without node ids and spans) and where it stops.

use crate::ast::types::{
    BinaryOperator, Block, BlockItem, Const, Declaration, Expr, ExprKind, ImportDecl, Param, StatementKind,
    StructLiteralField, StructTypeField, TypeExpr, TypeExprKind, UnaryOperator,
};
use crate::lexer::types::{kind_tag, Literal, Token, TokenKind};
use vstd::prelude::*;

verus! {

/// The binary operator a token kind stands for, with its precedence.
pub open spec fn binop_spec(tag: int) -> Option<(i32, BinaryOperator)> {
    if tag == 35 {
        Some((50, BinaryOperator::Mul))
    } else if tag == 36 {
        Some((50, BinaryOperator::Div))
    } else if tag == 37 {
        Some((50, BinaryOperator::Mod))
    } else if tag == 34 {
        Some((45, BinaryOperator::Add))
    } else if tag == 33 {
        Some((45, BinaryOperator::Sub))
    } else if tag == 44 {
        Some((40, BinaryOperator::Shl))
    } else if tag == 45 {
        Some((40, BinaryOperator::Shr))
    } else if tag == 38 {
        Some((35, BinaryOperator::Lt))
    } else if tag == 40 {
        Some((35, BinaryOperator::Le))
    } else if tag == 39 {
        Some((35, BinaryOperator::Gt))
    } else if tag == 41 {
        Some((35, BinaryOperator::Ge))
    } else if tag == 42 {
        Some((30, BinaryOperator::Eq))
    } else if tag == 43 {
        Some((30, BinaryOperator::Ne))
    } else if tag == 46 {
        Some((25, BinaryOperator::BitAnd))
    } else if tag == 48 {
        Some((20, BinaryOperator::BitXor))
    } else if tag == 47 {
        Some((15, BinaryOperator::BitOr))
    } else if tag == 49 {
        Some((10, BinaryOperator::And))
    } else if tag == 50 {
        Some((5, BinaryOperator::Or))
    } else {
        None
    }
}

/// The type kind that a type keyword names, by the keyword's token tag.
pub open spec fn basic_kind(tag: int) -> Option<TypeExprKind> {
    if tag == 20 {
        Some(TypeExprKind::Int)
    } else if tag == 21 {
        Some(TypeExprKind::UInt)
    } else if tag == 22 {
        Some(TypeExprKind::Float)
    } else if tag == 23 {
        Some(TypeExprKind::I8)
    } else if tag == 24 {
        Some(TypeExprKind::I32)
    } else if tag == 25 {
        Some(TypeExprKind::I64)
    } else if tag == 26 {
        Some(TypeExprKind::U8)
    } else if tag == 27 {
        Some(TypeExprKind::U32)
    } else if tag == 28 {
        Some(TypeExprKind::U64)
    } else if tag == 29 {
        Some(TypeExprKind::F32)
    } else if tag == 30 {
        Some(TypeExprKind::F64)
    } else {
        None
    }
}

/// Tokens that may stand inside a type-argument list.
pub open spec fn type_arg_token(tag: int) -> bool {
    tag == 31 || (20 <= tag <= 30) || tag == 60 || tag == 35 || tag == 4 || tag == 5 || tag == 59
        || (55 <= tag <= 58) || tag == 53
}

/// Scanning the tokens from offset `i` after position `p`, with `depth`
/// angle brackets open: the offset just past the `>` (or `>>`) that closes
/// the outermost one, provided every token on the way may stand inside type
/// arguments.
pub open spec fn arg_list_close(ts: Seq<Token>, p: int, i: int, depth: int) -> Option<int>
    decreases ts.len() - (p + i),
{
    if !(0 <= p + i < ts.len()) {
        None
    } else {
        let t = tag_at(ts, p + i);
        if t == 38 {
            arg_list_close(ts, p, i + 1, depth + 1)
        } else if t == 39 || t == 45 {
            let d = if t == 39 {
                depth - 1
            } else {
                depth - 2
            };
            if d == 0 {
                Some(i + 1)
            } else if d < 0 {
                None
            } else {
                arg_list_close(ts, p, i + 1, d)
            }
        } else if !type_arg_token(t) {
            None
        } else {
            arg_list_close(ts, p, i + 1, depth)
        }
    }
}

/// The offset just past a balanced type-argument list that opens with the
/// `<` at offset `at` after position `p`.
pub open spec fn arg_list_end(ts: Seq<Token>, p: int, at: int) -> Option<int> {
    if 0 <= p + at < ts.len() && tag_at(ts, p + at) == 38 {
        arg_list_close(ts, p, at, 0)
    } else {
        None
    }
}

/// At position `p` (an identifier), whether `Name {}`, `Name { f: ...` or the
/// same with type arguments follows.
pub open spec fn struct_literal_ahead(ts: Seq<Token>, p: int) -> bool {
    let brace = if p + 1 < ts.len() && tag_at(ts, p + 1) == 38 {
        arg_list_end(ts, p, 1)
    } else {
        Some(1)
    };
    match brace {
        Some(b) => p + b < ts.len() && tag_at(ts, p + b) == 0 && ((p + b + 1 < ts.len() && tag_at(
            ts,
            p + b + 1,
        ) == 1) || (p + b + 2 < ts.len() && tag_at(ts, p + b + 1) == 31 && tag_at(ts, p + b + 2)
            == 61)),
        None => false,
    }
}

/// At position `p` (a `<`), whether a type-argument list followed by `(`
/// comes next.
pub open spec fn generic_call_at(ts: Seq<Token>, p: int) -> bool {
    match arg_list_end(ts, p, 0) {
        Some(a) => p + a < ts.len() && tag_at(ts, p + a) == 2,
        None => false,
    }
}

/// What a type expression says, without node ids and spans.
pub enum TypeShape {
    /// A type keyword, by its token tag (`Int` .. `f64`).
    Basic(int),
    Named(Seq<char>),
    NamedGeneric { name: Seq<char>, args: Seq<TypeShape> },
    Ptr(Box<TypeShape>),
    Array { element: Box<TypeShape>, count: usize },
    Function { params: Seq<TypeShape>, ret: Box<TypeShape> },
    Tuple(Seq<TypeShape>),
}

pub open spec fn shapes(s: Seq<TypeExpr>) -> Seq<TypeShape>
    decreases s,
{
    if s.len() == 0 {
        Seq::empty()
    } else {
        shapes(s.subrange(0, s.len() - 1)).push(shape(s[s.len() - 1]))
    }
}

pub open spec fn shape(t: TypeExpr) -> TypeShape
    decreases t,
{
    match t.kind {
        TypeExprKind::Int => TypeShape::Basic(20),
        TypeExprKind::UInt => TypeShape::Basic(21),
        TypeExprKind::Float => TypeShape::Basic(22),
        TypeExprKind::I8 => TypeShape::Basic(23),
        TypeExprKind::I32 => TypeShape::Basic(24),
        TypeExprKind::I64 => TypeShape::Basic(25),
        TypeExprKind::U8 => TypeShape::Basic(26),
        TypeExprKind::U32 => TypeShape::Basic(27),
        TypeExprKind::U64 => TypeShape::Basic(28),
        TypeExprKind::F32 => TypeShape::Basic(29),
        TypeExprKind::F64 => TypeShape::Basic(30),
        TypeExprKind::Array { element_ty, count } => TypeShape::Array {
            element: Box::new(shape(*element_ty)),
            count,
        },
        TypeExprKind::Function { params, return_ty } => TypeShape::Function {
            params: shapes(params@),
            ret: Box::new(shape(*return_ty)),
        },
        TypeExprKind::Ptr(inner) => TypeShape::Ptr(Box::new(shape(*inner))),
        TypeExprKind::Named(n) => TypeShape::Named(n@),
        TypeExprKind::NamedGeneric { name, args } => TypeShape::NamedGeneric {
            name: name@,
            args: shapes(args@),
        },
        TypeExprKind::Tuple(elems) => TypeShape::Tuple(shapes(elems@)),
    }
}

pub proof fn lemma_shapes_push(s: Seq<TypeExpr>, t: TypeExpr)
    ensures
        shapes(s.push(t)) == shapes(s).push(shape(t)),
{
    assert(s.push(t).subrange(0, s.len() as int) =~= s);
}

/// The outcome of parsing a type: its shape and the position after it, or
/// failure.
pub enum TypeParse {
    Parsed(TypeShape, int),
    Fail,
}

pub open spec fn tag_at(ts: Seq<Token>, p: int) -> int {
    kind_tag(ts[p].kind)
}

/// The type starting at position `p` of `ts`.
pub open spec fn type_at(ts: Seq<Token>, p: int) -> TypeParse
    decreases ts.len() - p, 1nat,
{
    if !(0 <= p < ts.len()) {
        TypeParse::Fail
    } else if 20 <= tag_at(ts, p) <= 30 {
        TypeParse::Parsed(TypeShape::Basic(tag_at(ts, p)), p + 1)
    } else if tag_at(ts, p) == 31 {
        if p + 1 < ts.len() && tag_at(ts, p + 1) == 38 {
            type_args_at(ts, p + 2, ts[p].kind->Identifier_0@, Seq::empty())
        } else {
            TypeParse::Parsed(TypeShape::Named(ts[p].kind->Identifier_0@), p + 1)
        }
    } else if tag_at(ts, p) == 35 {
        match type_at(ts, p + 1) {
            TypeParse::Parsed(t, q) => TypeParse::Parsed(TypeShape::Ptr(Box::new(t)), q),
            TypeParse::Fail => TypeParse::Fail,
        }
    } else if tag_at(ts, p) == 2 {
        type_params_at(ts, p + 1, Seq::empty())
    } else if tag_at(ts, p) == 4 {
        match type_at(ts, p + 1) {
            TypeParse::Parsed(t, q) => {
                if 0 <= q && q + 2 < ts.len() && tag_at(ts, q) == 59 && (ts[q + 1].kind matches TokenKind::Literal(
                    Literal::Int(n),
                ) && n >= 0) && tag_at(ts, q + 2) == 5 {
                    TypeParse::Parsed(
                        TypeShape::Array {
                            element: Box::new(t),
                            count: ts[q + 1].kind->Literal_0->Int_0 as usize,
                        },
                        q + 3,
                    )
                } else {
                    TypeParse::Fail
                }
            },
            TypeParse::Fail => TypeParse::Fail,
        }
    } else if tag_at(ts, p) == 53 {
        if p + 1 < ts.len() && tag_at(ts, p + 1) == 31 {
            TypeParse::Parsed(TypeShape::Named(seq!['$'] + ts[p + 1].kind->Identifier_0@), p + 2)
        } else {
            TypeParse::Fail
        }
    } else {
        TypeParse::Fail
    }
}

/// The rest of `name<...>` from position `p`, with the arguments `acc`
/// read so far. A trailing comma before `>` is allowed.
pub open spec fn type_args_at(ts: Seq<Token>, p: int, name: Seq<char>, acc: Seq<TypeShape>) -> TypeParse
    decreases ts.len() - p, 2nat,
{
    if !(0 <= p < ts.len()) {
        TypeParse::Fail
    } else if tag_at(ts, p) == 39 {
        TypeParse::Parsed(TypeShape::NamedGeneric { name, args: acc }, p + 1)
    } else if acc.len() > 0 {
        if tag_at(ts, p) != 60 {
            TypeParse::Fail
        } else if p + 1 < ts.len() && tag_at(ts, p + 1) == 39 {
            TypeParse::Parsed(TypeShape::NamedGeneric { name, args: acc }, p + 2)
        } else {
            match type_at(ts, p + 1) {
                TypeParse::Parsed(t, q) => if p < q && q <= ts.len() {
                    type_args_at(ts, q, name, acc.push(t))
                } else {
                    TypeParse::Fail
                },
                TypeParse::Fail => TypeParse::Fail,
            }
        }
    } else {
        match type_at(ts, p) {
            TypeParse::Parsed(t, q) => if p < q && q <= ts.len() {
                type_args_at(ts, q, name, acc.push(t))
            } else {
                TypeParse::Fail
            },
            TypeParse::Fail => TypeParse::Fail,
        }
    }
}

/// The rest of `(T, ...) -> R` from position `p`, with the parameter types
/// `acc` read so far.
pub open spec fn type_params_at(ts: Seq<Token>, p: int, acc: Seq<TypeShape>) -> TypeParse
    decreases ts.len() - p, 2nat,
{
    if !(0 <= p < ts.len()) {
        TypeParse::Fail
    } else if tag_at(ts, p) == 3 {
        if p + 2 < ts.len() && tag_at(ts, p + 1) == 33 && tag_at(ts, p + 2) == 39 {
            match type_at(ts, p + 3) {
                TypeParse::Parsed(r, q) => TypeParse::Parsed(
                    TypeShape::Function { params: acc, ret: Box::new(r) },
                    q,
                ),
                TypeParse::Fail => TypeParse::Fail,
            }
        } else {
            TypeParse::Fail
        }
    } else if acc.len() > 0 {
        if tag_at(ts, p) != 60 {
            TypeParse::Fail
        } else {
            match type_at(ts, p + 1) {
                TypeParse::Parsed(t, q) => if p < q && q <= ts.len() {
                    type_params_at(ts, q, acc.push(t))
                } else {
                    TypeParse::Fail
                },
                TypeParse::Fail => TypeParse::Fail,
            }
        }
    } else {
        match type_at(ts, p) {
            TypeParse::Parsed(t, q) => if p < q && q <= ts.len() {
                type_params_at(ts, q, acc.push(t))
            } else {
                TypeParse::Fail
            },
            TypeParse::Fail => TypeParse::Fail,
        }
    }
}

/// A parameter `name: T` at position `p`: its name, the shape of its type
/// and the position after it.
pub open spec fn param_at(ts: Seq<Token>, p: int) -> Option<(Seq<char>, TypeShape, int)> {
    if 0 <= p && p + 1 < ts.len() && ts[p].kind is Identifier && tag_at(ts, p + 1) == 61 {
        match type_at(ts, p + 2) {
            TypeParse::Parsed(t, q) => Some((ts[p].kind->Identifier_0@, t, q)),
            TypeParse::Fail => None,
        }
    } else {
        None
    }
}

/// `import "path";` at position `p`: the path and the position after it.
pub open spec fn import_at(ts: Seq<Token>, p: int) -> Option<(Seq<char>, int)> {
    if 0 <= p && p + 2 < ts.len() && tag_at(ts, p) == 17 && (ts[p + 1].kind matches TokenKind::Literal(
        Literal::Str(_),
    )) && tag_at(ts, p + 2) == 59 {
        Some((ts[p + 1].kind->Literal_0->Str_0@, p + 3))
    } else {
        None
    }
}

/// The rest of `<$A, $B>` from position `p`, with the names `acc` read so
/// far: the names and the position after `>`. A trailing comma is allowed;
/// a repeated name is not.
pub open spec fn type_params_list_at(ts: Seq<Token>, p: int, acc: Seq<Seq<char>>) -> Option<
    (Seq<Seq<char>>, int),
>
    decreases ts.len() - p,
{
    if !(0 <= p < ts.len()) {
        None
    } else if tag_at(ts, p) == 39 {
        Some((acc, p + 1))
    } else {
        let q = if acc.len() > 0 {
            p + 1
        } else {
            p
        };
        if acc.len() > 0 && tag_at(ts, p) != 60 {
            None
        } else if acc.len() > 0 && q < ts.len() && tag_at(ts, q) == 39 {
            Some((acc, q + 1))
        } else if q + 1 < ts.len() && tag_at(ts, q) == 53 && ts[q + 1].kind is Identifier
            && !acc.contains(ts[q + 1].kind->Identifier_0@) {
            type_params_list_at(ts, q + 2, acc.push(ts[q + 1].kind->Identifier_0@))
        } else {
            None
        }
    }
}

/// The rest of a struct body `{ name: T, ... }` from position `p`, with the
/// fields `acc` read so far. A trailing comma before `}` is allowed.
pub open spec fn struct_fields_at(ts: Seq<Token>, p: int, acc: Seq<(Seq<char>, TypeShape)>) -> Option<
    (Seq<(Seq<char>, TypeShape)>, int),
>
    decreases ts.len() - p,
{
    if !(0 <= p < ts.len()) {
        None
    } else if tag_at(ts, p) == 1 {
        Some((acc, p + 1))
    } else {
        let q = if acc.len() > 0 {
            p + 1
        } else {
            p
        };
        if acc.len() > 0 && tag_at(ts, p) != 60 {
            None
        } else if acc.len() > 0 && q < ts.len() && tag_at(ts, q) == 1 {
            Some((acc, q + 1))
        } else {
            match param_at(ts, q) {
                Some((name, t, r)) => if p < r <= ts.len() {
                    struct_fields_at(ts, r, acc.push((name, t)))
                } else {
                    None
                },
                None => None,
            }
        }
    }
}

/// `struct [<$T, ...>] { name: T, ... }` at position `p`: the type
/// parameters, the fields and the position after it.
pub open spec fn struct_def_at(ts: Seq<Token>, p: int) -> Option<
    (Seq<Seq<char>>, Seq<(Seq<char>, TypeShape)>, int),
> {
    if !(0 <= p && p + 1 < ts.len() && tag_at(ts, p) == 11) {
        None
    } else {
        let params = if tag_at(ts, p + 1) == 38 {
            type_params_list_at(ts, p + 2, Seq::empty())
        } else {
            Some((Seq::empty(), p + 1))
        };
        match params {
            Some((names, q)) => if 0 <= q < ts.len() && tag_at(ts, q) == 0 {
                match struct_fields_at(ts, q + 1, Seq::empty()) {
                    Some((fields, e)) => Some((names, fields, e)),
                    None => None,
                }
            } else {
                None
            },
            None => None,
        }
    }
}

/// The name and type shape of each field.
pub open spec fn field_views(fs: Seq<StructTypeField>) -> Seq<(Seq<char>, TypeShape)> {
    fs.map_values(|f: StructTypeField| (f.name@, shape(f.ty)))
}

/// The views of a list of names.
pub open spec fn names_view(v: Seq<String>) -> Seq<Seq<char>> {
    v.map_values(|x: String| x@)
}


/// The name and type shape of each parameter.
pub open spec fn param_views(ps: Seq<Param>) -> Seq<(Seq<char>, TypeShape)> {
    ps.map_values(|p: Param| (p.name@, shape(p.ty)))
}

/// What an expression says, without node ids and spans.
pub enum ExprShape {
    Int(i32),
    Float(Seq<char>),
    Str(Seq<char>),
    Ident(Seq<char>),
    TypeValue(TypeShape),
    Function {
        type_params: Seq<Seq<char>>,
        params: Seq<(Seq<char>, TypeShape)>,
        ret: Option<TypeShape>,
        body: BlockShape,
    },
    Array(Seq<ExprShape>),
    Cast(Box<ExprShape>, TypeShape),
    Call { callee: Box<ExprShape>, type_args: Seq<TypeShape>, args: Seq<ExprShape> },
    Unary(UnaryOperator, Box<ExprShape>),
    Binary(BinaryOperator, Box<ExprShape>, Box<ExprShape>),
    Assign(Box<ExprShape>, Box<ExprShape>),
    Block(BlockShape),
    If { cond: Box<ExprShape>, then_branch: BlockShape, else_branch: Option<Box<ExprShape>> },
    While { cond: Box<ExprShape>, body: BlockShape },
    Subscript(Box<ExprShape>, Box<ExprShape>),
    Ref(Box<ExprShape>),
    Deref(Box<ExprShape>),
    StructDef { type_params: Seq<Seq<char>>, fields: Seq<(Seq<char>, TypeShape)> },
    StructLiteral {
        name: Seq<char>,
        type_args: Seq<TypeShape>,
        fields: Seq<(Seq<char>, ExprShape)>,
    },
    Field(Box<ExprShape>, Seq<char>),
    TupleField(Box<ExprShape>, usize),
    /// A closure, enum definition, match or tuple: forms that only later
    /// stages build.
    Other,
}

/// What a block says: its items and its tail expression.
pub struct BlockShape {
    pub items: Seq<ItemShape>,
    pub tail: Option<Box<ExprShape>>,
}

pub enum ItemShape {
    Decl(DeclShape),
    Return(Option<ExprShape>),
    Expr(ExprShape),
    Break,
    Defer(ExprShape),
}

pub struct DeclShape {
    pub mutable: bool,
    pub comptime: bool,
    pub name: Seq<char>,
    pub ty: Option<TypeShape>,
    pub value: ExprShape,
}

pub open spec fn opt_shape(t: Option<TypeExpr>) -> Option<TypeShape> {
    match t {
        Some(t) => Some(shape(t)),
        None => None,
    }
}

#[verifier::opaque]
pub open spec fn expr_shape(e: Expr) -> ExprShape
    decreases e,
{
    match e.kind {
        ExprKind::Const(Const::Int(n)) => ExprShape::Int(n),
        ExprKind::Const(Const::Float(t)) => ExprShape::Float(t@),
        ExprKind::Const(Const::Str(t)) => ExprShape::Str(t@),
        ExprKind::Identifier(n) => ExprShape::Ident(n@),
        ExprKind::TypeValue(t) => ExprShape::TypeValue(shape(t)),
        ExprKind::Function { type_params, params, return_ty, body } => ExprShape::Function {
            type_params: names_view(type_params@),
            params: param_views(params@),
            ret: opt_shape(return_ty),
            body: block_shape(body),
        },
        ExprKind::Closure { .. } => ExprShape::Other,
        ExprKind::Array(es) => ExprShape::Array(exprs_shape(es@)),
        ExprKind::Cast { expr, target } => ExprShape::Cast(Box::new(expr_shape(*expr)), shape(target)),
        ExprKind::Call { callee, type_args, args } => ExprShape::Call {
            callee: Box::new(expr_shape(*callee)),
            type_args: shapes(type_args@),
            args: exprs_shape(args@),
        },
        ExprKind::Unary { op, expr } => ExprShape::Unary(op, Box::new(expr_shape(*expr))),
        ExprKind::Binary { op, lhs, rhs } => ExprShape::Binary(
            op,
            Box::new(expr_shape(*lhs)),
            Box::new(expr_shape(*rhs)),
        ),
        ExprKind::Assign { target, value } => ExprShape::Assign(
            Box::new(expr_shape(*target)),
            Box::new(expr_shape(*value)),
        ),
        ExprKind::Block(b) => ExprShape::Block(block_shape(b)),
        ExprKind::If { condition, then_branch, else_branch } => ExprShape::If {
            cond: Box::new(expr_shape(*condition)),
            then_branch: block_shape(then_branch),
            else_branch: match else_branch {
                Some(x) => Some(Box::new(expr_shape(*x))),
                None => None,
            },
        },
        ExprKind::While { condition, body } => ExprShape::While {
            cond: Box::new(expr_shape(*condition)),
            body: block_shape(body),
        },
        ExprKind::Subscript { expr, index } => ExprShape::Subscript(
            Box::new(expr_shape(*expr)),
            Box::new(expr_shape(*index)),
        ),
        ExprKind::Ref(x) => ExprShape::Ref(Box::new(expr_shape(*x))),
        ExprKind::Deref(x) => ExprShape::Deref(Box::new(expr_shape(*x))),
        ExprKind::StructDef { type_params, fields } => ExprShape::StructDef {
            type_params: names_view(type_params@),
            fields: field_views(fields@),
        },
        ExprKind::EnumDef { .. } => ExprShape::Other,
        ExprKind::Match { .. } => ExprShape::Other,
        ExprKind::StructLiteral { name, type_args, fields } => ExprShape::StructLiteral {
            name: name@,
            type_args: shapes(type_args@),
            fields: lit_fields_shape(fields@),
        },
        ExprKind::Field { target, name } => ExprShape::Field(Box::new(expr_shape(*target)), name@),
        ExprKind::Tuple(_) => ExprShape::Other,
        ExprKind::TupleField { target, index } => ExprShape::TupleField(
            Box::new(expr_shape(*target)),
            index,
        ),
    }
}

#[verifier::opaque]
pub open spec fn exprs_shape(s: Seq<Expr>) -> Seq<ExprShape>
    decreases s,
{
    if s.len() == 0 {
        Seq::empty()
    } else {
        exprs_shape(s.subrange(0, s.len() - 1)).push(expr_shape(s[s.len() - 1]))
    }
}

#[verifier::opaque]
pub open spec fn lit_fields_shape(s: Seq<StructLiteralField>) -> Seq<(Seq<char>, ExprShape)>
    decreases s,
{
    if s.len() == 0 {
        Seq::empty()
    } else {
        lit_fields_shape(s.subrange(0, s.len() - 1)).push(
            (s[s.len() - 1].name@, expr_shape(s[s.len() - 1].value)),
        )
    }
}

#[verifier::opaque]
pub open spec fn block_shape(b: Block) -> BlockShape
    decreases b,
{
    BlockShape {
        items: items_shape(b.items@),
        tail: match b.tail {
            Some(x) => Some(Box::new(expr_shape(*x))),
            None => None,
        },
    }
}

#[verifier::opaque]
pub open spec fn items_shape(s: Seq<BlockItem>) -> Seq<ItemShape>
    decreases s,
{
    if s.len() == 0 {
        Seq::empty()
    } else {
        items_shape(s.subrange(0, s.len() - 1)).push(item_shape(s[s.len() - 1]))
    }
}

#[verifier::opaque]
pub open spec fn item_shape(i: BlockItem) -> ItemShape
    decreases i,
{
    match i {
        BlockItem::Declaration(d) => ItemShape::Decl(decl_shape(d)),
        BlockItem::Statement(st) => match st.kind {
            StatementKind::Return(o) => ItemShape::Return(
                match o {
                    Some(x) => Some(expr_shape(x)),
                    None => None,
                },
            ),
            StatementKind::Expr(x) => ItemShape::Expr(expr_shape(x)),
            StatementKind::Break => ItemShape::Break,
            StatementKind::Defer(x) => ItemShape::Defer(expr_shape(x)),
        },
    }
}

#[verifier::opaque]
pub open spec fn decl_shape(d: Declaration) -> DeclShape
    decreases d,
{
    DeclShape {
        mutable: d.mutable,
        comptime: d.comptime,
        name: d.name@,
        ty: opt_shape(d.ty),
        value: expr_shape(d.value),
    }
}

/// The shape of an expression depends on its kind alone.
pub proof fn lemma_expr_shape_kind(e: Expr, f: Expr)
    requires
        e.kind == f.kind,
    ensures
        expr_shape(e) == expr_shape(f),
{
    reveal(expr_shape);
}

pub proof fn lemma_exprs_shape_len(s: Seq<Expr>)
    ensures
        exprs_shape(s).len() == s.len(),
    decreases s.len(),
{
    reveal(exprs_shape);
    if s.len() > 0 {
        lemma_exprs_shape_len(s.subrange(0, s.len() - 1));
    }
}

pub proof fn lemma_lit_fields_shape_len(s: Seq<StructLiteralField>)
    ensures
        lit_fields_shape(s).len() == s.len(),
    decreases s.len(),
{
    reveal(lit_fields_shape);
    if s.len() > 0 {
        lemma_lit_fields_shape_len(s.subrange(0, s.len() - 1));
    }
}

pub proof fn lemma_exprs_shape_push(s: Seq<Expr>, x: Expr)
    ensures
        exprs_shape(s.push(x)) == exprs_shape(s).push(expr_shape(x)),
{
    reveal(expr_shape);
    reveal(exprs_shape);
    reveal(lit_fields_shape);
    reveal(block_shape);
    reveal(items_shape);
    reveal(item_shape);
    reveal(decl_shape);
    assert(s.push(x).subrange(0, s.len() as int) =~= s);
}

pub proof fn lemma_exprs_shape_insert_front(s: Seq<Expr>, x: Expr)
    ensures
        exprs_shape(s.insert(0, x)) == exprs_shape(s).insert(0, expr_shape(x)),
    decreases s.len(),
{
    reveal(expr_shape);
    reveal(exprs_shape);
    reveal(lit_fields_shape);
    reveal(block_shape);
    reveal(items_shape);
    reveal(item_shape);
    reveal(decl_shape);
    if s.len() == 0 {
        let t = s.insert(0, x);
        assert(t.subrange(0, 0) =~= s);
        assert(exprs_shape(t) == exprs_shape(s).push(expr_shape(x)));
        assert(exprs_shape(s).insert(0, expr_shape(x)) =~= exprs_shape(s).push(expr_shape(x)));
    } else {
        let init = s.subrange(0, s.len() - 1);
        lemma_exprs_shape_insert_front(init, x);
        assert(s.insert(0, x).subrange(0, s.len() as int) =~= init.insert(0, x));
        assert(s.insert(0, x)[s.len() as int] == s[s.len() - 1]);
        assert(exprs_shape(s).insert(0, expr_shape(x)) =~= exprs_shape(init).insert(
            0,
            expr_shape(x),
        ).push(expr_shape(s[s.len() - 1])));
    }
}

pub proof fn lemma_lit_fields_shape_push(s: Seq<StructLiteralField>, x: StructLiteralField)
    ensures
        lit_fields_shape(s.push(x)) == lit_fields_shape(s).push((x.name@, expr_shape(x.value))),
{
    reveal(expr_shape);
    reveal(exprs_shape);
    reveal(lit_fields_shape);
    reveal(block_shape);
    reveal(items_shape);
    reveal(item_shape);
    reveal(decl_shape);
    assert(s.push(x).subrange(0, s.len() as int) =~= s);
}

pub proof fn lemma_items_shape_push(s: Seq<BlockItem>, x: BlockItem)
    ensures
        items_shape(s.push(x)) == items_shape(s).push(item_shape(x)),
{
    reveal(expr_shape);
    reveal(exprs_shape);
    reveal(lit_fields_shape);
    reveal(block_shape);
    reveal(items_shape);
    reveal(item_shape);
    reveal(decl_shape);
    assert(s.push(x).subrange(0, s.len() as int) =~= s);
}

/// Expressions that may stand on the left of `=`.
pub open spec fn place_shape(e: ExprShape) -> bool {
    e is Ident || e is Subscript || e is Deref || e is Field || e is TupleField
}

/// Expressions that may stand as statements without a `;`.
pub open spec fn block_like_shape(e: ExprShape) -> bool {
    e is Block || e is If || e is While
}

/// Tokens that start a prefix operator: `-`, `!`, `&`, `*`.
pub open spec fn unop_tag(t: int) -> bool {
    t == 33 || t == 52 || t == 46 || t == 35
}

/// The prefix operator of token tag `t` applied to `o`.
pub open spec fn unary_shape(t: int, o: ExprShape) -> ExprShape {
    if t == 52 {
        ExprShape::Unary(UnaryOperator::Not, Box::new(o))
    } else if t == 33 {
        ExprShape::Unary(UnaryOperator::Minus, Box::new(o))
    } else if t == 46 {
        ExprShape::Ref(Box::new(o))
    } else {
        ExprShape::Deref(Box::new(o))
    }
}

/// `lhs |> f(args)`: the call with `lhs` put in front of its arguments.
pub open spec fn pipe_shape(lhs: ExprShape, rhs: ExprShape) -> ExprShape {
    match rhs {
        ExprShape::Call { callee, type_args, args } => ExprShape::Call {
            callee,
            type_args,
            args: args.insert(0, lhs),
        },
        _ => rhs,
    }
}

/// The parameters of a function literal from position `p` to the `)`,
/// with the parameters `acc` read so far.
pub open spec fn fn_params_at(ts: Seq<Token>, p: int, acc: Seq<(Seq<char>, TypeShape)>) -> Option<
    (Seq<(Seq<char>, TypeShape)>, int),
>
    decreases ts.len() - p,
{
    if !(0 <= p < ts.len()) {
        None
    } else if tag_at(ts, p) == 3 {
        Some((acc, p + 1))
    } else if acc.len() > 0 && tag_at(ts, p) != 60 {
        None
    } else {
        let q = if acc.len() > 0 {
            p + 1
        } else {
            p
        };
        match param_at(ts, q) {
            Some((n, t, r)) => if p < r <= ts.len() {
                fn_params_at(ts, r, acc.push((n, t)))
            } else {
                None
            },
            None => None,
        }
    }
}

/// `return [expr];`, `break;` or `defer expr;` at position `p`.
#[verifier::opaque]
pub open spec fn stmt_at(ts: Seq<Token>, p: int) -> Option<(ItemShape, int)>
    decreases ts.len() - p, 10nat,
{
    if !(0 <= p < ts.len()) {
        None
    } else if tag_at(ts, p) == 7 {
        if p + 1 < ts.len() && tag_at(ts, p + 1) == 59 {
            Some((ItemShape::Return(None), p + 2))
        } else {
            match expr_at(ts, p + 1) {
                Some((x, q)) => if 0 <= q < ts.len() && tag_at(ts, q) == 59 {
                    Some((ItemShape::Return(Some(x)), q + 1))
                } else {
                    None
                },
                None => None,
            }
        }
    } else if tag_at(ts, p) == 15 {
        if p + 1 < ts.len() && tag_at(ts, p + 1) == 59 {
            Some((ItemShape::Break, p + 2))
        } else {
            None
        }
    } else if tag_at(ts, p) == 16 {
        match expr_at(ts, p + 1) {
            Some((x, q)) => if 0 <= q < ts.len() && tag_at(ts, q) == 59 {
                Some((ItemShape::Defer(x), q + 1))
            } else {
                None
            },
            None => None,
        }
    } else {
        None
    }
}

/// The start of a declaration at position `p`, up to its name: whether it
/// is `#comptime`, whether it is `mut`, its name and the position after it.
pub open spec fn decl_head_at(ts: Seq<Token>, p: int) -> Option<(bool, bool, Seq<char>, int)> {
    let hash = 0 <= p < ts.len() && tag_at(ts, p) == 54;
    let p1 = if hash {
        p + 2
    } else {
        p
    };
    if hash && !(p + 1 < ts.len() && ts[p + 1].kind is Identifier && ts[p + 1].kind->Identifier_0@
        == "comptime"@) {
        None
    } else if !(0 <= p1 < ts.len() && tag_at(ts, p1) == 6) {
        None
    } else {
        let m = p1 + 2 < ts.len() && ts[p1 + 1].kind is Identifier && ts[p1 + 1].kind->Identifier_0@
            == "mut"@ && tag_at(ts, p1 + 2) == 31;
        let p2 = if m {
            p1 + 2
        } else {
            p1 + 1
        };
        if !(p2 < ts.len() && ts[p2].kind is Identifier) {
            None
        } else {
            Some((hash, m, ts[p2].kind->Identifier_0@, p2 + 1))
        }
    }
}

/// `[#comptime] let [mut] name [: T] = expr;` at position `p`.
#[verifier::opaque]
pub open spec fn declaration_at(ts: Seq<Token>, p: int) -> Option<(DeclShape, int)>
    decreases ts.len() - p, 10nat,
{
    match decl_head_at(ts, p) {
        Some((comptime, mutable, name, p3)) => {
            let ty_end: Option<(Option<TypeShape>, int)> = if p3 < ts.len() && tag_at(ts, p3) == 61 {
                match type_at(ts, p3 + 1) {
                    TypeParse::Parsed(t, q) => Some((Some(t), q)),
                    TypeParse::Fail => None,
                }
            } else {
                Some((None, p3))
            };
            match ty_end {
                Some((ty, p4)) => if p < p4 && p4 < ts.len() && tag_at(ts, p4) == 32 {
                    match expr_at(ts, p4 + 1) {
                        Some((v, q)) => if 0 <= q < ts.len() && tag_at(ts, q) == 59 {
                            Some((DeclShape { mutable, comptime, name, ty, value: v }, q + 1))
                        } else {
                            None
                        },
                        None => None,
                    }
                } else {
                    None
                },
                None => None,
            }
        },
        None => None,
    }
}

/// An expression at position `p`: assignment, right-associative and
/// weakest of all, over binary expressions.
#[verifier::opaque]
pub open spec fn expr_at(ts: Seq<Token>, p: int) -> Option<(ExprShape, int)>
    decreases ts.len() - p, 9nat,
{
    match binary_at(ts, p, 0) {
        Some((l, q)) => if 0 <= q < ts.len() && tag_at(ts, q) == 32 {
            if !place_shape(l) || !(p < q) {
                None
            } else {
                match expr_at(ts, q + 1) {
                    Some((v, r)) => Some((ExprShape::Assign(Box::new(l), Box::new(v)), r)),
                    None => None,
                }
            }
        } else {
            Some((l, q))
        },
        None => None,
    }
}

/// A binary expression at position `p` whose operators all have
/// precedence at least `min`.
#[verifier::opaque]
pub open spec fn binary_at(ts: Seq<Token>, p: int, min: int) -> Option<(ExprShape, int)>
    decreases ts.len() - p, 8nat,
{
    match unary_cast_at(ts, p) {
        Some((l, q)) => if p < q <= ts.len() {
            binary_rest(ts, q, l, min)
        } else {
            None
        },
        None => None,
    }
}

/// The operators and operands that follow the left operand `lhs`, from
/// position `p`: each operator of precedence at least `min` takes as its
/// right operand what binds tighter than itself, so operators of equal
/// precedence group to the left.
#[verifier::opaque]
pub open spec fn binary_rest(ts: Seq<Token>, p: int, lhs: ExprShape, min: int) -> Option<
    (ExprShape, int),
>
    decreases ts.len() - p, 8nat,
{
    if !(0 <= p < ts.len()) {
        Some((lhs, p))
    } else if tag_at(ts, p) == 51 {
        if 1 < min {
            Some((lhs, p))
        } else {
            match binary_at(ts, p + 1, 2) {
                Some((r, q)) => if r is Call && p < q <= ts.len() {
                    binary_rest(ts, q, pipe_shape(lhs, r), min)
                } else {
                    None
                },
                None => None,
            }
        }
    } else {
        match binop_spec(tag_at(ts, p)) {
            None => Some((lhs, p)),
            Some((prec, op)) => if prec < min {
                Some((lhs, p))
            } else {
                match binary_at(ts, p + 1, prec + 1) {
                    Some((r, q)) => if p < q <= ts.len() {
                        binary_rest(ts, q, ExprShape::Binary(op, Box::new(lhs), Box::new(r)), min)
                    } else {
                        None
                    },
                    None => None,
                }
            },
        }
    }
}

/// A prefix expression at position `p` followed by any number of `as T`.
#[verifier::opaque]
pub open spec fn unary_cast_at(ts: Seq<Token>, p: int) -> Option<(ExprShape, int)>
    decreases ts.len() - p, 7nat,
{
    match unary_at(ts, p) {
        Some((e, q)) => if p < q <= ts.len() {
            cast_rest(ts, q, e)
        } else {
            None
        },
        None => None,
    }
}

#[verifier::opaque]
pub open spec fn cast_rest(ts: Seq<Token>, p: int, e: ExprShape) -> Option<(ExprShape, int)>
    decreases ts.len() - p, 7nat,
{
    if 0 <= p < ts.len() && tag_at(ts, p) == 8 {
        match type_at(ts, p + 1) {
            TypeParse::Parsed(t, q) => if p < q <= ts.len() {
                cast_rest(ts, q, ExprShape::Cast(Box::new(e), t))
            } else {
                None
            },
            TypeParse::Fail => None,
        }
    } else {
        Some((e, p))
    }
}

/// Prefix operators, then a postfix expression, at position `p`.
#[verifier::opaque]
pub open spec fn unary_at(ts: Seq<Token>, p: int) -> Option<(ExprShape, int)>
    decreases ts.len() - p, 6nat,
{
    if 0 <= p < ts.len() && unop_tag(tag_at(ts, p)) {
        match unary_at(ts, p + 1) {
            Some((o, q)) => Some((unary_shape(tag_at(ts, p), o), q)),
            None => None,
        }
    } else {
        postfix_at(ts, p)
    }
}

#[verifier::opaque]
pub open spec fn postfix_at(ts: Seq<Token>, p: int) -> Option<(ExprShape, int)>
    decreases ts.len() - p, 5nat,
{
    match primary_at(ts, p) {
        Some((e, q)) => if p < q <= ts.len() {
            postfix_rest(ts, q, e)
        } else {
            None
        },
        None => None,
    }
}

/// Whether a call, a generic call, a subscript or a field access starts at
/// position `p`.
pub open spec fn suffix_start(ts: Seq<Token>, p: int) -> bool {
    0 <= p < ts.len() && (tag_at(ts, p) == 2 || (tag_at(ts, p) == 38 && generic_call_at(ts, p))
        || tag_at(ts, p) == 4 || tag_at(ts, p) == 62)
}

/// The suffixes that follow `e` from position `p`.
#[verifier::opaque]
pub open spec fn postfix_rest(ts: Seq<Token>, p: int, e: ExprShape) -> Option<(ExprShape, int)>
    decreases ts.len() - p, 5nat,
{
    if !suffix_start(ts, p) {
        Some((e, p))
    } else {
        match postfix_step(ts, p, e) {
            Some((x, q)) => if p < q <= ts.len() {
                postfix_rest(ts, q, x)
            } else {
                None
            },
            None => None,
        }
    }
}

/// One suffix after `e`, starting at position `p`.
#[verifier::opaque]
pub open spec fn postfix_step(ts: Seq<Token>, p: int, e: ExprShape) -> Option<(ExprShape, int)>
    decreases ts.len() - p, 4nat,
{
    if !(0 <= p < ts.len()) {
        None
    } else if tag_at(ts, p) == 2 {
        match call_args_at(ts, p + 1, Seq::empty()) {
            Some((args, q)) => Some(
                (ExprShape::Call { callee: Box::new(e), type_args: Seq::empty(), args }, q),
            ),
            None => None,
        }
    } else if tag_at(ts, p) == 38 {
        match type_args_at(ts, p + 1, Seq::empty(), Seq::empty()) {
            TypeParse::Parsed(TypeShape::NamedGeneric { args: targs, .. }, q) => if p < q && q
                < ts.len() && tag_at(ts, q) == 2 {
                match call_args_at(ts, q + 1, Seq::empty()) {
                    Some((args, r)) => Some(
                        (ExprShape::Call { callee: Box::new(e), type_args: targs, args }, r),
                    ),
                    None => None,
                }
            } else {
                None
            },
            _ => None,
        }
    } else if tag_at(ts, p) == 4 {
        match expr_at(ts, p + 1) {
            Some((i, q)) => if 0 <= q < ts.len() && tag_at(ts, q) == 5 {
                Some((ExprShape::Subscript(Box::new(e), Box::new(i)), q + 1))
            } else {
                None
            },
            None => None,
        }
    } else if tag_at(ts, p) == 62 {
        if p + 1 < ts.len() && ts[p + 1].kind is Identifier {
            Some((ExprShape::Field(Box::new(e), ts[p + 1].kind->Identifier_0@), p + 2))
        } else if p + 1 < ts.len() && (ts[p + 1].kind matches TokenKind::Literal(Literal::Int(n))
            && n >= 0) {
            Some(
                (
                    ExprShape::TupleField(
                        Box::new(e),
                        ts[p + 1].kind->Literal_0->Int_0 as usize,
                    ),
                    p + 2,
                ),
            )
        } else {
            None
        }
    } else {
        None
    }
}

/// Call arguments from position `p` to the `)`, with the arguments `acc`
/// read so far.
#[verifier::opaque]
pub open spec fn call_args_at(ts: Seq<Token>, p: int, acc: Seq<ExprShape>) -> Option<
    (Seq<ExprShape>, int),
>
    decreases ts.len() - p, 10nat,
{
    if !(0 <= p < ts.len()) {
        None
    } else if tag_at(ts, p) == 3 {
        Some((acc, p + 1))
    } else if acc.len() > 0 && tag_at(ts, p) != 60 {
        None
    } else {
        let q = if acc.len() > 0 {
            p + 1
        } else {
            p
        };
        match expr_at(ts, q) {
            Some((a, r)) => if p < r <= ts.len() {
                call_args_at(ts, r, acc.push(a))
            } else {
                None
            },
            None => None,
        }
    }
}

/// Array elements from position `p` to the `]`, with the elements `acc`
/// read so far.
#[verifier::opaque]
pub open spec fn array_elems_at(ts: Seq<Token>, p: int, acc: Seq<ExprShape>) -> Option<
    (Seq<ExprShape>, int),
>
    decreases ts.len() - p, 10nat,
{
    if !(0 <= p < ts.len()) {
        None
    } else if tag_at(ts, p) == 5 {
        Some((acc, p + 1))
    } else if acc.len() > 0 && tag_at(ts, p) != 60 {
        None
    } else {
        let q = if acc.len() > 0 {
            p + 1
        } else {
            p
        };
        match expr_at(ts, q) {
            Some((a, r)) => if p < r <= ts.len() {
                array_elems_at(ts, r, acc.push(a))
            } else {
                None
            },
            None => None,
        }
    }
}

/// A primary expression at position `p`.
#[verifier::opaque]
pub open spec fn primary_at(ts: Seq<Token>, p: int) -> Option<(ExprShape, int)>
    decreases ts.len() - p, 4nat,
{
    if !(0 <= p < ts.len()) {
        None
    } else {
        let t = tag_at(ts, p);
        if t == 55 {
            Some((ExprShape::Int(ts[p].kind->Literal_0->Int_0), p + 1))
        } else if t == 56 {
            Some((ExprShape::Float(ts[p].kind->Literal_0->Float_0@), p + 1))
        } else if t == 57 {
            Some((ExprShape::Str(ts[p].kind->Literal_0->Str_0@), p + 1))
        } else if t == 31 {
            if struct_literal_ahead(ts, p) {
                struct_literal_at(ts, p)
            } else {
                Some((ExprShape::Ident(ts[p].kind->Identifier_0@), p + 1))
            }
        } else if t == 11 {
            match struct_def_at(ts, p) {
                Some((names, fields, q)) => Some(
                    (ExprShape::StructDef { type_params: names, fields }, q),
                ),
                None => None,
            }
        } else if t == 38 {
            match type_params_list_at(ts, p + 1, Seq::empty()) {
                Some((names, q)) => if p < q <= ts.len() {
                    function_literal_at(ts, q, names)
                } else {
                    None
                },
                None => None,
            }
        } else if t == 4 {
            match array_elems_at(ts, p + 1, Seq::empty()) {
                Some((es, q)) => Some((ExprShape::Array(es), q)),
                None => None,
            }
        } else if t == 2 {
            paren_at(ts, p)
        } else if t == 0 {
            match block_at(ts, p) {
                Some((b, q)) => Some((ExprShape::Block(b), q)),
                None => None,
            }
        } else if t == 9 {
            if_at(ts, p)
        } else if t == 14 {
            while_at(ts, p)
        } else if 20 <= t <= 30 {
            match type_at(ts, p) {
                TypeParse::Parsed(ty, q) => Some((ExprShape::TypeValue(ty), q)),
                TypeParse::Fail => None,
            }
        } else {
            None
        }
    }
}

/// `(` at position `p`: a function literal when `()` or `(name:` follows,
/// else an expression in parentheses.
#[verifier::opaque]
pub open spec fn paren_at(ts: Seq<Token>, p: int) -> Option<(ExprShape, int)>
    decreases ts.len() - p, 3nat,
{
    if !(0 <= p < ts.len()) {
        None
    } else {
        if (p + 1 < ts.len() && tag_at(ts, p + 1) == 3) || (p + 2 < ts.len() && tag_at(ts, p + 1) == 31
            && tag_at(ts, p + 2) == 61) {
            function_literal_at(ts, p, Seq::empty())
        } else {
            match expr_at(ts, p + 1) {
                Some((e, q)) => if 0 <= q < ts.len() && tag_at(ts, q) == 3 {
                    Some((e, q + 1))
                } else {
                    None
                },
                None => None,
            }
        }
    }
}

/// `if cond { ... } [else expr]` at position `p`.
#[verifier::opaque]
pub open spec fn if_at(ts: Seq<Token>, p: int) -> Option<(ExprShape, int)>
    decreases ts.len() - p, 3nat,
{
    if !(0 <= p < ts.len()) {
        None
    } else {
        match expr_at(ts, p + 1) {
            Some((c, q)) => if p < q <= ts.len() {
                match block_at(ts, q) {
                    Some((b, r)) => if !(p < r) {
                        None
                    } else if 0 <= r < ts.len() && tag_at(ts, r) == 10 {
                        match expr_at(ts, r + 1) {
                            Some((x, e)) => Some(
                                (
                                    ExprShape::If {
                                        cond: Box::new(c),
                                        then_branch: b,
                                        else_branch: Some(Box::new(x)),
                                    },
                                    e,
                                ),
                            ),
                            None => None,
                        }
                    } else {
                        Some((ExprShape::If { cond: Box::new(c), then_branch: b, else_branch: None }, r))
                    },
                    None => None,
                }
            } else {
                None
            },
            None => None,
        }
    }
}

/// `while cond { ... }` at position `p`.
#[verifier::opaque]
pub open spec fn while_at(ts: Seq<Token>, p: int) -> Option<(ExprShape, int)>
    decreases ts.len() - p, 3nat,
{
    if !(0 <= p < ts.len()) {
        None
    } else {
        match expr_at(ts, p + 1) {
            Some((c, q)) => if p < q <= ts.len() {
                match block_at(ts, q) {
                    Some((b, r)) => Some((ExprShape::While { cond: Box::new(c), body: b }, r)),
                    None => None,
                }
            } else {
                None
            },
            None => None,
        }
    }
}

/// `Name [<T, ...>] { field: value, ... }` at position `p`.
#[verifier::opaque]
pub open spec fn struct_literal_at(ts: Seq<Token>, p: int) -> Option<(ExprShape, int)>
    decreases ts.len() - p, 3nat,
{
    if !(0 <= p < ts.len() && ts[p].kind is Identifier) {
        None
    } else {
        let targs: Option<(Seq<TypeShape>, int)> = if p + 1 < ts.len() && tag_at(ts, p + 1) == 38 {
            match type_args_at(ts, p + 2, Seq::empty(), Seq::empty()) {
                TypeParse::Parsed(TypeShape::NamedGeneric { args, .. }, q) => Some((args, q)),
                _ => None,
            }
        } else {
            Some((Seq::empty(), p + 1))
        };
        match targs {
            Some((ta, q)) => if p < q && q < ts.len() && tag_at(ts, q) == 0 {
                match lit_fields_at(ts, q + 1, Seq::empty()) {
                    Some((fs, r)) => Some(
                        (
                            ExprShape::StructLiteral {
                                name: ts[p].kind->Identifier_0@,
                                type_args: ta,
                                fields: fs,
                            },
                            r,
                        ),
                    ),
                    None => None,
                }
            } else {
                None
            },
            None => None,
        }
    }
}

/// The fields of a struct literal from position `p` to the `}`, with the
/// fields `acc` read so far. A trailing comma is allowed.
#[verifier::opaque]
pub open spec fn lit_fields_at(ts: Seq<Token>, p: int, acc: Seq<(Seq<char>, ExprShape)>) -> Option<
    (Seq<(Seq<char>, ExprShape)>, int),
>
    decreases ts.len() - p, 3nat,
{
    if !(0 <= p < ts.len()) {
        None
    } else if tag_at(ts, p) == 1 {
        Some((acc, p + 1))
    } else {
        let q = if acc.len() > 0 {
            p + 1
        } else {
            p
        };
        if acc.len() > 0 && tag_at(ts, p) != 60 {
            None
        } else if acc.len() > 0 && q < ts.len() && tag_at(ts, q) == 1 {
            Some((acc, q + 1))
        } else if q + 1 < ts.len() && ts[q].kind is Identifier && tag_at(ts, q + 1) == 61 {
            match expr_at(ts, q + 2) {
                Some((v, r)) => if p < r <= ts.len() {
                    lit_fields_at(ts, r, acc.push((ts[q].kind->Identifier_0@, v)))
                } else {
                    None
                },
                None => None,
            }
        } else {
            None
        }
    }
}

/// `(params) [-> T] { body }` at position `p`, for a function literal with
/// the type parameters `type_params`.
#[verifier::opaque]
pub open spec fn function_literal_at(ts: Seq<Token>, p: int, type_params: Seq<Seq<char>>) -> Option<
    (ExprShape, int),
>
    decreases ts.len() - p, 2nat,
{
    if !(0 <= p < ts.len() && tag_at(ts, p) == 2) {
        None
    } else {
        match fn_params_at(ts, p + 1, Seq::empty()) {
            Some((params, q)) => {
                let ret: Option<(Option<TypeShape>, int)> = if 0 <= q < ts.len() && tag_at(ts, q)
                    == 33 {
                    if q + 1 < ts.len() && tag_at(ts, q + 1) == 39 {
                        match type_at(ts, q + 2) {
                            TypeParse::Parsed(t, r) => Some((Some(t), r)),
                            TypeParse::Fail => None,
                        }
                    } else {
                        None
                    }
                } else {
                    Some((None, q))
                };
                match ret {
                    Some((rt, r)) => if p < r <= ts.len() {
                        match block_at(ts, r) {
                            Some((b, s)) => Some(
                                (ExprShape::Function { type_params, params, ret: rt, body: b }, s),
                            ),
                            None => None,
                        }
                    } else {
                        None
                    },
                    None => None,
                }
            },
            None => None,
        }
    }
}

/// A block `{ ... }` at position `p`.
#[verifier::opaque]
pub open spec fn block_at(ts: Seq<Token>, p: int) -> Option<(BlockShape, int)>
    decreases ts.len() - p, 3nat,
{
    if 0 <= p < ts.len() && tag_at(ts, p) == 0 {
        items_at(ts, p + 1, Seq::empty())
    } else {
        None
    }
}

/// What comes next in a block at position `p`.
pub enum ItemStep {
    Item(ItemShape),
    /// An expression right before the closing `}`.
    Tail(ExprShape),
    /// The closing `}`.
    Close,
}

/// The next entry of a block at position `p`, and the position after it
/// (at the `}` for a tail or the close). An expression followed by `;` is a
/// statement, one followed by `}` is the tail, and a block, `if` or `while`
/// needs no `;`.
#[verifier::opaque]
pub open spec fn item_step_at(ts: Seq<Token>, p: int) -> Option<(ItemStep, int)>
    decreases ts.len() - p, 11nat,
{
    if !(0 <= p < ts.len()) {
        None
    } else if tag_at(ts, p) == 1 {
        Some((ItemStep::Close, p))
    } else if tag_at(ts, p) == 6 || tag_at(ts, p) == 54 {
        match declaration_at(ts, p) {
            Some((d, q)) => Some((ItemStep::Item(ItemShape::Decl(d)), q)),
            None => None,
        }
    } else if tag_at(ts, p) == 7 || tag_at(ts, p) == 15 || tag_at(ts, p) == 16 {
        match stmt_at(ts, p) {
            Some((it, q)) => Some((ItemStep::Item(it), q)),
            None => None,
        }
    } else {
        match expr_at(ts, p) {
            Some((x, q)) => if !(p < q < ts.len()) {
                None
            } else if tag_at(ts, q) == 59 {
                Some((ItemStep::Item(ItemShape::Expr(x)), q + 1))
            } else if tag_at(ts, q) == 1 {
                Some((ItemStep::Tail(x), q))
            } else if block_like_shape(x) {
                Some((ItemStep::Item(ItemShape::Expr(x)), q))
            } else {
                None
            },
            None => None,
        }
    }
}

/// The items of a block from position `p` to the `}`, with the items `acc`
/// read so far.
#[verifier::opaque]
pub open spec fn items_at(ts: Seq<Token>, p: int, acc: Seq<ItemShape>) -> Option<(BlockShape, int)>
    decreases ts.len() - p, 12nat,
{
    match item_step_at(ts, p) {
        Some((ItemStep::Close, q)) => Some((BlockShape { items: acc, tail: None }, q + 1)),
        Some((ItemStep::Tail(x), q)) => Some((BlockShape { items: acc, tail: Some(Box::new(x)) }, q + 1)),
        Some((ItemStep::Item(it), q)) => if p < q <= ts.len() {
            items_at(ts, q, acc.push(it))
        } else {
            None
        },
        None => None,
    }
}

/// A whole file from position `p` to the end marker: its declarations and
/// import paths, in order, after the ones `ds` and `is` read so far. A file
/// with neither is an error.
pub open spec fn program_rest(ts: Seq<Token>, p: int, ds: Seq<DeclShape>, is: Seq<Seq<char>>) -> Option<
    (Seq<DeclShape>, Seq<Seq<char>>),
>
    decreases ts.len() - p,
{
    if !(0 <= p < ts.len()) {
        None
    } else if tag_at(ts, p) == 63 {
        if ds.len() + is.len() == 0 {
            None
        } else {
            Some((ds, is))
        }
    } else if tag_at(ts, p) == 17 {
        match import_at(ts, p) {
            Some((path, q)) => if p < q <= ts.len() {
                program_rest(ts, q, ds, is.push(path))
            } else {
                None
            },
            None => None,
        }
    } else {
        match declaration_at(ts, p) {
            Some((d, q)) => if p < q <= ts.len() {
                program_rest(ts, q, ds.push(d), is)
            } else {
                None
            },
            None => None,
        }
    }
}

/// A whole file of tokens.
pub open spec fn program_at(ts: Seq<Token>) -> Option<(Seq<DeclShape>, Seq<Seq<char>>)> {
    program_rest(ts, 0, Seq::empty(), Seq::empty())
}

pub open spec fn decls_shape(s: Seq<Declaration>) -> Seq<DeclShape> {
    s.map_values(|d: Declaration| decl_shape(d))
}

pub open spec fn import_paths(s: Seq<ImportDecl>) -> Seq<Seq<char>> {
    s.map_values(|i: ImportDecl| i.path@)
}

/// One step of `expr_at`.
pub proof fn unfold_expr_at(ts: Seq<Token>, p: int)
    ensures
        expr_at(ts, p) == ({
            match binary_at(ts, p, 0) {
                Some((l, q)) => if 0 <= q < ts.len() && tag_at(ts, q) == 32 {
                    if !place_shape(l) || !(p < q) {
                        None
                    } else {
                        match expr_at(ts, q + 1) {
                            Some((v, r)) => Some((ExprShape::Assign(Box::new(l), Box::new(v)), r)),
                            None => None,
                        }
                    }
                } else {
                    Some((l, q))
                },
                None => None,
            }
        }),
{
    reveal(expr_at);
    reveal(binary_at);
    reveal(binary_rest);
    reveal(unary_cast_at);
    reveal(cast_rest);
    reveal(unary_at);
    reveal(postfix_at);
    reveal(postfix_rest);
    reveal(postfix_step);
    reveal(call_args_at);
    reveal(array_elems_at);
    reveal(primary_at);
    reveal(paren_at);
    reveal(if_at);
    reveal(while_at);
    reveal(struct_literal_at);
    reveal(lit_fields_at);
    reveal(function_literal_at);
    reveal(block_at);
    reveal(items_at);
    reveal(item_step_at);
    reveal(stmt_at);
    reveal(declaration_at);
}

/// One step of `binary_at`.
pub proof fn unfold_binary_at(ts: Seq<Token>, p: int, min: int)
    ensures
        binary_at(ts, p, min) == ({
            match unary_cast_at(ts, p) {
                Some((l, q)) => if p < q <= ts.len() {
                    binary_rest(ts, q, l, min)
                } else {
                    None
                },
                None => None,
            }
        }),
{
    reveal(expr_at);
    reveal(binary_at);
    reveal(binary_rest);
    reveal(unary_cast_at);
    reveal(cast_rest);
    reveal(unary_at);
    reveal(postfix_at);
    reveal(postfix_rest);
    reveal(postfix_step);
    reveal(call_args_at);
    reveal(array_elems_at);
    reveal(primary_at);
    reveal(paren_at);
    reveal(if_at);
    reveal(while_at);
    reveal(struct_literal_at);
    reveal(lit_fields_at);
    reveal(function_literal_at);
    reveal(block_at);
    reveal(items_at);
    reveal(item_step_at);
    reveal(stmt_at);
    reveal(declaration_at);
}

/// One step of `binary_rest`.
pub proof fn unfold_binary_rest(ts: Seq<Token>, p: int, lhs: ExprShape, min: int)
    ensures
        binary_rest(ts, p, lhs, min) == ({
            if !(0 <= p < ts.len()) {
                Some((lhs, p))
            } else if tag_at(ts, p) == 51 {
                if 1 < min {
                    Some((lhs, p))
                } else {
                    match binary_at(ts, p + 1, 2) {
                        Some((r, q)) => if r is Call && p < q <= ts.len() {
                            binary_rest(ts, q, pipe_shape(lhs, r), min)
                        } else {
                            None
                        },
                        None => None,
                    }
                }
            } else {
                match binop_spec(tag_at(ts, p)) {
                    None => Some((lhs, p)),
                    Some((prec, op)) => if prec < min {
                        Some((lhs, p))
                    } else {
                        match binary_at(ts, p + 1, prec + 1) {
                            Some((r, q)) => if p < q <= ts.len() {
                                binary_rest(ts, q, ExprShape::Binary(op, Box::new(lhs), Box::new(r)), min)
                            } else {
                                None
                            },
                            None => None,
                        }
                    },
                }
            }
        }),
{
    reveal(expr_at);
    reveal(binary_at);
    reveal(binary_rest);
    reveal(unary_cast_at);
    reveal(cast_rest);
    reveal(unary_at);
    reveal(postfix_at);
    reveal(postfix_rest);
    reveal(postfix_step);
    reveal(call_args_at);
    reveal(array_elems_at);
    reveal(primary_at);
    reveal(paren_at);
    reveal(if_at);
    reveal(while_at);
    reveal(struct_literal_at);
    reveal(lit_fields_at);
    reveal(function_literal_at);
    reveal(block_at);
    reveal(items_at);
    reveal(item_step_at);
    reveal(stmt_at);
    reveal(declaration_at);
}

/// One step of `unary_cast_at`.
pub proof fn unfold_unary_cast_at(ts: Seq<Token>, p: int)
    ensures
        unary_cast_at(ts, p) == ({
            match unary_at(ts, p) {
                Some((e, q)) => if p < q <= ts.len() {
                    cast_rest(ts, q, e)
                } else {
                    None
                },
                None => None,
            }
        }),
{
    reveal(expr_at);
    reveal(binary_at);
    reveal(binary_rest);
    reveal(unary_cast_at);
    reveal(cast_rest);
    reveal(unary_at);
    reveal(postfix_at);
    reveal(postfix_rest);
    reveal(postfix_step);
    reveal(call_args_at);
    reveal(array_elems_at);
    reveal(primary_at);
    reveal(paren_at);
    reveal(if_at);
    reveal(while_at);
    reveal(struct_literal_at);
    reveal(lit_fields_at);
    reveal(function_literal_at);
    reveal(block_at);
    reveal(items_at);
    reveal(item_step_at);
    reveal(stmt_at);
    reveal(declaration_at);
}

/// One step of `cast_rest`.
pub proof fn unfold_cast_rest(ts: Seq<Token>, p: int, e: ExprShape)
    ensures
        cast_rest(ts, p, e) == ({
            if 0 <= p < ts.len() && tag_at(ts, p) == 8 {
                match type_at(ts, p + 1) {
                    TypeParse::Parsed(t, q) => if p < q <= ts.len() {
                        cast_rest(ts, q, ExprShape::Cast(Box::new(e), t))
                    } else {
                        None
                    },
                    TypeParse::Fail => None,
                }
            } else {
                Some((e, p))
            }
        }),
{
    reveal(expr_at);
    reveal(binary_at);
    reveal(binary_rest);
    reveal(unary_cast_at);
    reveal(cast_rest);
    reveal(unary_at);
    reveal(postfix_at);
    reveal(postfix_rest);
    reveal(postfix_step);
    reveal(call_args_at);
    reveal(array_elems_at);
    reveal(primary_at);
    reveal(paren_at);
    reveal(if_at);
    reveal(while_at);
    reveal(struct_literal_at);
    reveal(lit_fields_at);
    reveal(function_literal_at);
    reveal(block_at);
    reveal(items_at);
    reveal(item_step_at);
    reveal(stmt_at);
    reveal(declaration_at);
}

/// One step of `unary_at`.
pub proof fn unfold_unary_at(ts: Seq<Token>, p: int)
    ensures
        unary_at(ts, p) == ({
            if 0 <= p < ts.len() && unop_tag(tag_at(ts, p)) {
                match unary_at(ts, p + 1) {
                    Some((o, q)) => Some((unary_shape(tag_at(ts, p), o), q)),
                    None => None,
                }
            } else {
                postfix_at(ts, p)
            }
        }),
{
    reveal(expr_at);
    reveal(binary_at);
    reveal(binary_rest);
    reveal(unary_cast_at);
    reveal(cast_rest);
    reveal(unary_at);
    reveal(postfix_at);
    reveal(postfix_rest);
    reveal(postfix_step);
    reveal(call_args_at);
    reveal(array_elems_at);
    reveal(primary_at);
    reveal(paren_at);
    reveal(if_at);
    reveal(while_at);
    reveal(struct_literal_at);
    reveal(lit_fields_at);
    reveal(function_literal_at);
    reveal(block_at);
    reveal(items_at);
    reveal(item_step_at);
    reveal(stmt_at);
    reveal(declaration_at);
}

/// One step of `postfix_at`.
pub proof fn unfold_postfix_at(ts: Seq<Token>, p: int)
    ensures
        postfix_at(ts, p) == ({
            match primary_at(ts, p) {
                Some((e, q)) => if p < q <= ts.len() {
                    postfix_rest(ts, q, e)
                } else {
                    None
                },
                None => None,
            }
        }),
{
    reveal(expr_at);
    reveal(binary_at);
    reveal(binary_rest);
    reveal(unary_cast_at);
    reveal(cast_rest);
    reveal(unary_at);
    reveal(postfix_at);
    reveal(postfix_rest);
    reveal(postfix_step);
    reveal(call_args_at);
    reveal(array_elems_at);
    reveal(primary_at);
    reveal(paren_at);
    reveal(if_at);
    reveal(while_at);
    reveal(struct_literal_at);
    reveal(lit_fields_at);
    reveal(function_literal_at);
    reveal(block_at);
    reveal(items_at);
    reveal(item_step_at);
    reveal(stmt_at);
    reveal(declaration_at);
}

/// One step of `postfix_rest`.
pub proof fn unfold_postfix_rest(ts: Seq<Token>, p: int, e: ExprShape)
    ensures
        postfix_rest(ts, p, e) == ({
            if !suffix_start(ts, p) {
                Some((e, p))
            } else {
                match postfix_step(ts, p, e) {
                    Some((x, q)) => if p < q <= ts.len() {
                        postfix_rest(ts, q, x)
                    } else {
                        None
                    },
                    None => None,
                }
            }
        }),
{
    reveal(expr_at);
    reveal(binary_at);
    reveal(binary_rest);
    reveal(unary_cast_at);
    reveal(cast_rest);
    reveal(unary_at);
    reveal(postfix_at);
    reveal(postfix_rest);
    reveal(postfix_step);
    reveal(call_args_at);
    reveal(array_elems_at);
    reveal(primary_at);
    reveal(paren_at);
    reveal(if_at);
    reveal(while_at);
    reveal(struct_literal_at);
    reveal(lit_fields_at);
    reveal(function_literal_at);
    reveal(block_at);
    reveal(items_at);
    reveal(item_step_at);
    reveal(stmt_at);
    reveal(declaration_at);
}

/// One step of `postfix_step`.
pub proof fn unfold_postfix_step(ts: Seq<Token>, p: int, e: ExprShape)
    ensures
        postfix_step(ts, p, e) == ({
            if !(0 <= p < ts.len()) {
                None
            } else if tag_at(ts, p) == 2 {
                match call_args_at(ts, p + 1, Seq::empty()) {
                    Some((args, q)) => Some(
                        (ExprShape::Call { callee: Box::new(e), type_args: Seq::empty(), args }, q),
                    ),
                    None => None,
                }
            } else if tag_at(ts, p) == 38 {
                match type_args_at(ts, p + 1, Seq::empty(), Seq::empty()) {
                    TypeParse::Parsed(TypeShape::NamedGeneric { args: targs, .. }, q) => if p < q && q
                        < ts.len() && tag_at(ts, q) == 2 {
                        match call_args_at(ts, q + 1, Seq::empty()) {
                            Some((args, r)) => Some(
                                (ExprShape::Call { callee: Box::new(e), type_args: targs, args }, r),
                            ),
                            None => None,
                        }
                    } else {
                        None
                    },
                    _ => None,
                }
            } else if tag_at(ts, p) == 4 {
                match expr_at(ts, p + 1) {
                    Some((i, q)) => if 0 <= q < ts.len() && tag_at(ts, q) == 5 {
                        Some((ExprShape::Subscript(Box::new(e), Box::new(i)), q + 1))
                    } else {
                        None
                    },
                    None => None,
                }
            } else if tag_at(ts, p) == 62 {
                if p + 1 < ts.len() && ts[p + 1].kind is Identifier {
                    Some((ExprShape::Field(Box::new(e), ts[p + 1].kind->Identifier_0@), p + 2))
                } else if p + 1 < ts.len() && (ts[p + 1].kind matches TokenKind::Literal(Literal::Int(n))
                    && n >= 0) {
                    Some(
                        (
                            ExprShape::TupleField(
                                Box::new(e),
                                ts[p + 1].kind->Literal_0->Int_0 as usize,
                            ),
                            p + 2,
                        ),
                    )
                } else {
                    None
                }
            } else {
                None
            }
        }),
{
    reveal(expr_at);
    reveal(binary_at);
    reveal(binary_rest);
    reveal(unary_cast_at);
    reveal(cast_rest);
    reveal(unary_at);
    reveal(postfix_at);
    reveal(postfix_rest);
    reveal(postfix_step);
    reveal(call_args_at);
    reveal(array_elems_at);
    reveal(primary_at);
    reveal(paren_at);
    reveal(if_at);
    reveal(while_at);
    reveal(struct_literal_at);
    reveal(lit_fields_at);
    reveal(function_literal_at);
    reveal(block_at);
    reveal(items_at);
    reveal(item_step_at);
    reveal(stmt_at);
    reveal(declaration_at);
}

/// One step of `call_args_at`.
pub proof fn unfold_call_args_at(ts: Seq<Token>, p: int, acc: Seq<ExprShape>)
    ensures
        call_args_at(ts, p, acc) == ({
            if !(0 <= p < ts.len()) {
                None
            } else if tag_at(ts, p) == 3 {
                Some((acc, p + 1))
            } else if acc.len() > 0 && tag_at(ts, p) != 60 {
                None
            } else {
                let q = if acc.len() > 0 {
                    p + 1
                } else {
                    p
                };
                match expr_at(ts, q) {
                    Some((a, r)) => if p < r <= ts.len() {
                        call_args_at(ts, r, acc.push(a))
                    } else {
                        None
                    },
                    None => None,
                }
            }
        }),
{
    reveal(expr_at);
    reveal(binary_at);
    reveal(binary_rest);
    reveal(unary_cast_at);
    reveal(cast_rest);
    reveal(unary_at);
    reveal(postfix_at);
    reveal(postfix_rest);
    reveal(postfix_step);
    reveal(call_args_at);
    reveal(array_elems_at);
    reveal(primary_at);
    reveal(paren_at);
    reveal(if_at);
    reveal(while_at);
    reveal(struct_literal_at);
    reveal(lit_fields_at);
    reveal(function_literal_at);
    reveal(block_at);
    reveal(items_at);
    reveal(item_step_at);
    reveal(stmt_at);
    reveal(declaration_at);
}

/// One step of `array_elems_at`.
pub proof fn unfold_array_elems_at(ts: Seq<Token>, p: int, acc: Seq<ExprShape>)
    ensures
        array_elems_at(ts, p, acc) == ({
            if !(0 <= p < ts.len()) {
                None
            } else if tag_at(ts, p) == 5 {
                Some((acc, p + 1))
            } else if acc.len() > 0 && tag_at(ts, p) != 60 {
                None
            } else {
                let q = if acc.len() > 0 {
                    p + 1
                } else {
                    p
                };
                match expr_at(ts, q) {
                    Some((a, r)) => if p < r <= ts.len() {
                        array_elems_at(ts, r, acc.push(a))
                    } else {
                        None
                    },
                    None => None,
                }
            }
        }),
{
    reveal(expr_at);
    reveal(binary_at);
    reveal(binary_rest);
    reveal(unary_cast_at);
    reveal(cast_rest);
    reveal(unary_at);
    reveal(postfix_at);
    reveal(postfix_rest);
    reveal(postfix_step);
    reveal(call_args_at);
    reveal(array_elems_at);
    reveal(primary_at);
    reveal(paren_at);
    reveal(if_at);
    reveal(while_at);
    reveal(struct_literal_at);
    reveal(lit_fields_at);
    reveal(function_literal_at);
    reveal(block_at);
    reveal(items_at);
    reveal(item_step_at);
    reveal(stmt_at);
    reveal(declaration_at);
}

/// One step of `primary_at`.
pub proof fn unfold_primary_at(ts: Seq<Token>, p: int)
    ensures
        primary_at(ts, p) == ({
            if !(0 <= p < ts.len()) {
                None
            } else {
                let t = tag_at(ts, p);
                if t == 55 {
                    Some((ExprShape::Int(ts[p].kind->Literal_0->Int_0), p + 1))
                } else if t == 56 {
                    Some((ExprShape::Float(ts[p].kind->Literal_0->Float_0@), p + 1))
                } else if t == 57 {
                    Some((ExprShape::Str(ts[p].kind->Literal_0->Str_0@), p + 1))
                } else if t == 31 {
                    if struct_literal_ahead(ts, p) {
                        struct_literal_at(ts, p)
                    } else {
                        Some((ExprShape::Ident(ts[p].kind->Identifier_0@), p + 1))
                    }
                } else if t == 11 {
                    match struct_def_at(ts, p) {
                        Some((names, fields, q)) => Some(
                            (ExprShape::StructDef { type_params: names, fields }, q),
                        ),
                        None => None,
                    }
                } else if t == 38 {
                    match type_params_list_at(ts, p + 1, Seq::empty()) {
                        Some((names, q)) => if p < q <= ts.len() {
                            function_literal_at(ts, q, names)
                        } else {
                            None
                        },
                        None => None,
                    }
                } else if t == 4 {
                    match array_elems_at(ts, p + 1, Seq::empty()) {
                        Some((es, q)) => Some((ExprShape::Array(es), q)),
                        None => None,
                    }
                } else if t == 2 {
                    paren_at(ts, p)
                } else if t == 0 {
                    match block_at(ts, p) {
                        Some((b, q)) => Some((ExprShape::Block(b), q)),
                        None => None,
                    }
                } else if t == 9 {
                    if_at(ts, p)
                } else if t == 14 {
                    while_at(ts, p)
                } else if 20 <= t <= 30 {
                    match type_at(ts, p) {
                        TypeParse::Parsed(ty, q) => Some((ExprShape::TypeValue(ty), q)),
                        TypeParse::Fail => None,
                    }
                } else {
                    None
                }
            }
        }),
{
    reveal(expr_at);
    reveal(binary_at);
    reveal(binary_rest);
    reveal(unary_cast_at);
    reveal(cast_rest);
    reveal(unary_at);
    reveal(postfix_at);
    reveal(postfix_rest);
    reveal(postfix_step);
    reveal(call_args_at);
    reveal(array_elems_at);
    reveal(primary_at);
    reveal(paren_at);
    reveal(if_at);
    reveal(while_at);
    reveal(struct_literal_at);
    reveal(lit_fields_at);
    reveal(function_literal_at);
    reveal(block_at);
    reveal(items_at);
    reveal(item_step_at);
    reveal(stmt_at);
    reveal(declaration_at);
}

/// One step of `paren_at`.
pub proof fn unfold_paren_at(ts: Seq<Token>, p: int)
    ensures
        paren_at(ts, p) == ({
            if !(0 <= p < ts.len()) {
                None
            } else {
                if (p + 1 < ts.len() && tag_at(ts, p + 1) == 3) || (p + 2 < ts.len() && tag_at(ts, p + 1) == 31
                    && tag_at(ts, p + 2) == 61) {
                    function_literal_at(ts, p, Seq::empty())
                } else {
                    match expr_at(ts, p + 1) {
                        Some((e, q)) => if 0 <= q < ts.len() && tag_at(ts, q) == 3 {
                            Some((e, q + 1))
                        } else {
                            None
                        },
                        None => None,
                    }
                }
            }
        }),
{
    reveal(expr_at);
    reveal(binary_at);
    reveal(binary_rest);
    reveal(unary_cast_at);
    reveal(cast_rest);
    reveal(unary_at);
    reveal(postfix_at);
    reveal(postfix_rest);
    reveal(postfix_step);
    reveal(call_args_at);
    reveal(array_elems_at);
    reveal(primary_at);
    reveal(paren_at);
    reveal(if_at);
    reveal(while_at);
    reveal(struct_literal_at);
    reveal(lit_fields_at);
    reveal(function_literal_at);
    reveal(block_at);
    reveal(items_at);
    reveal(item_step_at);
    reveal(stmt_at);
    reveal(declaration_at);
}

/// One step of `if_at`.
pub proof fn unfold_if_at(ts: Seq<Token>, p: int)
    ensures
        if_at(ts, p) == ({
            if !(0 <= p < ts.len()) {
                None
            } else {
                match expr_at(ts, p + 1) {
                    Some((c, q)) => if p < q <= ts.len() {
                        match block_at(ts, q) {
                            Some((b, r)) => if !(p < r) {
                                None
                            } else if 0 <= r < ts.len() && tag_at(ts, r) == 10 {
                                match expr_at(ts, r + 1) {
                                    Some((x, e)) => Some(
                                        (
                                            ExprShape::If {
                                                cond: Box::new(c),
                                                then_branch: b,
                                                else_branch: Some(Box::new(x)),
                                            },
                                            e,
                                        ),
                                    ),
                                    None => None,
                                }
                            } else {
                                Some((ExprShape::If { cond: Box::new(c), then_branch: b, else_branch: None }, r))
                            },
                            None => None,
                        }
                    } else {
                        None
                    },
                    None => None,
                }
            }
        }),
{
    reveal(expr_at);
    reveal(binary_at);
    reveal(binary_rest);
    reveal(unary_cast_at);
    reveal(cast_rest);
    reveal(unary_at);
    reveal(postfix_at);
    reveal(postfix_rest);
    reveal(postfix_step);
    reveal(call_args_at);
    reveal(array_elems_at);
    reveal(primary_at);
    reveal(paren_at);
    reveal(if_at);
    reveal(while_at);
    reveal(struct_literal_at);
    reveal(lit_fields_at);
    reveal(function_literal_at);
    reveal(block_at);
    reveal(items_at);
    reveal(item_step_at);
    reveal(stmt_at);
    reveal(declaration_at);
}

/// One step of `while_at`.
pub proof fn unfold_while_at(ts: Seq<Token>, p: int)
    ensures
        while_at(ts, p) == ({
            if !(0 <= p < ts.len()) {
                None
            } else {
                match expr_at(ts, p + 1) {
                    Some((c, q)) => if p < q <= ts.len() {
                        match block_at(ts, q) {
                            Some((b, r)) => Some((ExprShape::While { cond: Box::new(c), body: b }, r)),
                            None => None,
                        }
                    } else {
                        None
                    },
                    None => None,
                }
            }
        }),
{
    reveal(expr_at);
    reveal(binary_at);
    reveal(binary_rest);
    reveal(unary_cast_at);
    reveal(cast_rest);
    reveal(unary_at);
    reveal(postfix_at);
    reveal(postfix_rest);
    reveal(postfix_step);
    reveal(call_args_at);
    reveal(array_elems_at);
    reveal(primary_at);
    reveal(paren_at);
    reveal(if_at);
    reveal(while_at);
    reveal(struct_literal_at);
    reveal(lit_fields_at);
    reveal(function_literal_at);
    reveal(block_at);
    reveal(items_at);
    reveal(item_step_at);
    reveal(stmt_at);
    reveal(declaration_at);
}

/// One step of `struct_literal_at`.
pub proof fn unfold_struct_literal_at(ts: Seq<Token>, p: int)
    ensures
        struct_literal_at(ts, p) == ({
            if !(0 <= p < ts.len() && ts[p].kind is Identifier) {
                None
            } else {
                let targs: Option<(Seq<TypeShape>, int)> = if p + 1 < ts.len() && tag_at(ts, p + 1) == 38 {
                    match type_args_at(ts, p + 2, Seq::empty(), Seq::empty()) {
                        TypeParse::Parsed(TypeShape::NamedGeneric { args, .. }, q) => Some((args, q)),
                        _ => None,
                    }
                } else {
                    Some((Seq::empty(), p + 1))
                };
                match targs {
                    Some((ta, q)) => if p < q && q < ts.len() && tag_at(ts, q) == 0 {
                        match lit_fields_at(ts, q + 1, Seq::empty()) {
                            Some((fs, r)) => Some(
                                (
                                    ExprShape::StructLiteral {
                                        name: ts[p].kind->Identifier_0@,
                                        type_args: ta,
                                        fields: fs,
                                    },
                                    r,
                                ),
                            ),
                            None => None,
                        }
                    } else {
                        None
                    },
                    None => None,
                }
            }
        }),
{
    reveal(expr_at);
    reveal(binary_at);
    reveal(binary_rest);
    reveal(unary_cast_at);
    reveal(cast_rest);
    reveal(unary_at);
    reveal(postfix_at);
    reveal(postfix_rest);
    reveal(postfix_step);
    reveal(call_args_at);
    reveal(array_elems_at);
    reveal(primary_at);
    reveal(paren_at);
    reveal(if_at);
    reveal(while_at);
    reveal(struct_literal_at);
    reveal(lit_fields_at);
    reveal(function_literal_at);
    reveal(block_at);
    reveal(items_at);
    reveal(item_step_at);
    reveal(stmt_at);
    reveal(declaration_at);
}

/// One step of `lit_fields_at`.
pub proof fn unfold_lit_fields_at(ts: Seq<Token>, p: int, acc: Seq<(Seq<char>, ExprShape)>)
    ensures
        lit_fields_at(ts, p, acc) == ({
            if !(0 <= p < ts.len()) {
                None
            } else if tag_at(ts, p) == 1 {
                Some((acc, p + 1))
            } else {
                let q = if acc.len() > 0 {
                    p + 1
                } else {
                    p
                };
                if acc.len() > 0 && tag_at(ts, p) != 60 {
                    None
                } else if acc.len() > 0 && q < ts.len() && tag_at(ts, q) == 1 {
                    Some((acc, q + 1))
                } else if q + 1 < ts.len() && ts[q].kind is Identifier && tag_at(ts, q + 1) == 61 {
                    match expr_at(ts, q + 2) {
                        Some((v, r)) => if p < r <= ts.len() {
                            lit_fields_at(ts, r, acc.push((ts[q].kind->Identifier_0@, v)))
                        } else {
                            None
                        },
                        None => None,
                    }
                } else {
                    None
                }
            }
        }),
{
    reveal(expr_at);
    reveal(binary_at);
    reveal(binary_rest);
    reveal(unary_cast_at);
    reveal(cast_rest);
    reveal(unary_at);
    reveal(postfix_at);
    reveal(postfix_rest);
    reveal(postfix_step);
    reveal(call_args_at);
    reveal(array_elems_at);
    reveal(primary_at);
    reveal(paren_at);
    reveal(if_at);
    reveal(while_at);
    reveal(struct_literal_at);
    reveal(lit_fields_at);
    reveal(function_literal_at);
    reveal(block_at);
    reveal(items_at);
    reveal(item_step_at);
    reveal(stmt_at);
    reveal(declaration_at);
}

/// One step of `function_literal_at`.
pub proof fn unfold_function_literal_at(ts: Seq<Token>, p: int, type_params: Seq<Seq<char>>)
    ensures
        function_literal_at(ts, p, type_params) == ({
            if !(0 <= p < ts.len() && tag_at(ts, p) == 2) {
                None
            } else {
                match fn_params_at(ts, p + 1, Seq::empty()) {
                    Some((params, q)) => {
                        let ret: Option<(Option<TypeShape>, int)> = if 0 <= q < ts.len() && tag_at(ts, q)
                            == 33 {
                            if q + 1 < ts.len() && tag_at(ts, q + 1) == 39 {
                                match type_at(ts, q + 2) {
                                    TypeParse::Parsed(t, r) => Some((Some(t), r)),
                                    TypeParse::Fail => None,
                                }
                            } else {
                                None
                            }
                        } else {
                            Some((None, q))
                        };
                        match ret {
                            Some((rt, r)) => if p < r <= ts.len() {
                                match block_at(ts, r) {
                                    Some((b, s)) => Some(
                                        (ExprShape::Function { type_params, params, ret: rt, body: b }, s),
                                    ),
                                    None => None,
                                }
                            } else {
                                None
                            },
                            None => None,
                        }
                    },
                    None => None,
                }
            }
        }),
{
    reveal(expr_at);
    reveal(binary_at);
    reveal(binary_rest);
    reveal(unary_cast_at);
    reveal(cast_rest);
    reveal(unary_at);
    reveal(postfix_at);
    reveal(postfix_rest);
    reveal(postfix_step);
    reveal(call_args_at);
    reveal(array_elems_at);
    reveal(primary_at);
    reveal(paren_at);
    reveal(if_at);
    reveal(while_at);
    reveal(struct_literal_at);
    reveal(lit_fields_at);
    reveal(function_literal_at);
    reveal(block_at);
    reveal(items_at);
    reveal(item_step_at);
    reveal(stmt_at);
    reveal(declaration_at);
}

/// One step of `block_at`.
pub proof fn unfold_block_at(ts: Seq<Token>, p: int)
    ensures
        block_at(ts, p) == ({
            if 0 <= p < ts.len() && tag_at(ts, p) == 0 {
                items_at(ts, p + 1, Seq::empty())
            } else {
                None
            }
        }),
{
    reveal(expr_at);
    reveal(binary_at);
    reveal(binary_rest);
    reveal(unary_cast_at);
    reveal(cast_rest);
    reveal(unary_at);
    reveal(postfix_at);
    reveal(postfix_rest);
    reveal(postfix_step);
    reveal(call_args_at);
    reveal(array_elems_at);
    reveal(primary_at);
    reveal(paren_at);
    reveal(if_at);
    reveal(while_at);
    reveal(struct_literal_at);
    reveal(lit_fields_at);
    reveal(function_literal_at);
    reveal(block_at);
    reveal(items_at);
    reveal(item_step_at);
    reveal(stmt_at);
    reveal(declaration_at);
}

/// One step of `items_at`.
pub proof fn unfold_items_at(ts: Seq<Token>, p: int, acc: Seq<ItemShape>)
    ensures
        items_at(ts, p, acc) == ({
            match item_step_at(ts, p) {
                Some((ItemStep::Close, q)) => Some((BlockShape { items: acc, tail: None }, q + 1)),
                Some((ItemStep::Tail(x), q)) => Some((BlockShape { items: acc, tail: Some(Box::new(x)) }, q + 1)),
                Some((ItemStep::Item(it), q)) => if p < q <= ts.len() {
                    items_at(ts, q, acc.push(it))
                } else {
                    None
                },
                None => None,
            }
        }),
{
    reveal(expr_at);
    reveal(binary_at);
    reveal(binary_rest);
    reveal(unary_cast_at);
    reveal(cast_rest);
    reveal(unary_at);
    reveal(postfix_at);
    reveal(postfix_rest);
    reveal(postfix_step);
    reveal(call_args_at);
    reveal(array_elems_at);
    reveal(primary_at);
    reveal(paren_at);
    reveal(if_at);
    reveal(while_at);
    reveal(struct_literal_at);
    reveal(lit_fields_at);
    reveal(function_literal_at);
    reveal(block_at);
    reveal(items_at);
    reveal(item_step_at);
    reveal(stmt_at);
    reveal(declaration_at);
}

/// One step of `item_step_at`.
pub proof fn unfold_item_step_at(ts: Seq<Token>, p: int)
    ensures
        item_step_at(ts, p) == ({
            if !(0 <= p < ts.len()) {
                None
            } else if tag_at(ts, p) == 1 {
                Some((ItemStep::Close, p))
            } else if tag_at(ts, p) == 6 || tag_at(ts, p) == 54 {
                match declaration_at(ts, p) {
                    Some((d, q)) => Some((ItemStep::Item(ItemShape::Decl(d)), q)),
                    None => None,
                }
            } else if tag_at(ts, p) == 7 || tag_at(ts, p) == 15 || tag_at(ts, p) == 16 {
                match stmt_at(ts, p) {
                    Some((it, q)) => Some((ItemStep::Item(it), q)),
                    None => None,
                }
            } else {
                match expr_at(ts, p) {
                    Some((x, q)) => if !(p < q < ts.len()) {
                        None
                    } else if tag_at(ts, q) == 59 {
                        Some((ItemStep::Item(ItemShape::Expr(x)), q + 1))
                    } else if tag_at(ts, q) == 1 {
                        Some((ItemStep::Tail(x), q))
                    } else if block_like_shape(x) {
                        Some((ItemStep::Item(ItemShape::Expr(x)), q))
                    } else {
                        None
                    },
                    None => None,
                }
            }
        }),
{
    reveal(expr_at);
    reveal(binary_at);
    reveal(binary_rest);
    reveal(unary_cast_at);
    reveal(cast_rest);
    reveal(unary_at);
    reveal(postfix_at);
    reveal(postfix_rest);
    reveal(postfix_step);
    reveal(call_args_at);
    reveal(array_elems_at);
    reveal(primary_at);
    reveal(paren_at);
    reveal(if_at);
    reveal(while_at);
    reveal(struct_literal_at);
    reveal(lit_fields_at);
    reveal(function_literal_at);
    reveal(block_at);
    reveal(items_at);
    reveal(item_step_at);
    reveal(stmt_at);
    reveal(declaration_at);
}

/// One step of `stmt_at`.
pub proof fn unfold_stmt_at(ts: Seq<Token>, p: int)
    ensures
        stmt_at(ts, p) == ({
            if !(0 <= p < ts.len()) {
                None
            } else if tag_at(ts, p) == 7 {
                if p + 1 < ts.len() && tag_at(ts, p + 1) == 59 {
                    Some((ItemShape::Return(None), p + 2))
                } else {
                    match expr_at(ts, p + 1) {
                        Some((x, q)) => if 0 <= q < ts.len() && tag_at(ts, q) == 59 {
                            Some((ItemShape::Return(Some(x)), q + 1))
                        } else {
                            None
                        },
                        None => None,
                    }
                }
            } else if tag_at(ts, p) == 15 {
                if p + 1 < ts.len() && tag_at(ts, p + 1) == 59 {
                    Some((ItemShape::Break, p + 2))
                } else {
                    None
                }
            } else if tag_at(ts, p) == 16 {
                match expr_at(ts, p + 1) {
                    Some((x, q)) => if 0 <= q < ts.len() && tag_at(ts, q) == 59 {
                        Some((ItemShape::Defer(x), q + 1))
                    } else {
                        None
                    },
                    None => None,
                }
            } else {
                None
            }
        }),
{
    reveal(expr_at);
    reveal(binary_at);
    reveal(binary_rest);
    reveal(unary_cast_at);
    reveal(cast_rest);
    reveal(unary_at);
    reveal(postfix_at);
    reveal(postfix_rest);
    reveal(postfix_step);
    reveal(call_args_at);
    reveal(array_elems_at);
    reveal(primary_at);
    reveal(paren_at);
    reveal(if_at);
    reveal(while_at);
    reveal(struct_literal_at);
    reveal(lit_fields_at);
    reveal(function_literal_at);
    reveal(block_at);
    reveal(items_at);
    reveal(item_step_at);
    reveal(stmt_at);
    reveal(declaration_at);
}

/// One step of `declaration_at`.
pub proof fn unfold_declaration_at(ts: Seq<Token>, p: int)
    ensures
        declaration_at(ts, p) == ({
            match decl_head_at(ts, p) {
                Some((comptime, mutable, name, p3)) => {
                    let ty_end: Option<(Option<TypeShape>, int)> = if p3 < ts.len() && tag_at(ts, p3) == 61 {
                        match type_at(ts, p3 + 1) {
                            TypeParse::Parsed(t, q) => Some((Some(t), q)),
                            TypeParse::Fail => None,
                        }
                    } else {
                        Some((None, p3))
                    };
                    match ty_end {
                        Some((ty, p4)) => if p < p4 && p4 < ts.len() && tag_at(ts, p4) == 32 {
                            match expr_at(ts, p4 + 1) {
                                Some((v, q)) => if 0 <= q < ts.len() && tag_at(ts, q) == 59 {
                                    Some((DeclShape { mutable, comptime, name, ty, value: v }, q + 1))
                                } else {
                                    None
                                },
                                None => None,
                            }
                        } else {
                            None
                        },
                        None => None,
                    }
                },
                None => None,
            }
        }),
{
    reveal(expr_at);
    reveal(binary_at);
    reveal(binary_rest);
    reveal(unary_cast_at);
    reveal(cast_rest);
    reveal(unary_at);
    reveal(postfix_at);
    reveal(postfix_rest);
    reveal(postfix_step);
    reveal(call_args_at);
    reveal(array_elems_at);
    reveal(primary_at);
    reveal(paren_at);
    reveal(if_at);
    reveal(while_at);
    reveal(struct_literal_at);
    reveal(lit_fields_at);
    reveal(function_literal_at);
    reveal(block_at);
    reveal(items_at);
    reveal(item_step_at);
    reveal(stmt_at);
    reveal(declaration_at);
}

/// One step of `expr_shape`.
pub proof fn unfold_expr_shape(e: Expr)
    ensures
        expr_shape(e) == ({
            match e.kind {
                ExprKind::Const(Const::Int(n)) => ExprShape::Int(n),
                ExprKind::Const(Const::Float(t)) => ExprShape::Float(t@),
                ExprKind::Const(Const::Str(t)) => ExprShape::Str(t@),
                ExprKind::Identifier(n) => ExprShape::Ident(n@),
                ExprKind::TypeValue(t) => ExprShape::TypeValue(shape(t)),
                ExprKind::Function { type_params, params, return_ty, body } => ExprShape::Function {
                    type_params: names_view(type_params@),
                    params: param_views(params@),
                    ret: opt_shape(return_ty),
                    body: block_shape(body),
                },
                ExprKind::Closure { .. } => ExprShape::Other,
                ExprKind::Array(es) => ExprShape::Array(exprs_shape(es@)),
                ExprKind::Cast { expr, target } => ExprShape::Cast(Box::new(expr_shape(*expr)), shape(target)),
                ExprKind::Call { callee, type_args, args } => ExprShape::Call {
                    callee: Box::new(expr_shape(*callee)),
                    type_args: shapes(type_args@),
                    args: exprs_shape(args@),
                },
                ExprKind::Unary { op, expr } => ExprShape::Unary(op, Box::new(expr_shape(*expr))),
                ExprKind::Binary { op, lhs, rhs } => ExprShape::Binary(
                    op,
                    Box::new(expr_shape(*lhs)),
                    Box::new(expr_shape(*rhs)),
                ),
                ExprKind::Assign { target, value } => ExprShape::Assign(
                    Box::new(expr_shape(*target)),
                    Box::new(expr_shape(*value)),
                ),
                ExprKind::Block(b) => ExprShape::Block(block_shape(b)),
                ExprKind::If { condition, then_branch, else_branch } => ExprShape::If {
                    cond: Box::new(expr_shape(*condition)),
                    then_branch: block_shape(then_branch),
                    else_branch: match else_branch {
                        Some(x) => Some(Box::new(expr_shape(*x))),
                        None => None,
                    },
                },
                ExprKind::While { condition, body } => ExprShape::While {
                    cond: Box::new(expr_shape(*condition)),
                    body: block_shape(body),
                },
                ExprKind::Subscript { expr, index } => ExprShape::Subscript(
                    Box::new(expr_shape(*expr)),
                    Box::new(expr_shape(*index)),
                ),
                ExprKind::Ref(x) => ExprShape::Ref(Box::new(expr_shape(*x))),
                ExprKind::Deref(x) => ExprShape::Deref(Box::new(expr_shape(*x))),
                ExprKind::StructDef { type_params, fields } => ExprShape::StructDef {
                    type_params: names_view(type_params@),
                    fields: field_views(fields@),
                },
                ExprKind::EnumDef { .. } => ExprShape::Other,
                ExprKind::Match { .. } => ExprShape::Other,
                ExprKind::StructLiteral { name, type_args, fields } => ExprShape::StructLiteral {
                    name: name@,
                    type_args: shapes(type_args@),
                    fields: lit_fields_shape(fields@),
                },
                ExprKind::Field { target, name } => ExprShape::Field(Box::new(expr_shape(*target)), name@),
                ExprKind::Tuple(_) => ExprShape::Other,
                ExprKind::TupleField { target, index } => ExprShape::TupleField(
                    Box::new(expr_shape(*target)),
                    index,
                ),
            }
        }),
{
    reveal(expr_shape);
    reveal(exprs_shape);
    reveal(lit_fields_shape);
    reveal(block_shape);
    reveal(items_shape);
    reveal(item_shape);
    reveal(decl_shape);
}

/// One step of `exprs_shape`.
pub proof fn unfold_exprs_shape(s: Seq<Expr>)
    ensures
        exprs_shape(s) == ({
            if s.len() == 0 {
                Seq::empty()
            } else {
                exprs_shape(s.subrange(0, s.len() - 1)).push(expr_shape(s[s.len() - 1]))
            }
        }),
{
    reveal(expr_shape);
    reveal(exprs_shape);
    reveal(lit_fields_shape);
    reveal(block_shape);
    reveal(items_shape);
    reveal(item_shape);
    reveal(decl_shape);
}

/// One step of `lit_fields_shape`.
pub proof fn unfold_lit_fields_shape(s: Seq<StructLiteralField>)
    ensures
        lit_fields_shape(s) == ({
            if s.len() == 0 {
                Seq::empty()
            } else {
                lit_fields_shape(s.subrange(0, s.len() - 1)).push(
                    (s[s.len() - 1].name@, expr_shape(s[s.len() - 1].value)),
                )
            }
        }),
{
    reveal(expr_shape);
    reveal(exprs_shape);
    reveal(lit_fields_shape);
    reveal(block_shape);
    reveal(items_shape);
    reveal(item_shape);
    reveal(decl_shape);
}

/// One step of `block_shape`.
pub proof fn unfold_block_shape(b: Block)
    ensures
        block_shape(b) == ({
            BlockShape {
                items: items_shape(b.items@),
                tail: match b.tail {
                    Some(x) => Some(Box::new(expr_shape(*x))),
                    None => None,
                },
            }
        }),
{
    reveal(expr_shape);
    reveal(exprs_shape);
    reveal(lit_fields_shape);
    reveal(block_shape);
    reveal(items_shape);
    reveal(item_shape);
    reveal(decl_shape);
}

/// One step of `items_shape`.
pub proof fn unfold_items_shape(s: Seq<BlockItem>)
    ensures
        items_shape(s) == ({
            if s.len() == 0 {
                Seq::empty()
            } else {
                items_shape(s.subrange(0, s.len() - 1)).push(item_shape(s[s.len() - 1]))
            }
        }),
{
    reveal(expr_shape);
    reveal(exprs_shape);
    reveal(lit_fields_shape);
    reveal(block_shape);
    reveal(items_shape);
    reveal(item_shape);
    reveal(decl_shape);
}

/// One step of `item_shape`.
pub proof fn unfold_item_shape(i: BlockItem)
    ensures
        item_shape(i) == ({
            match i {
                BlockItem::Declaration(d) => ItemShape::Decl(decl_shape(d)),
                BlockItem::Statement(st) => match st.kind {
                    StatementKind::Return(o) => ItemShape::Return(
                        match o {
                            Some(x) => Some(expr_shape(x)),
                            None => None,
                        },
                    ),
                    StatementKind::Expr(x) => ItemShape::Expr(expr_shape(x)),
                    StatementKind::Break => ItemShape::Break,
                    StatementKind::Defer(x) => ItemShape::Defer(expr_shape(x)),
                },
            }
        }),
{
    reveal(expr_shape);
    reveal(exprs_shape);
    reveal(lit_fields_shape);
    reveal(block_shape);
    reveal(items_shape);
    reveal(item_shape);
    reveal(decl_shape);
}

/// One step of `decl_shape`.
pub proof fn unfold_decl_shape(d: Declaration)
    ensures
        decl_shape(d) == ({
            DeclShape {
                mutable: d.mutable,
                comptime: d.comptime,
                name: d.name@,
                ty: opt_shape(d.ty),
                value: expr_shape(d.value),
            }
        }),
{
    reveal(expr_shape);
    reveal(exprs_shape);
    reveal(lit_fields_shape);
    reveal(block_shape);
    reveal(items_shape);
    reveal(item_shape);
    reveal(decl_shape);
}

/// An expression followed by `=` and a right-hand side that parses is an
/// assignment exactly when its left side is a place (a name, subscript,
/// dereference, field or tuple field); otherwise the expression does not
/// parse.
pub proof fn law_assignment_needs_a_place(ts: Seq<Token>, p: int, l: ExprShape, q: int)
    requires
        binary_at(ts, p, 0) == Some((l, q)),
        0 <= q < ts.len(),
        tag_at(ts, q) == 32,
        p < q,
        expr_at(ts, q + 1) is Some,
    ensures
        expr_at(ts, p) is None <==> !place_shape(l),
        place_shape(l) ==> match expr_at(ts, q + 1) {
            Some((v, r)) => expr_at(ts, p) == Some((ExprShape::Assign(Box::new(l), Box::new(v)), r)),
            None => true,
        },
{
    unfold_expr_at(ts, p);
}

/// How tightly an operator binds, from the documented precedence ladder:
/// multiplicative, additive, shifts, comparisons, equality, `&`, `^`, `|`,
/// `&&`, `||`.
pub open spec fn binding_rank(op: BinaryOperator) -> int {
    match op {
        BinaryOperator::Mul | BinaryOperator::Div | BinaryOperator::Mod => 9,
        BinaryOperator::Add | BinaryOperator::Sub => 8,
        BinaryOperator::Shl | BinaryOperator::Shr => 7,
        BinaryOperator::Lt | BinaryOperator::Le | BinaryOperator::Gt | BinaryOperator::Ge => 6,
        BinaryOperator::Eq | BinaryOperator::Ne => 5,
        BinaryOperator::BitAnd => 4,
        BinaryOperator::BitXor => 3,
        BinaryOperator::BitOr => 2,
        BinaryOperator::And => 1,
        BinaryOperator::Or => 0,
    }
}

/// The precedences the parser gives binary operators follow the ladder:
/// an operator that binds more tightly has a strictly higher precedence,
/// and operators of one rung share theirs. In particular every comparison
/// (`< <= > >=`) sits strictly below `+ - * / %`, so `x + y < z` parses with
/// `<` at the root.
pub proof fn law_precedence_ladder(t1: int, t2: int)
    requires
        binop_spec(t1) is Some,
        binop_spec(t2) is Some,
    ensures
        ({
            let (p1, o1) = binop_spec(t1)->0;
            let (p2, o2) = binop_spec(t2)->0;
            &&& binding_rank(o1) < binding_rank(o2) ==> p1 < p2
            &&& binding_rank(o1) == binding_rank(o2) ==> p1 == p2
        }),
{
}

/// Each comparison has a strictly lower precedence than each arithmetic
/// operator.
pub proof fn law_comparisons_below_arithmetic(t1: int, t2: int)
    requires
        binop_spec(t1) matches Some((_, o1)) && (o1 == BinaryOperator::Lt || o1 == BinaryOperator::Le || o1
            == BinaryOperator::Gt || o1 == BinaryOperator::Ge),
        binop_spec(t2) matches Some((_, o2)) && (o2 == BinaryOperator::Add || o2 == BinaryOperator::Sub || o2
            == BinaryOperator::Mul || o2 == BinaryOperator::Div || o2 == BinaryOperator::Mod),
    ensures
        ({
            let (p1, _) = binop_spec(t1)->0;
            let (p2, _) = binop_spec(t2)->0;
            p1 < p2
        }),
{
    law_precedence_ladder(t1, t2);
}

} // verus!
