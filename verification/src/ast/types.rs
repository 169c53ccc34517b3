use crate::lexer::types::Span;
use vstd::prelude::*;

verus! {

/// The identity of an AST node. Ids handed out by one `NodeIdGen` are
/// distinct.
#[derive(Clone, Copy, Debug, PartialEq, Eq, Hash, Structural)]
pub struct NodeId(u32);

impl NodeId {
    pub closed spec fn spec_value(self) -> u32 {
        self.0
    }

    pub fn value(&self) -> (r: u32)
        ensures
            r == self.spec_value(),
    {
        self.0
    }
}

/// Hands out node ids in increasing order.
pub struct NodeIdGen {
    next: u32,
}

impl NodeIdGen {
    pub closed spec fn spec_next(&self) -> u32 {
        self.next
    }

    pub fn new() -> (r: Self)
        ensures
            r.spec_next() == 0,
    {
        NodeIdGen { next: 0 }
    }

    /// Starts numbering at `next` instead of 0, so ids stay unique across the
    /// several files merged by the module loader.
    pub fn with_next(next: u32) -> (r: Self)
        ensures
            r.spec_next() == next,
    {
        NodeIdGen { next }
    }

    /// The next id that would be handed out, used to chain numbering
    /// between files.
    pub fn next_value(&self) -> (r: u32)
        ensures
            r == self.spec_next(),
    {
        self.next
    }

    pub fn fresh(&mut self) -> (id: NodeId)
        requires
            old(self).spec_next() < u32::MAX,
        ensures
            id.spec_value() == old(self).spec_next(),
            final(self).spec_next() == old(self).spec_next() + 1,
    {
        let id = NodeId(self.next);
        self.next = self.next + 1;
        id
    }
}

#[derive(Debug)]
pub struct Program {
    pub span: Span,
    pub declarations: Vec<Declaration>,
    pub imports: Vec<ImportDecl>,
}

/// `import "path";` — pulls another file's top-level declarations into the
/// program (resolved by the module loader before lowering).
#[derive(Debug)]
pub struct ImportDecl {
    pub span: Span,
    pub path: String,
}

#[derive(Debug)]
pub struct Declaration {
    pub id: NodeId,
    pub span: Span,
    pub mutable: bool,
    pub comptime: bool,
    pub name: String,
    /// Optional `: T` annotation.
    pub ty: Option<TypeExpr>,
    pub value: Expr,
}

#[derive(Debug)]
pub struct TypeExpr {
    pub id: NodeId,
    pub span: Span,
    pub kind: TypeExprKind,
}

#[derive(Debug)]
pub enum TypeExprKind {
    Int,
    UInt,
    Float,
    I8,
    I32,
    I64,
    U8,
    U32,
    U64,
    F32,
    F64,
    Array { element_ty: Box<TypeExpr>, count: usize },
    Function { params: Vec<TypeExpr>, return_ty: Box<TypeExpr> },
    Ptr(Box<TypeExpr>),
    Named(String),
    NamedGeneric { name: String, args: Vec<TypeExpr> },
    /// An anonymous tuple type `(T1, T2, ...)` with at least two elements.
    Tuple(Vec<TypeExpr>),
}

#[derive(Debug)]
pub struct Block {
    pub id: NodeId,
    pub span: Span,
    pub items: Vec<BlockItem>,
    pub tail: Option<Box<Expr>>,
}

#[derive(Debug)]
pub enum BlockItem {
    Declaration(Declaration),
    Statement(Statement),
}

#[derive(Debug)]
pub struct Statement {
    pub id: NodeId,
    pub span: Span,
    pub kind: StatementKind,
}

#[derive(Debug)]
pub enum StatementKind {
    Return(Option<Expr>),
    Expr(Expr),
    Break,
    /// `defer <expr>;` — runs `expr` when the enclosing block exits.
    Defer(Expr),
}

#[derive(Debug)]
pub struct Expr {
    pub id: NodeId,
    pub span: Span,
    pub kind: ExprKind,
}

#[derive(Debug)]
pub enum ExprKind {
    Const(Const),
    Identifier(String),
    /// A type used in expression position (only meaningful inside a
    /// `#comptime` function), e.g. the `Int` in `T == Int`.
    TypeValue(TypeExpr),
    Function {
        type_params: Vec<String>,
        params: Vec<Param>,
        return_ty: Option<TypeExpr>,
        body: Block,
    },
    /// `{x : expr}` — anonymous function literal.
    Closure { params: Vec<String>, body: Box<Expr> },
    Array(Vec<Expr>),
    Cast { expr: Box<Expr>, target: TypeExpr },
    Call { callee: Box<Expr>, type_args: Vec<TypeExpr>, args: Vec<Expr> },
    Unary { op: UnaryOperator, expr: Box<Expr> },
    Binary { op: BinaryOperator, lhs: Box<Expr>, rhs: Box<Expr> },
    Assign { target: Box<Expr>, value: Box<Expr> },
    Block(Block),
    If { condition: Box<Expr>, then_branch: Block, else_branch: Option<Box<Expr>> },
    While { condition: Box<Expr>, body: Block },
    Subscript { expr: Box<Expr>, index: Box<Expr> },
    Ref(Box<Expr>),
    Deref(Box<Expr>),
    StructDef { type_params: Vec<String>, fields: Vec<StructTypeField> },
    /// `enum<$T> { Variant, Variant(T1, T2), ... }`.
    EnumDef { type_params: Vec<String>, variants: Vec<EnumVariantDef> },
    /// `match scrutinee { Pat -> arm_expr, ... }`.
    Match { scrutinee: Box<Expr>, arms: Vec<MatchArm> },
    StructLiteral { name: String, type_args: Vec<TypeExpr>, fields: Vec<StructLiteralField> },
    Field { target: Box<Expr>, name: String },
    /// A tuple value `(a, b, ...)` with at least two elements.
    Tuple(Vec<Expr>),
    /// Tuple field access by index: `t.0`, `t.1`, …
    TupleField { target: Box<Expr>, index: usize },
}

#[derive(Debug)]
pub struct StructTypeField {
    pub id: NodeId,
    pub span: Span,
    pub name: String,
    pub ty: TypeExpr,
}

#[derive(Debug)]
pub struct EnumVariantDef {
    pub id: NodeId,
    pub span: Span,
    pub name: String,
    /// Positional payload types; empty for nullary variants like `None`.
    pub fields: Vec<TypeExpr>,
}

#[derive(Debug)]
pub struct MatchArm {
    pub id: NodeId,
    pub span: Span,
    pub pattern: Pattern,
    pub body: Expr,
}

#[derive(Debug)]
pub struct Pattern {
    pub id: NodeId,
    pub span: Span,
    pub kind: PatternKind,
}

#[derive(Debug)]
pub enum PatternKind {
    /// `_` — matches anything, binds nothing.
    Wildcard,
    /// `Some(x, y)`.
    Variant { name: String, bindings: Vec<String> },
    /// A bare identifier in pattern position.
    Binding(String),
}

#[derive(Debug)]
pub struct StructLiteralField {
    pub id: NodeId,
    pub span: Span,
    pub name: String,
    pub value: Expr,
}

#[derive(Debug, Clone, Copy, PartialEq, Eq, Structural)]
pub enum BinaryOperator {
    Add,
    Sub,
    Mul,
    Div,
    Mod,
    Shl,
    Shr,
    Lt,
    Le,
    Gt,
    Ge,
    Eq,
    Ne,
    BitAnd,
    BitXor,
    BitOr,
    And,
    Or,
}

#[derive(Debug)]
pub struct Param {
    pub id: NodeId,
    pub span: Span,
    pub name: String,
    pub ty: TypeExpr,
}

/// A constant. A float keeps its decimal source text.
#[derive(Debug)]
pub enum Const {
    Int(i32),
    Float(String),
    Str(String),
}

#[derive(Debug, Clone, Copy, PartialEq, Eq, Structural)]
pub enum UnaryOperator {
    Not,
    Minus,
}

} // verus!
