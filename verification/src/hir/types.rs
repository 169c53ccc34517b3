//! The typed intermediate representation that lowering produces and the
//! type checker and code generator consume.

pub use crate::ast::types::{BinaryOperator, UnaryOperator};
use crate::lexer::display::{append_str, decimal, push_decimal};
use crate::lexer::types::Span;
use vstd::prelude::*;

verus! {

/// A resolved local binding (declaration or parameter).
#[derive(Clone, Copy, Debug, PartialEq, Eq, Hash, Structural)]
pub struct LocalId(pub u32);

/// Hands out local ids in increasing order.
pub struct LocalIdGen {
    next: u32,
}

impl LocalIdGen {
    pub closed spec fn spec_next(&self) -> u32 {
        self.next
    }

    pub fn new() -> (r: Self)
        ensures
            r.spec_next() == 0,
    {
        LocalIdGen { next: 0 }
    }

    /// How many ids can still be handed out.
    pub fn remaining(&self) -> (r: u32)
        ensures
            r == u32::MAX - self.spec_next(),
    {
        u32::MAX - self.next
    }

    /// Whether another id can be handed out.
    pub fn has_room(&self) -> (r: bool)
        ensures
            r == (self.spec_next() < u32::MAX),
    {
        self.next < u32::MAX
    }

    pub fn fresh(&mut self) -> (id: LocalId)
        requires
            old(self).spec_next() < u32::MAX,
        ensures
            id.0 == old(self).spec_next(),
            final(self).spec_next() == old(self).spec_next() + 1,
    {
        let id = LocalId(self.next);
        self.next = self.next + 1;
        id
    }
}

/// A generic parameter as written in a signature (`$T`).
#[derive(Clone, Debug)]
pub struct TypeVar {
    pub name: String,
}

/// The identity of a generic parameter.
#[derive(Clone, Copy, Debug, PartialEq, Eq, Hash, Structural)]
pub struct TypeVarId(pub u32);

/// A resolved type.
#[derive(Debug, PartialEq, Eq)]
pub enum Ty {
    Unit,
    Int,
    UInt,
    Float,
    I8,
    I32,
    I64,
    U8,
    U32,
    U64,
    F32,
    F64,
    Function { params: Vec<Ty>, return_ty: Box<Ty>, varargs: bool },
    /// A closure value: an environment pointer plus code.
    Closure { params: Vec<Ty>, return_ty: Box<Ty> },
    Array { element: Box<Ty>, count: usize },
    Ptr(Box<Ty>),
    Struct(String),
    Enum(String),
    Tuple(Vec<Ty>),
    TypeVar(TypeVarId),
    GenericStruct { name: String, args: Vec<Ty> },
    GenericEnum { name: String, args: Vec<Ty> },
}

/// The mathematical value of a [`Ty`]: names become character sequences and
/// nested lists become sequences, so two types are the same exactly when their
/// views are equal.
pub enum TyV {
    Unit,
    Int,
    UInt,
    Float,
    I8,
    I32,
    I64,
    U8,
    U32,
    U64,
    F32,
    F64,
    Function { params: Seq<TyV>, return_ty: Box<TyV>, varargs: bool },
    Closure { params: Seq<TyV>, return_ty: Box<TyV> },
    Array { element: Box<TyV>, count: usize },
    Ptr(Box<TyV>),
    Struct(Seq<char>),
    Enum(Seq<char>),
    Tuple(Seq<TyV>),
    TypeVar(u32),
    GenericStruct { name: Seq<char>, args: Seq<TyV> },
    GenericEnum { name: Seq<char>, args: Seq<TyV> },
}

/// The views of a list of types, element by element.
pub open spec fn tys_view(s: Seq<Ty>) -> Seq<TyV>
    decreases s,
{
    if s.len() == 0 {
        Seq::empty()
    } else {
        tys_view(s.subrange(0, s.len() - 1)).push(ty_view(s[s.len() - 1]))
    }
}

pub open spec fn ty_view(t: Ty) -> TyV
    decreases t,
{
    match t {
        Ty::Unit => TyV::Unit,
        Ty::Int => TyV::Int,
        Ty::UInt => TyV::UInt,
        Ty::Float => TyV::Float,
        Ty::I8 => TyV::I8,
        Ty::I32 => TyV::I32,
        Ty::I64 => TyV::I64,
        Ty::U8 => TyV::U8,
        Ty::U32 => TyV::U32,
        Ty::U64 => TyV::U64,
        Ty::F32 => TyV::F32,
        Ty::F64 => TyV::F64,
        Ty::Function { params, return_ty, varargs } => TyV::Function {
            params: tys_view(params@),
            return_ty: Box::new(ty_view(*return_ty)),
            varargs,
        },
        Ty::Closure { params, return_ty } => TyV::Closure {
            params: tys_view(params@),
            return_ty: Box::new(ty_view(*return_ty)),
        },
        Ty::Array { element, count } => TyV::Array { element: Box::new(ty_view(*element)), count },
        Ty::Ptr(inner) => TyV::Ptr(Box::new(ty_view(*inner))),
        Ty::Struct(name) => TyV::Struct(name@),
        Ty::Enum(name) => TyV::Enum(name@),
        Ty::Tuple(elems) => TyV::Tuple(tys_view(elems@)),
        Ty::TypeVar(id) => TyV::TypeVar(id.0),
        Ty::GenericStruct { name, args } => TyV::GenericStruct { name: name@, args: tys_view(args@) },
        Ty::GenericEnum { name, args } => TyV::GenericEnum { name: name@, args: tys_view(args@) },
    }
}

impl View for Ty {
    type V = TyV;

    open spec fn view(&self) -> TyV {
        ty_view(*self)
    }
}

pub proof fn lemma_tys_view(s: Seq<Ty>)
    ensures
        tys_view(s).len() == s.len(),
        forall|i: int| 0 <= i < s.len() ==> #[trigger] tys_view(s)[i] == ty_view(s[i]),
    decreases s.len(),
{
    if s.len() > 0 {
        lemma_tys_view(s.subrange(0, s.len() - 1));
    }
}

pub broadcast proof fn lemma_tys_view_len(s: Seq<Ty>)
    ensures
        #[trigger] tys_view(s).len() == s.len(),
{
    lemma_tys_view(s);
}

pub open spec fn is_int_v(t: TyV) -> bool {
    t is Int || t is I8 || t is I32 || t is I64
}

pub open spec fn is_uint_v(t: TyV) -> bool {
    t is UInt || t is U8 || t is U32 || t is U64
}

pub open spec fn is_float_v(t: TyV) -> bool {
    t is Float || t is F32 || t is F64
}

pub open spec fn is_integer_v(t: TyV) -> bool {
    is_int_v(t) || is_uint_v(t)
}

pub open spec fn is_number_v(t: TyV) -> bool {
    is_integer_v(t) || is_float_v(t)
}

pub open spec fn bit_width_v(t: TyV) -> Option<u32> {
    if t is I8 || t is U8 {
        Some(8)
    } else if t is Int || t is UInt || t is I32 || t is U32 || t is Float || t is F32 {
        Some(32)
    } else if t is I64 || t is U64 || t is F64 {
        Some(64)
    } else {
        None
    }
}

impl Ty {
    pub fn is_pointer(&self) -> (r: bool)
        ensures
            r == (self@ is Ptr),
    {
        match self {
            Ty::Ptr(_) => true,
            _ => false,
        }
    }

    pub fn is_int(&self) -> (r: bool)
        ensures
            r == is_int_v(self@),
    {
        match self {
            Ty::Int | Ty::I8 | Ty::I32 | Ty::I64 => true,
            _ => false,
        }
    }

    pub fn is_uint(&self) -> (r: bool)
        ensures
            r == is_uint_v(self@),
    {
        match self {
            Ty::UInt | Ty::U8 | Ty::U32 | Ty::U64 => true,
            _ => false,
        }
    }

    pub fn is_float(&self) -> (r: bool)
        ensures
            r == is_float_v(self@),
    {
        match self {
            Ty::Float | Ty::F32 | Ty::F64 => true,
            _ => false,
        }
    }

    pub fn is_integer(&self) -> (r: bool)
        ensures
            r == is_integer_v(self@),
    {
        self.is_int() || self.is_uint()
    }

    pub fn is_number(&self) -> (r: bool)
        ensures
            r == is_number_v(self@),
    {
        self.is_integer() || self.is_float()
    }

    pub fn is_generic(&self) -> (r: bool)
        ensures
            r == (self@ is TypeVar),
    {
        match self {
            Ty::TypeVar(_) => true,
            _ => false,
        }
    }

    /// The width in bits of a scalar number type.
    pub fn bit_width(&self) -> (r: Option<u32>)
        ensures
            r == bit_width_v(self@),
    {
        match self {
            Ty::I8 | Ty::U8 => Some(8),
            Ty::Int | Ty::UInt | Ty::I32 | Ty::U32 | Ty::Float | Ty::F32 => Some(32),
            Ty::I64 | Ty::U64 | Ty::F64 => Some(64),
            _ => None,
        }
    }
}

/// How a type is written in messages and in mangled names.
pub open spec fn ty_text(t: TyV) -> Seq<char>
    decreases t,
{
    match t {
        TyV::Unit => "Unit"@,
        TyV::Int => "Int"@,
        TyV::UInt => "UInt"@,
        TyV::Float => "Float"@,
        TyV::I8 => "i8"@,
        TyV::I32 => "i32"@,
        TyV::I64 => "i64"@,
        TyV::U8 => "u8"@,
        TyV::U32 => "u32"@,
        TyV::U64 => "u64"@,
        TyV::F32 => "f32"@,
        TyV::F64 => "f64"@,
        TyV::Function { params, return_ty, .. } => "("@ + list_text(params) + ") -> "@ + ty_text(
            *return_ty,
        ),
        TyV::Closure { params, return_ty } => "closure ("@ + list_text(params) + ") -> "@
            + ty_text(*return_ty),
        TyV::Array { element, count } => "["@ + ty_text(*element) + "; "@ + decimal(count as nat)
            + "]"@,
        TyV::Ptr(inner) => "*"@ + ty_text(*inner),
        TyV::Struct(name) => name,
        TyV::Enum(name) => name,
        TyV::Tuple(elems) => "("@ + list_text(elems) + ")"@,
        TyV::TypeVar(id) => "type var id "@ + decimal(id as nat),
        TyV::GenericStruct { name, args } => name + "<"@ + list_text(args) + ">"@,
        TyV::GenericEnum { name, args } => name + "<"@ + list_text(args) + ">"@,
    }
}

/// The types of `s`, separated by `, `.
pub open spec fn list_text(s: Seq<TyV>) -> Seq<char>
    decreases s,
{
    if s.len() == 0 {
        Seq::empty()
    } else if s.len() == 1 {
        ty_text(s[0])
    } else {
        list_text(s.subrange(0, s.len() - 1)) + ", "@ + ty_text(s[s.len() - 1])
    }
}

/// Whether two lists of types are the same, element by element.
pub fn tys_same(a: &Vec<Ty>, b: &Vec<Ty>) -> (r: bool)
    ensures
        r == (tys_view(a@) == tys_view(b@)),
    decreases a,
{
    proof {
        lemma_tys_view(a@);
        lemma_tys_view(b@);
    }
    if a.len() != b.len() {
        return false;
    }
    let mut i: usize = 0;
    while i < a.len()
        invariant
            a.len() == b.len(),
            i <= a.len(),
            tys_view(a@).len() == a.len(),
            tys_view(b@).len() == b.len(),
            forall|j: int| 0 <= j < a.len() ==> #[trigger] tys_view(a@)[j] == ty_view(a@[j]),
            forall|j: int| 0 <= j < b.len() ==> #[trigger] tys_view(b@)[j] == ty_view(b@[j]),
            forall|j: int| 0 <= j < i ==> ty_view(#[trigger] a@[j]) == ty_view(b@[j]),
        decreases a.len() - i,
    {
        if !a[i].same(&b[i]) {
            assert(tys_view(a@)[i as int] != tys_view(b@)[i as int]);
            return false;
        }
        i = i + 1;
    }
    assert(tys_view(a@) =~= tys_view(b@));
    true
}

/// A copy of a list of types.
pub fn tys_duplicate(v: &Vec<Ty>) -> (r: Vec<Ty>)
    ensures
        tys_view(r@) == tys_view(v@),
    decreases v,
{
    let mut out: Vec<Ty> = Vec::new();
    let mut i: usize = 0;
    while i < v.len()
        invariant
            i <= v.len(),
            out.len() == i,
            forall|j: int| 0 <= j < i ==> ty_view(#[trigger] out@[j]) == ty_view(v@[j]),
        decreases v.len() - i,
    {
        let t = v[i].duplicate();
        out.push(t);
        i = i + 1;
    }
    proof {
        lemma_tys_view(v@);
        lemma_tys_view(out@);
        assert(tys_view(out@) =~= tys_view(v@));
    }
    out
}

/// Appends the types of `v`, separated by `, `.
pub fn push_list_text(s: &mut String, v: &Vec<Ty>)
    ensures
        final(s)@ == old(s)@ + list_text(tys_view(v@)),
    decreases v,
{
    let ghost start = s@;
    let mut i: usize = 0;
    while i < v.len()
        invariant
            i <= v.len(),
            s@ == start + list_text(tys_view(v@.subrange(0, i as int))),
        decreases v.len() - i,
    {
        proof {
            let x = v@.subrange(0, i + 1);
            assert(x.subrange(0, i as int) =~= v@.subrange(0, i as int));
            assert(tys_view(x) == tys_view(v@.subrange(0, i as int)).push(ty_view(v@[i as int])));
            lemma_tys_view(v@.subrange(0, i as int));
            lemma_tys_view(x);
        }
        if i > 0 {
            append_str(s, ", ");
        }
        push_ty_text(s, &v[i]);
        proof {
            let x = v@.subrange(0, i + 1);
            let tv = tys_view(x);
            assert(tv.subrange(0, tv.len() - 1) =~= tys_view(v@.subrange(0, i as int)));
            if i > 0 {
                assert(s@ =~= start + list_text(tv));
            } else {
                assert(s@ =~= start + list_text(tv));
            }
        }
        i = i + 1;
    }
    assert(v@.subrange(0, v.len() as int) =~= v@);
}

/// Appends the rendering of `t`.
pub fn push_ty_text(s: &mut String, t: &Ty)
    ensures
        final(s)@ == old(s)@ + ty_text(t@),
    decreases t,
{
    let ghost start = s@;
    match t {
        Ty::Unit => append_str(s, "Unit"),
        Ty::Int => append_str(s, "Int"),
        Ty::UInt => append_str(s, "UInt"),
        Ty::Float => append_str(s, "Float"),
        Ty::I8 => append_str(s, "i8"),
        Ty::I32 => append_str(s, "i32"),
        Ty::I64 => append_str(s, "i64"),
        Ty::U8 => append_str(s, "u8"),
        Ty::U32 => append_str(s, "u32"),
        Ty::U64 => append_str(s, "u64"),
        Ty::F32 => append_str(s, "f32"),
        Ty::F64 => append_str(s, "f64"),
        Ty::Function { params, return_ty, .. } => {
            append_str(s, "(");
            push_list_text(s, params);
            append_str(s, ") -> ");
            push_ty_text(s, return_ty);
            assert(s@ =~= start + ty_text(t@));
        },
        Ty::Closure { params, return_ty } => {
            append_str(s, "closure (");
            push_list_text(s, params);
            append_str(s, ") -> ");
            push_ty_text(s, return_ty);
            assert(s@ =~= start + ty_text(t@));
        },
        Ty::Array { element, count } => {
            append_str(s, "[");
            push_ty_text(s, element);
            append_str(s, "; ");
            push_decimal(s, *count as u64);
            append_str(s, "]");
            assert(s@ =~= start + ty_text(t@));
        },
        Ty::Ptr(inner) => {
            append_str(s, "*");
            push_ty_text(s, inner);
            assert(s@ =~= start + ty_text(t@));
        },
        Ty::Struct(name) => append_str(s, name.as_str()),
        Ty::Enum(name) => append_str(s, name.as_str()),
        Ty::Tuple(elems) => {
            append_str(s, "(");
            push_list_text(s, elems);
            append_str(s, ")");
            assert(s@ =~= start + ty_text(t@));
        },
        Ty::TypeVar(id) => {
            append_str(s, "type var id ");
            push_decimal(s, id.0 as u64);
        },
        Ty::GenericStruct { name, args } => {
            append_str(s, name.as_str());
            append_str(s, "<");
            push_list_text(s, args);
            append_str(s, ">");
            assert(s@ =~= start + ty_text(t@));
        },
        Ty::GenericEnum { name, args } => {
            append_str(s, name.as_str());
            append_str(s, "<");
            push_list_text(s, args);
            append_str(s, ">");
            assert(s@ =~= start + ty_text(t@));
        },
    }
}

impl Ty {
    /// Whether two types are the same.
    pub fn same(&self, other: &Ty) -> (r: bool)
        ensures
            r == (self@ == other@),
        decreases self,
    {
        match (self, other) {
            (Ty::Unit, Ty::Unit) => true,
            (Ty::Int, Ty::Int) => true,
            (Ty::UInt, Ty::UInt) => true,
            (Ty::Float, Ty::Float) => true,
            (Ty::I8, Ty::I8) => true,
            (Ty::I32, Ty::I32) => true,
            (Ty::I64, Ty::I64) => true,
            (Ty::U8, Ty::U8) => true,
            (Ty::U32, Ty::U32) => true,
            (Ty::U64, Ty::U64) => true,
            (Ty::F32, Ty::F32) => true,
            (Ty::F64, Ty::F64) => true,
            (
                Ty::Function { params: p1, return_ty: r1, varargs: v1 },
                Ty::Function { params: p2, return_ty: r2, varargs: v2 },
            ) => *v1 == *v2 && tys_same(p1, p2) && r1.same(r2),
            (Ty::Closure { params: p1, return_ty: r1 }, Ty::Closure { params: p2, return_ty: r2 }) => {
                tys_same(p1, p2) && r1.same(r2)
            },
            (Ty::Array { element: e1, count: c1 }, Ty::Array { element: e2, count: c2 }) => *c1
                == *c2 && e1.same(e2),
            (Ty::Ptr(a), Ty::Ptr(b)) => a.same(b),
            (Ty::Struct(a), Ty::Struct(b)) => *a == *b,
            (Ty::Enum(a), Ty::Enum(b)) => *a == *b,
            (Ty::Tuple(a), Ty::Tuple(b)) => tys_same(a, b),
            (Ty::TypeVar(a), Ty::TypeVar(b)) => a.0 == b.0,
            (Ty::GenericStruct { name: n1, args: a1 }, Ty::GenericStruct { name: n2, args: a2 }) => {
                *n1 == *n2 && tys_same(a1, a2)
            },
            (Ty::GenericEnum { name: n1, args: a1 }, Ty::GenericEnum { name: n2, args: a2 }) => {
                *n1 == *n2 && tys_same(a1, a2)
            },
            _ => false,
        }
    }

    /// A copy of the type.
    pub fn duplicate(&self) -> (r: Ty)
        ensures
            r@ == self@,
        decreases self,
    {
        match self {
            Ty::Unit => Ty::Unit,
            Ty::Int => Ty::Int,
            Ty::UInt => Ty::UInt,
            Ty::Float => Ty::Float,
            Ty::I8 => Ty::I8,
            Ty::I32 => Ty::I32,
            Ty::I64 => Ty::I64,
            Ty::U8 => Ty::U8,
            Ty::U32 => Ty::U32,
            Ty::U64 => Ty::U64,
            Ty::F32 => Ty::F32,
            Ty::F64 => Ty::F64,
            Ty::Function { params, return_ty, varargs } => Ty::Function {
                params: tys_duplicate(params),
                return_ty: Box::new(return_ty.duplicate()),
                varargs: *varargs,
            },
            Ty::Closure { params, return_ty } => Ty::Closure {
                params: tys_duplicate(params),
                return_ty: Box::new(return_ty.duplicate()),
            },
            Ty::Array { element, count } => Ty::Array {
                element: Box::new(element.duplicate()),
                count: *count,
            },
            Ty::Ptr(inner) => Ty::Ptr(Box::new(inner.duplicate())),
            Ty::Struct(name) => Ty::Struct(name.clone()),
            Ty::Enum(name) => Ty::Enum(name.clone()),
            Ty::Tuple(elems) => Ty::Tuple(tys_duplicate(elems)),
            Ty::TypeVar(id) => Ty::TypeVar(*id),
            Ty::GenericStruct { name, args } => Ty::GenericStruct {
                name: name.clone(),
                args: tys_duplicate(args),
            },
            Ty::GenericEnum { name, args } => Ty::GenericEnum {
                name: name.clone(),
                args: tys_duplicate(args),
            },
        }
    }

    /// The type as written in messages, e.g. `*[Int; 3]` or `Pair<u8, f64>`.
    pub fn text(&self) -> (r: String)
        ensures
            r@ == ty_text(self@),
    {
        let mut s = String::new();
        push_ty_text(&mut s, self);
        assert(s@ =~= ty_text(self@));
        s
    }
}

/// A lowered program: its top-level declarations plus the (specialized)
/// struct and enum definitions they use.
#[derive(Debug)]
pub struct Program {
    pub span: Span,
    pub declarations: Vec<Declaration>,
    pub structs: Vec<StructDef>,
    pub enums: Vec<EnumDef>,
}

#[derive(Debug)]
pub struct StructDef {
    pub name: String,
    pub type_var_ids: Vec<TypeVarId>,
    pub fields: Vec<(String, Ty)>,
}

#[derive(Debug)]
pub struct EnumDef {
    pub name: String,
    pub type_var_ids: Vec<TypeVarId>,
    pub variants: Vec<EnumVariant>,
}

#[derive(Debug)]
pub struct EnumVariant {
    pub name: String,
    pub fields: Vec<Ty>,
}

#[derive(Debug)]
pub struct Declaration {
    pub id: LocalId,
    pub span: Span,
    pub mutable: bool,
    pub name: String,
    pub ty: Ty,
    pub value: Expr,
}

#[derive(Debug)]
pub struct Expr {
    pub span: Span,
    pub ty: Ty,
    pub kind: ExprKind,
}

#[derive(Debug)]
pub enum ExprKind {
    Const(Const),
    Local(LocalId),
    Function(Function),
    Call(FunctionCall),
    Cast { target: Ty, expr: Box<Expr> },
    Unary { op: UnaryOperator, operand: Box<Expr> },
    Block(Block),
    Binary { op: BinaryOperator, lhs: Box<Expr>, rhs: Box<Expr> },
    If { condition: Box<Expr>, then_branch: Box<Expr>, else_branch: Box<Expr> },
    While { condition: Box<Expr>, body: Block },
    Assign { target: Box<Expr>, value: Box<Expr> },
    Array(Vec<Expr>),
    Subscript { expr: Box<Expr>, index: Box<Expr> },
    Ref(Box<Expr>),
    Deref(Box<Expr>),
    StructLiteral { fields: Vec<(String, Expr)> },
    Field { target: Box<Expr>, name: String, index: usize },
    /// A reified type value, used only inside `#comptime` function bodies.
    TypeValue(Ty),
    /// A `comperror(msg)` call: aborts compilation if comptime evaluation
    /// reaches it.
    CompError(String),
    /// A heap-allocation intrinsic (`alloc<T>`, `realloc<T>`, `free`);
    /// `elem_ty` is the element type `T`.
    Intrinsic { kind: IntrinsicKind, elem_ty: Ty, args: Vec<Expr> },
    Tuple(Vec<Expr>),
    TupleField { target: Box<Expr>, index: usize },
}

#[derive(Clone, Copy, Debug, PartialEq, Eq, Structural)]
pub enum IntrinsicKind {
    Alloc,
    Realloc,
    Free,
}

#[derive(Debug)]
pub struct FunctionCall {
    pub callee: Box<Expr>,
    pub args: Vec<Expr>,
}

/// A constant. A float keeps its decimal source text.
#[derive(Debug)]
pub enum Const {
    Int(i32),
    Float(String),
    Str(String),
    Unit,
}

#[derive(Debug)]
pub struct Function {
    pub params: Vec<Param>,
    pub return_ty: Ty,
    pub body: Block,
}

#[derive(Debug)]
pub struct Param {
    pub id: LocalId,
    pub span: Span,
    pub name: String,
    pub ty: Ty,
}

#[derive(Debug)]
pub struct Block {
    pub span: Span,
    pub items: Vec<BlockItem>,
    pub tail: Box<Expr>,
}

#[derive(Debug)]
pub enum BlockItem {
    Declaration(Declaration),
    Statement(Statement),
}

#[derive(Debug)]
pub struct Statement {
    pub span: Span,
    pub kind: StatementKind,
}

#[derive(Debug)]
pub enum StatementKind {
    Return(Expr),
    Expr(Expr),
    Break,
    /// `defer <expr>;` runs `expr` (last in, first out) when the enclosing
    /// block exits, including through `return` or `break`.
    Defer(Expr),
}

/// The name of a specialization: `name` followed by `$` and the rendering
/// of each type argument.
pub open spec fn mangled(name: Seq<char>, tys: Seq<TyV>) -> Seq<char>
    decreases tys.len(),
{
    if tys.len() == 0 {
        name
    } else {
        mangled(name, tys.subrange(0, tys.len() - 1)) + "$"@ + ty_text(tys[tys.len() - 1])
    }
}

pub fn mangle_specialization(name: &str, tys: &[Ty]) -> (r: String)
    ensures
        r@ == mangled(name@, tys_view(tys@)),
{
    let mut s = String::new();
    append_str(&mut s, name);
    let mut i: usize = 0;
    while i < tys.len()
        invariant
            i <= tys.len(),
            s@ == mangled(name@, tys_view(tys@.subrange(0, i as int))),
        decreases tys.len() - i,
    {
        proof {
            let x = tys@.subrange(0, i + 1);
            assert(x.subrange(0, i as int) =~= tys@.subrange(0, i as int));
            lemma_tys_view(x);
            let v = tys_view(x);
            assert(v.subrange(0, v.len() - 1) =~= tys_view(tys@.subrange(0, i as int)));
        }
        append_str(&mut s, "$");
        push_ty_text(&mut s, &tys[i]);
        proof {
            let x = tys@.subrange(0, i + 1);
            assert(s@ =~= mangled(name@, tys_view(x)));
        }
        i = i + 1;
    }
    assert(tys@.subrange(0, tys.len() as int) =~= tys@);
    s
}

/// Specialized struct names are mangled the same way as functions.
pub fn mangle_struct_specialization(name: &str, tys: &[Ty]) -> (r: String)
    ensures
        r@ == mangled(name@, tys_view(tys@)),
{
    mangle_specialization(name, tys)
}

/// The empty span at the end of `span`.
pub fn end_of(span: Span) -> (r: Span)
    ensures
        r == (Span { start: span.end, end: span.end }),
{
    Span { start: span.end, end: span.end }
}

/// Whether an expression of this kind denotes a place (something that can
/// be assigned to or have its address taken).
pub fn is_place_kind(kind: &ExprKind) -> (r: bool)
    ensures
        r == (kind is Local || kind is Field || kind is Subscript || kind is Deref),
{
    match kind {
        ExprKind::Local(_) => true,
        ExprKind::Field { .. } => true,
        ExprKind::Subscript { .. } => true,
        ExprKind::Deref(_) => true,
        _ => false,
    }
}

/// The unit constant, spanning `span`.
pub fn unit_expr(span: Span) -> (r: Expr)
    ensures
        r == (Expr { span, ty: Ty::Unit, kind: ExprKind::Const(Const::Unit) }),
{
    Expr { span, ty: Ty::Unit, kind: ExprKind::Const(Const::Unit) }
}

} // verus!
