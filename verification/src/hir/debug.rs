//! The debug rendering of HIR nodes: `Kind(operands) : type` for
//! expressions, `Name { field: value, .. }` for the records around them.

use crate::hir::types::{
    ty_text, BinaryOperator, Block, BlockItem, Const, Declaration, Expr, ExprKind, Function,
    IntrinsicKind, LocalId, Param, Program, StatementKind, StructDef, Ty, UnaryOperator,
    push_ty_text,
};
use crate::lexer::display::{
    append_str, debug_str, decimal, push_decimal, push_signed, signed_decimal, str_debug,
};
use vstd::prelude::*;

verus! {

pub open spec fn bool_text(b: bool) -> Seq<char> {
    if b {
        "true"@
    } else {
        "false"@
    }
}

pub open spec fn local_id_debug(id: LocalId) -> Seq<char> {
    "LocalId("@ + decimal(id.0 as nat) + ")"@
}

pub open spec fn binop_name(op: BinaryOperator) -> Seq<char> {
    match op {
        BinaryOperator::Add => "Add"@,
        BinaryOperator::Sub => "Sub"@,
        BinaryOperator::Mul => "Mul"@,
        BinaryOperator::Div => "Div"@,
        BinaryOperator::Mod => "Mod"@,
        BinaryOperator::Shl => "Shl"@,
        BinaryOperator::Shr => "Shr"@,
        BinaryOperator::Lt => "Lt"@,
        BinaryOperator::Le => "Le"@,
        BinaryOperator::Gt => "Gt"@,
        BinaryOperator::Ge => "Ge"@,
        BinaryOperator::Eq => "Eq"@,
        BinaryOperator::Ne => "Ne"@,
        BinaryOperator::BitAnd => "BitAnd"@,
        BinaryOperator::BitXor => "BitXor"@,
        BinaryOperator::BitOr => "BitOr"@,
        BinaryOperator::And => "And"@,
        BinaryOperator::Or => "Or"@,
    }
}

pub open spec fn unop_name(op: UnaryOperator) -> Seq<char> {
    match op {
        UnaryOperator::Not => "Not"@,
        UnaryOperator::Minus => "Minus"@,
    }
}

pub open spec fn intrinsic_name(k: IntrinsicKind) -> Seq<char> {
    match k {
        IntrinsicKind::Alloc => "Alloc"@,
        IntrinsicKind::Realloc => "Realloc"@,
        IntrinsicKind::Free => "Free"@,
    }
}

/// A constant: `Int(3)`, `Float(1.5)`, `Str("a")` or `Unit`. A float is
/// shown by the decimal text it keeps.
pub open spec fn const_debug(c: Const) -> Seq<char> {
    match c {
        Const::Int(n) => "Int("@ + signed_decimal(n as int) + ")"@,
        Const::Float(t) => "Float("@ + t@ + ")"@,
        Const::Str(t) => "Str("@ + str_debug(t@) + ")"@,
        Const::Unit => "Unit"@,
    }
}

pub open spec fn param_debug(p: Param) -> Seq<char> {
    "Param { id: "@ + local_id_debug(p.id) + ", name: "@ + str_debug(p.name@) + ", ty: "@
        + ty_text(p.ty@) + " }"@
}

/// The parameters, separated by `, `.
pub open spec fn params_items(s: Seq<Param>) -> Seq<char>
    decreases s.len(),
{
    if s.len() == 0 {
        Seq::empty()
    } else if s.len() == 1 {
        param_debug(s[0])
    } else {
        params_items(s.drop_last()) + ", "@ + param_debug(s.last())
    }
}

/// An expression: its kind, then ` : ` and its type.
pub open spec fn expr_debug(e: Expr) -> Seq<char>
    decreases e,
{
    kind_debug(e.kind) + " : "@ + ty_text(e.ty@)
}

pub open spec fn kind_debug(k: ExprKind) -> Seq<char>
    decreases k,
{
    match k {
        ExprKind::Const(c) => const_debug(c),
        ExprKind::Local(id) => "Local("@ + decimal(id.0 as nat) + ")"@,
        ExprKind::Function(f) => function_debug(f),
        ExprKind::Call(call) => "call "@ + expr_debug(*call.callee) + "["@ + exprs_items(
            call.args@,
        ) + "]"@,
        ExprKind::Unary { op, operand } => unop_name(op) + "("@ + expr_debug(*operand) + ")"@,
        ExprKind::Binary { op, lhs, rhs } => binop_name(op) + "("@ + expr_debug(*lhs) + ", "@
            + expr_debug(*rhs) + ")"@,
        ExprKind::Block(b) => block_debug(b),
        ExprKind::Cast { target, expr } => "Cast("@ + ty_text(target@) + ") "@ + expr_debug(
            *expr,
        ),
        ExprKind::If { condition, then_branch, else_branch } => "If("@ + expr_debug(*condition)
            + ", "@ + expr_debug(*then_branch) + ", "@ + expr_debug(*else_branch) + ")"@,
        ExprKind::While { condition, body } => "While("@ + expr_debug(*condition) + ", "@
            + block_debug(body) + ")"@,
        ExprKind::Assign { target, value } => "Assign("@ + expr_debug(*target) + ", "@
            + expr_debug(*value) + ")"@,
        ExprKind::Array(items) => "Array["@ + exprs_items(items@) + "]"@,
        ExprKind::Subscript { expr, index } => "Subscript("@ + expr_debug(*expr) + ", "@
            + expr_debug(*index) + ")"@,
        ExprKind::Ref(x) => "Ref("@ + expr_debug(*x) + ")"@,
        ExprKind::Deref(x) => "Deref("@ + expr_debug(*x) + ")"@,
        ExprKind::StructLiteral { fields } => "StructLit{"@ + lit_items(fields@) + "}"@,
        ExprKind::Field { target, name, .. } => expr_debug(*target) + "."@ + name@,
        ExprKind::TypeValue(ty) => "TypeValue("@ + ty_text(ty@) + ")"@,
        ExprKind::CompError(msg) => "CompError("@ + str_debug(msg@) + ")"@,
        ExprKind::Intrinsic { kind, elem_ty, args } => intrinsic_name(kind) + "<"@ + ty_text(
            elem_ty@,
        ) + ">["@ + exprs_items(args@) + "]"@,
        ExprKind::Tuple(items) => "Tuple["@ + exprs_items(items@) + "]"@,
        ExprKind::TupleField { target, index } => expr_debug(*target) + "."@ + decimal(
            index as nat,
        ),
    }
}

/// The expressions, separated by `, `.
pub open spec fn exprs_items(s: Seq<Expr>) -> Seq<char>
    decreases s,
{
    if s.len() == 0 {
        Seq::empty()
    } else if s.len() == 1 {
        expr_debug(s[0])
    } else {
        exprs_items(s.subrange(0, s.len() - 1)) + ", "@ + expr_debug(s[s.len() - 1])
    }
}

/// The fields of a struct literal, `name: value`, separated by `, `.
pub open spec fn lit_items(s: Seq<(String, Expr)>) -> Seq<char>
    decreases s,
{
    if s.len() == 0 {
        Seq::empty()
    } else if s.len() == 1 {
        s[0].0@ + ": "@ + expr_debug(s[0].1)
    } else {
        lit_items(s.subrange(0, s.len() - 1)) + ", "@ + s[s.len() - 1].0@ + ": "@ + expr_debug(
            s[s.len() - 1].1,
        )
    }
}

pub open spec fn function_debug(f: Function) -> Seq<char>
    decreases f,
{
    "Function { params: ["@ + params_items(f.params@) + "], return_ty: "@ + ty_text(
        f.return_ty@,
    ) + ", body: "@ + block_debug(f.body) + " }"@
}

pub open spec fn block_debug(b: Block) -> Seq<char>
    decreases b,
{
    "Block { items: ["@ + items_items(b.items@) + "], tail: "@ + expr_debug(*b.tail) + " }"@
}

/// The block items, separated by `, `.
pub open spec fn items_items(s: Seq<BlockItem>) -> Seq<char>
    decreases s,
{
    if s.len() == 0 {
        Seq::empty()
    } else if s.len() == 1 {
        item_debug(s[0])
    } else {
        items_items(s.subrange(0, s.len() - 1)) + ", "@ + item_debug(s[s.len() - 1])
    }
}

pub open spec fn item_debug(i: BlockItem) -> Seq<char>
    decreases i,
{
    match i {
        BlockItem::Declaration(d) => decl_debug(d),
        BlockItem::Statement(st) => stmt_debug(st.kind),
    }
}

pub open spec fn stmt_debug(k: StatementKind) -> Seq<char>
    decreases k,
{
    match k {
        StatementKind::Return(e) => "Return("@ + expr_debug(e) + ")"@,
        StatementKind::Expr(e) => "Expr("@ + expr_debug(e) + ")"@,
        StatementKind::Break => "Break"@,
        StatementKind::Defer(e) => "Defer("@ + expr_debug(e) + ")"@,
    }
}

pub open spec fn decl_debug(d: Declaration) -> Seq<char>
    decreases d,
{
    "Declaration { id: "@ + local_id_debug(d.id) + ", mutable: "@ + bool_text(d.mutable)
        + ", name: "@ + str_debug(d.name@) + ", ty: "@ + ty_text(d.ty@) + ", value: "@
        + expr_debug(d.value) + " }"@
}

/// The declarations, separated by `, `.
pub open spec fn decls_items(s: Seq<Declaration>) -> Seq<char>
    decreases s.len(),
{
    if s.len() == 0 {
        Seq::empty()
    } else if s.len() == 1 {
        decl_debug(s[0])
    } else {
        decls_items(s.drop_last()) + ", "@ + decl_debug(s.last())
    }
}

pub open spec fn program_debug(p: Program) -> Seq<char> {
    "Program { declarations: ["@ + decls_items(p.declarations@) + "] }"@
}

/// A field of a struct definition: `("name", type)`.
pub open spec fn def_field_debug(f: (String, Ty)) -> Seq<char> {
    "("@ + str_debug(f.0@) + ", "@ + ty_text(f.1@) + ")"@
}

/// The fields, separated by `, `.
pub open spec fn def_fields_items(s: Seq<(String, Ty)>) -> Seq<char>
    decreases s.len(),
{
    if s.len() == 0 {
        Seq::empty()
    } else if s.len() == 1 {
        def_field_debug(s[0])
    } else {
        def_fields_items(s.drop_last()) + ", "@ + def_field_debug(s.last())
    }
}

pub open spec fn struct_def_debug(d: StructDef) -> Seq<char> {
    "StructDef { name: "@ + str_debug(d.name@) + ", fields: ["@ + def_fields_items(d.fields@)
        + "] }"@
}

fn push_const(s: &mut String, c: &Const)
    ensures
        final(s)@ == old(s)@ + const_debug(*c),
{
    let ghost start = s@;
    match c {
        Const::Int(n) => {
            append_str(s, "Int(");
            push_signed(s, *n as i64);
            append_str(s, ")");
        },
        Const::Float(t) => {
            append_str(s, "Float(");
            append_str(s, t.as_str());
            append_str(s, ")");
        },
        Const::Str(t) => {
            append_str(s, "Str(");
            let q = debug_str(t.as_str());
            append_str(s, q.as_str());
            append_str(s, ")");
        },
        Const::Unit => append_str(s, "Unit"),
    }
    assert(s@ =~= start + const_debug(*c));
}

fn push_local_id(s: &mut String, id: LocalId)
    ensures
        final(s)@ == old(s)@ + local_id_debug(id),
{
    let ghost start = s@;
    append_str(s, "LocalId(");
    push_decimal(s, id.0 as u64);
    append_str(s, ")");
    assert(s@ =~= start + local_id_debug(id));
}

fn push_param(s: &mut String, p: &Param)
    ensures
        final(s)@ == old(s)@ + param_debug(*p),
{
    let ghost start = s@;
    append_str(s, "Param { id: ");
    push_local_id(s, p.id);
    append_str(s, ", name: ");
    let q = debug_str(p.name.as_str());
    append_str(s, q.as_str());
    append_str(s, ", ty: ");
    push_ty_text(s, &p.ty);
    append_str(s, " }");
    assert(s@ =~= start + param_debug(*p));
}

fn push_params(s: &mut String, v: &Vec<Param>)
    ensures
        final(s)@ == old(s)@ + params_items(v@),
{
    let ghost start = s@;
    let mut i: usize = 0;
    while i < v.len()
        invariant
            i <= v.len(),
            s@ == start + params_items(v@.subrange(0, i as int)),
        decreases v.len() - i,
    {
        proof {
            let x = v@.subrange(0, i + 1);
            assert(x.drop_last() =~= v@.subrange(0, i as int));
        }
        if i > 0 {
            append_str(s, ", ");
        }
        push_param(s, &v[i]);
        i = i + 1;
    }
    assert(v@.subrange(0, v.len() as int) =~= v@);
}

fn push_expr(s: &mut String, e: &Expr)
    ensures
        final(s)@ == old(s)@ + expr_debug(*e),
    decreases e,
{
    let ghost start = s@;
    push_kind(s, &e.kind);
    append_str(s, " : ");
    push_ty_text(s, &e.ty);
    assert(s@ =~= start + expr_debug(*e));
}

fn push_kind(s: &mut String, k: &ExprKind)
    ensures
        final(s)@ == old(s)@ + kind_debug(*k),
    decreases k,
{
    let ghost start = s@;
    match k {
        ExprKind::Const(c) => push_const(s, c),
        ExprKind::Local(id) => {
            append_str(s, "Local(");
            push_decimal(s, id.0 as u64);
            append_str(s, ")");
        },
        ExprKind::Function(f) => push_function(s, f),
        ExprKind::Call(call) => {
            append_str(s, "call ");
            push_expr(s, &call.callee);
            append_str(s, "[");
            push_exprs(s, &call.args);
            append_str(s, "]");
        },
        ExprKind::Unary { op, operand } => {
            append_str(s, unop_str(*op));
            append_str(s, "(");
            push_expr(s, operand);
            append_str(s, ")");
        },
        ExprKind::Binary { op, lhs, rhs } => {
            append_str(s, binop_str(*op));
            append_str(s, "(");
            push_expr(s, lhs);
            append_str(s, ", ");
            push_expr(s, rhs);
            append_str(s, ")");
        },
        ExprKind::Block(b) => push_block(s, b),
        ExprKind::Cast { target, expr } => {
            append_str(s, "Cast(");
            push_ty_text(s, target);
            append_str(s, ") ");
            push_expr(s, expr);
        },
        ExprKind::If { condition, then_branch, else_branch } => {
            append_str(s, "If(");
            push_expr(s, condition);
            append_str(s, ", ");
            push_expr(s, then_branch);
            append_str(s, ", ");
            push_expr(s, else_branch);
            append_str(s, ")");
        },
        ExprKind::While { condition, body } => {
            append_str(s, "While(");
            push_expr(s, condition);
            append_str(s, ", ");
            push_block(s, body);
            append_str(s, ")");
        },
        ExprKind::Assign { target, value } => {
            append_str(s, "Assign(");
            push_expr(s, target);
            append_str(s, ", ");
            push_expr(s, value);
            append_str(s, ")");
        },
        ExprKind::Array(items) => {
            append_str(s, "Array[");
            push_exprs(s, items);
            append_str(s, "]");
        },
        ExprKind::Subscript { expr, index } => {
            append_str(s, "Subscript(");
            push_expr(s, expr);
            append_str(s, ", ");
            push_expr(s, index);
            append_str(s, ")");
        },
        ExprKind::Ref(x) => {
            append_str(s, "Ref(");
            push_expr(s, x);
            append_str(s, ")");
        },
        ExprKind::Deref(x) => {
            append_str(s, "Deref(");
            push_expr(s, x);
            append_str(s, ")");
        },
        ExprKind::StructLiteral { fields } => {
            append_str(s, "StructLit{");
            push_lit_fields(s, fields);
            append_str(s, "}");
        },
        ExprKind::Field { target, name, .. } => {
            push_expr(s, target);
            append_str(s, ".");
            append_str(s, name.as_str());
        },
        ExprKind::TypeValue(ty) => {
            append_str(s, "TypeValue(");
            push_ty_text(s, ty);
            append_str(s, ")");
        },
        ExprKind::CompError(msg) => {
            append_str(s, "CompError(");
            let q = debug_str(msg.as_str());
            append_str(s, q.as_str());
            append_str(s, ")");
        },
        ExprKind::Intrinsic { kind, elem_ty, args } => {
            append_str(s, intrinsic_str(*kind));
            append_str(s, "<");
            push_ty_text(s, elem_ty);
            append_str(s, ">[");
            push_exprs(s, args);
            append_str(s, "]");
        },
        ExprKind::Tuple(items) => {
            append_str(s, "Tuple[");
            push_exprs(s, items);
            append_str(s, "]");
        },
        ExprKind::TupleField { target, index } => {
            push_expr(s, target);
            append_str(s, ".");
            push_decimal(s, *index as u64);
        },
    }
    assert(s@ =~= start + kind_debug(*k));
}

fn push_exprs(s: &mut String, v: &Vec<Expr>)
    ensures
        final(s)@ == old(s)@ + exprs_items(v@),
    decreases v,
{
    let ghost start = s@;
    let mut i: usize = 0;
    while i < v.len()
        invariant
            i <= v.len(),
            s@ == start + exprs_items(v@.subrange(0, i as int)),
        decreases v.len() - i,
    {
        proof {
            let x = v@.subrange(0, i + 1);
            assert(x.subrange(0, i as int) =~= v@.subrange(0, i as int));
        }
        if i > 0 {
            append_str(s, ", ");
        }
        push_expr(s, &v[i]);
        i = i + 1;
    }
    assert(v@.subrange(0, v.len() as int) =~= v@);
}

fn push_lit_fields(s: &mut String, v: &Vec<(String, Expr)>)
    ensures
        final(s)@ == old(s)@ + lit_items(v@),
    decreases v,
{
    let ghost start = s@;
    let mut i: usize = 0;
    while i < v.len()
        invariant
            i <= v.len(),
            s@ == start + lit_items(v@.subrange(0, i as int)),
        decreases v.len() - i,
    {
        proof {
            let x = v@.subrange(0, i + 1);
            assert(x.subrange(0, i as int) =~= v@.subrange(0, i as int));
        }
        if i > 0 {
            append_str(s, ", ");
        }
        append_str(s, v[i].0.as_str());
        append_str(s, ": ");
        push_expr(s, &v[i].1);
        i = i + 1;
    }
    assert(v@.subrange(0, v.len() as int) =~= v@);
}

fn push_function(s: &mut String, f: &Function)
    ensures
        final(s)@ == old(s)@ + function_debug(*f),
    decreases f,
{
    let ghost start = s@;
    append_str(s, "Function { params: [");
    push_params(s, &f.params);
    append_str(s, "], return_ty: ");
    push_ty_text(s, &f.return_ty);
    append_str(s, ", body: ");
    push_block(s, &f.body);
    append_str(s, " }");
    assert(s@ =~= start + function_debug(*f));
}

fn push_block(s: &mut String, b: &Block)
    ensures
        final(s)@ == old(s)@ + block_debug(*b),
    decreases b,
{
    let ghost start = s@;
    append_str(s, "Block { items: [");
    push_items(s, &b.items);
    append_str(s, "], tail: ");
    push_expr(s, &b.tail);
    append_str(s, " }");
    assert(s@ =~= start + block_debug(*b));
}

fn push_items(s: &mut String, v: &Vec<BlockItem>)
    ensures
        final(s)@ == old(s)@ + items_items(v@),
    decreases v,
{
    let ghost start = s@;
    let mut i: usize = 0;
    while i < v.len()
        invariant
            i <= v.len(),
            s@ == start + items_items(v@.subrange(0, i as int)),
        decreases v.len() - i,
    {
        proof {
            let x = v@.subrange(0, i + 1);
            assert(x.subrange(0, i as int) =~= v@.subrange(0, i as int));
        }
        if i > 0 {
            append_str(s, ", ");
        }
        push_item(s, &v[i]);
        i = i + 1;
    }
    assert(v@.subrange(0, v.len() as int) =~= v@);
}

fn push_item(s: &mut String, i: &BlockItem)
    ensures
        final(s)@ == old(s)@ + item_debug(*i),
    decreases i,
{
    match i {
        BlockItem::Declaration(d) => push_decl(s, d),
        BlockItem::Statement(st) => push_stmt(s, &st.kind),
    }
}

fn push_stmt(s: &mut String, k: &StatementKind)
    ensures
        final(s)@ == old(s)@ + stmt_debug(*k),
    decreases k,
{
    let ghost start = s@;
    match k {
        StatementKind::Return(e) => {
            append_str(s, "Return(");
            push_expr(s, e);
            append_str(s, ")");
        },
        StatementKind::Expr(e) => {
            append_str(s, "Expr(");
            push_expr(s, e);
            append_str(s, ")");
        },
        StatementKind::Break => append_str(s, "Break"),
        StatementKind::Defer(e) => {
            append_str(s, "Defer(");
            push_expr(s, e);
            append_str(s, ")");
        },
    }
    assert(s@ =~= start + stmt_debug(*k));
}

fn push_decl(s: &mut String, d: &Declaration)
    ensures
        final(s)@ == old(s)@ + decl_debug(*d),
    decreases d,
{
    let ghost start = s@;
    append_str(s, "Declaration { id: ");
    push_local_id(s, d.id);
    append_str(s, ", mutable: ");
    append_str(s, if d.mutable { "true" } else { "false" });
    append_str(s, ", name: ");
    let q = debug_str(d.name.as_str());
    append_str(s, q.as_str());
    append_str(s, ", ty: ");
    push_ty_text(s, &d.ty);
    append_str(s, ", value: ");
    push_expr(s, &d.value);
    append_str(s, " }");
    assert(s@ =~= start + decl_debug(*d));
}

fn binop_str(op: BinaryOperator) -> (r: &'static str)
    ensures
        r@ == binop_name(op),
{
    match op {
        BinaryOperator::Add => "Add",
        BinaryOperator::Sub => "Sub",
        BinaryOperator::Mul => "Mul",
        BinaryOperator::Div => "Div",
        BinaryOperator::Mod => "Mod",
        BinaryOperator::Shl => "Shl",
        BinaryOperator::Shr => "Shr",
        BinaryOperator::Lt => "Lt",
        BinaryOperator::Le => "Le",
        BinaryOperator::Gt => "Gt",
        BinaryOperator::Ge => "Ge",
        BinaryOperator::Eq => "Eq",
        BinaryOperator::Ne => "Ne",
        BinaryOperator::BitAnd => "BitAnd",
        BinaryOperator::BitXor => "BitXor",
        BinaryOperator::BitOr => "BitOr",
        BinaryOperator::And => "And",
        BinaryOperator::Or => "Or",
    }
}

fn unop_str(op: UnaryOperator) -> (r: &'static str)
    ensures
        r@ == unop_name(op),
{
    match op {
        UnaryOperator::Not => "Not",
        UnaryOperator::Minus => "Minus",
    }
}

fn intrinsic_str(k: IntrinsicKind) -> (r: &'static str)
    ensures
        r@ == intrinsic_name(k),
{
    match k {
        IntrinsicKind::Alloc => "Alloc",
        IntrinsicKind::Realloc => "Realloc",
        IntrinsicKind::Free => "Free",
    }
}

fn push_def_fields(s: &mut String, v: &Vec<(String, Ty)>)
    ensures
        final(s)@ == old(s)@ + def_fields_items(v@),
{
    let ghost start = s@;
    let mut i: usize = 0;
    while i < v.len()
        invariant
            i <= v.len(),
            s@ == start + def_fields_items(v@.subrange(0, i as int)),
        decreases v.len() - i,
    {
        proof {
            let x = v@.subrange(0, i + 1);
            assert(x.drop_last() =~= v@.subrange(0, i as int));
        }
        if i > 0 {
            append_str(s, ", ");
        }
        append_str(s, "(");
        let q = debug_str(v[i].0.as_str());
        append_str(s, q.as_str());
        append_str(s, ", ");
        push_ty_text(s, &v[i].1);
        append_str(s, ")");
        proof {
            let x = v@.subrange(0, i + 1);
            if i > 0 {
                assert(s@ =~= start + def_fields_items(x.drop_last()) + ", "@ + def_field_debug(
                    x.last(),
                ));
            } else {
                assert(s@ =~= start + def_field_debug(x[0]));
            }
        }
        i = i + 1;
    }
    assert(v@.subrange(0, v.len() as int) =~= v@);
}

fn push_decls(s: &mut String, v: &Vec<Declaration>)
    ensures
        final(s)@ == old(s)@ + decls_items(v@),
{
    let ghost start = s@;
    let mut i: usize = 0;
    while i < v.len()
        invariant
            i <= v.len(),
            s@ == start + decls_items(v@.subrange(0, i as int)),
        decreases v.len() - i,
    {
        proof {
            let x = v@.subrange(0, i + 1);
            assert(x.drop_last() =~= v@.subrange(0, i as int));
        }
        if i > 0 {
            append_str(s, ", ");
        }
        push_decl(s, &v[i]);
        i = i + 1;
    }
    assert(v@.subrange(0, v.len() as int) =~= v@);
}

impl Const {
    pub fn debug_text(&self) -> (r: String)
        ensures
            r@ == const_debug(*self),
    {
        let mut s = String::new();
        push_const(&mut s, self);
        s
    }
}

impl Param {
    pub fn debug_text(&self) -> (r: String)
        ensures
            r@ == param_debug(*self),
    {
        let mut s = String::new();
        push_param(&mut s, self);
        s
    }
}

impl Expr {
    pub fn debug_text(&self) -> (r: String)
        ensures
            r@ == expr_debug(*self),
    {
        let mut s = String::new();
        push_expr(&mut s, self);
        s
    }
}

impl ExprKind {
    pub fn debug_text(&self) -> (r: String)
        ensures
            r@ == kind_debug(*self),
    {
        let mut s = String::new();
        push_kind(&mut s, self);
        s
    }
}

impl Function {
    pub fn debug_text(&self) -> (r: String)
        ensures
            r@ == function_debug(*self),
    {
        let mut s = String::new();
        push_function(&mut s, self);
        s
    }
}

impl Block {
    pub fn debug_text(&self) -> (r: String)
        ensures
            r@ == block_debug(*self),
    {
        let mut s = String::new();
        push_block(&mut s, self);
        s
    }
}

impl BlockItem {
    pub fn debug_text(&self) -> (r: String)
        ensures
            r@ == item_debug(*self),
    {
        let mut s = String::new();
        push_item(&mut s, self);
        s
    }
}

impl StatementKind {
    pub fn debug_text(&self) -> (r: String)
        ensures
            r@ == stmt_debug(*self),
    {
        let mut s = String::new();
        push_stmt(&mut s, self);
        s
    }
}

impl Declaration {
    pub fn debug_text(&self) -> (r: String)
        ensures
            r@ == decl_debug(*self),
    {
        let mut s = String::new();
        push_decl(&mut s, self);
        s
    }
}

impl StructDef {
    pub fn debug_text(&self) -> (r: String)
        ensures
            r@ == struct_def_debug(*self),
    {
        let mut s = String::new();
        let ghost start = s@;
        append_str(&mut s, "StructDef { name: ");
        let q = debug_str(self.name.as_str());
        append_str(&mut s, q.as_str());
        append_str(&mut s, ", fields: [");
        push_def_fields(&mut s, &self.fields);
        append_str(&mut s, "] }");
        assert(s@ =~= start + struct_def_debug(*self));
        s
    }
}

impl Program {
    pub fn debug_text(&self) -> (r: String)
        ensures
            r@ == program_debug(*self),
    {
        let mut s = String::new();
        let ghost start = s@;
        append_str(&mut s, "Program { declarations: [");
        push_decls(&mut s, &self.declarations);
        append_str(&mut s, "] }");
        assert(s@ =~= start + program_debug(*self));
        s
    }
}

} // verus!
