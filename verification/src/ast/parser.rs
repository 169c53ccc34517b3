//! A recursive-descent parser.
//!
//! ```text
//! program     ::= { declaration | import }
//! import      ::= "import" <string-literal> ";"
//! declaration ::= [ "#" "comptime" ] "let" [ "mut" ] <ident> [ ":" <type> ] "=" <expr> ";"
//! block       ::= "{" { declaration | statement } [ <expr> ] "}"
//! statement   ::= "return" [ <expr> ] ";" | "break" ";" | "defer" <expr> ";" | <expr> ";"
//! expr        ::= binary [ "=" expr ]              (assignment, right-associative)
//! binary      ::= precedence climbing over unary-with-cast; `|>` splices its left
//!                 operand into the call on its right as the first argument
//! unary       ::= ( "-" | "!" | "&" | "*" ) unary | postfix { "as" <type> }
//! postfix     ::= primary { call | "<" types ">" call | "[" expr "]" | "." ( ident | int ) }
//! primary     ::= literal | ident | struct-literal | struct-def | function-literal
//!               | "[" exprs "]" | "(" expr ")" | block | if | while | <type keyword>
//! type        ::= "Int" | "UInt" | "Float" | "i8" | ... | ident [ "<" types ">" ]
//!               | "$" ident | "*" type | "[" type ";" <int> "]" | "(" types ")" "->" type
//! ```
//!
//! Every parsing function keeps the parser well formed and never moves
//! backwards. Each one that succeeds consumes tokens, and node ids are paid
//! for by consumed tokens: the quantity `next id + 3 * tokens left` never
//! grows and strictly drops on success. So a parser started with
//! `first id + 3 * token count <= u32::MAX` never runs out of node ids.

use crate::ast::error::{Error, ErrorKind};
use crate::ast::token_iter::TokenIter;
use crate::ast::types::{
    BinaryOperator, Block, BlockItem, Const, Declaration, Expr, ExprKind, ImportDecl, NodeId,
    NodeIdGen, Param, Program, Statement, StatementKind, StructLiteralField, StructTypeField,
    TypeExpr, TypeExprKind, UnaryOperator,
};
use crate::lexer::cursor::push_char;
use crate::lexer::display::append_str;
use crate::ast::grammar::{
    arg_list_close, arg_list_end, array_elems_at, basic_kind, binary_at, binary_rest, binop_spec,
    block_at, block_like_shape, block_shape, call_args_at, cast_rest, decl_shape, declaration_at,
    expr_at, expr_shape, exprs_shape, field_views, fn_params_at, function_literal_at,
    generic_call_at, import_at, items_at, items_shape, lemma_exprs_shape_insert_front,
    lemma_exprs_shape_push, lemma_items_shape_push, lemma_lit_fields_shape_push, lemma_shapes_push,
    unfold_array_elems_at, unfold_binary_at, unfold_binary_rest, unfold_block_at,
    unfold_call_args_at, unfold_cast_rest, unfold_declaration_at, unfold_expr_at,
    unfold_function_literal_at, unfold_if_at, unfold_items_at, unfold_stmt_at, decl_head_at, stmt_at,
    item_shape, item_step_at, unfold_item_step_at, ItemStep, unfold_expr_shape, unfold_exprs_shape,
    unfold_lit_fields_shape, unfold_block_shape, unfold_items_shape, unfold_item_shape,
    unfold_decl_shape, lemma_exprs_shape_len, lemma_lit_fields_shape_len, lemma_expr_shape_kind,
    paren_at, if_at, while_at, program_rest, decls_shape, import_paths, unfold_paren_at, unfold_while_at, unfold_lit_fields_at, unfold_postfix_at,
    unfold_postfix_rest, unfold_postfix_step, unfold_primary_at, unfold_struct_literal_at,
    unfold_unary_at, unfold_unary_cast_at,
    lit_fields_at, lit_fields_shape, names_view, param_at, param_views, pipe_shape, place_shape,
    postfix_at, postfix_rest, postfix_step, primary_at, shape, shapes, struct_def_at,
    struct_fields_at, struct_literal_ahead, struct_literal_at, type_args_at, type_at,
    type_params_at, type_params_list_at, unary_at, unary_cast_at, BlockShape, DeclShape, ExprShape,
    ItemShape, TypeParse, TypeShape,
};
use crate::lexer::types::{kind_tag, kind_view, plain, Literal, Span, Token, TokenKind};
use vstd::prelude::*;

verus! {

pub struct Parser {
    iter: TokenIter,
    id_gen: NodeIdGen,
}

/// The precedence and operator of a binary-operator token.
pub fn binary_precedence(kind: &TokenKind) -> (r: Option<(i32, BinaryOperator)>)
    ensures
        r == binop_spec(kind_tag(*kind)),
{
    let t = kind.tag();
    if t == 35 {
        Some((50, BinaryOperator::Mul))
    } else if t == 36 {
        Some((50, BinaryOperator::Div))
    } else if t == 37 {
        Some((50, BinaryOperator::Mod))
    } else if t == 34 {
        Some((45, BinaryOperator::Add))
    } else if t == 33 {
        Some((45, BinaryOperator::Sub))
    } else if t == 44 {
        Some((40, BinaryOperator::Shl))
    } else if t == 45 {
        Some((40, BinaryOperator::Shr))
    } else if t == 38 {
        Some((35, BinaryOperator::Lt))
    } else if t == 40 {
        Some((35, BinaryOperator::Le))
    } else if t == 39 {
        Some((35, BinaryOperator::Gt))
    } else if t == 41 {
        Some((35, BinaryOperator::Ge))
    } else if t == 42 {
        Some((30, BinaryOperator::Eq))
    } else if t == 43 {
        Some((30, BinaryOperator::Ne))
    } else if t == 46 {
        Some((25, BinaryOperator::BitAnd))
    } else if t == 48 {
        Some((20, BinaryOperator::BitXor))
    } else if t == 47 {
        Some((15, BinaryOperator::BitOr))
    } else if t == 49 {
        Some((10, BinaryOperator::And))
    } else if t == 50 {
        Some((5, BinaryOperator::Or))
    } else {
        None
    }
}

pub open spec fn block_like(e: &Expr) -> bool {
    e.kind is Block || e.kind is If || e.kind is While
}

/// Block-like expressions may stand as statements without a `;`.
pub fn is_block_like(expr: &Expr) -> (r: bool)
    ensures
        r == block_like(expr),
{
    match expr.kind {
        ExprKind::Block(_) | ExprKind::If { .. } | ExprKind::While { .. } => true,
        _ => false,
    }
}

pub open spec fn place_expr(e: &Expr) -> bool {
    e.kind is Identifier || e.kind is Subscript || e.kind is Deref || e.kind is Field
        || e.kind is TupleField
}

/// Whether `expr` can stand on the left of `=`.
pub fn is_place_expr(expr: &Expr) -> (r: bool)
    ensures
        r == place_expr(expr),
{
    match expr.kind {
        ExprKind::Identifier(_) | ExprKind::Subscript { .. } | ExprKind::Deref(_)
        | ExprKind::Field { .. } | ExprKind::TupleField { .. } => true,
        _ => false,
    }
}

/// Whether `k` is the identifier spelled `w`.
fn is_word(k: &TokenKind, w: &str) -> (r: bool)
    ensures
        r == (k is Identifier && k->Identifier_0@ == w@),
{
    match k {
        TokenKind::Identifier(name) => {
            let o = w.to_owned();
            *name == o
        },
        _ => false,
    }
}

fn same_text(a: &String, b: &String) -> (r: bool)
    ensures
        r == (a@ == b@),
{
    *a == *b
}

/// The type kind named by a type keyword.
fn basic_type(tag: u8) -> (r: Option<TypeExprKind>)
    ensures
        r is Some <==> 20 <= tag <= 30,
        r == basic_kind(tag as int),
{
    if tag == 20 {
        Some(TypeExprKind::Int)
    } else if tag == 21 {
        Some(TypeExprKind::UInt)
    } else if tag == 22 {
        Some(TypeExprKind::Float)
    } else if tag == 23 {
        Some(TypeExprKind::I8)
    } else if tag == 24 {
        Some(TypeExprKind::I32)
    } else if tag == 25 {
        Some(TypeExprKind::I64)
    } else if tag == 26 {
        Some(TypeExprKind::U8)
    } else if tag == 27 {
        Some(TypeExprKind::U32)
    } else if tag == 28 {
        Some(TypeExprKind::U64)
    } else if tag == 29 {
        Some(TypeExprKind::F32)
    } else if tag == 30 {
        Some(TypeExprKind::F64)
    } else {
        None
    }
}

/// The result of `|>`: `lhs |> f(args)` is `f(lhs, args)`.
pub open spec fn piped(lhs: Expr, rhs: Expr, r: Expr) -> bool {
    &&& rhs.kind matches ExprKind::Call { callee: c0, type_args: t0, args: a0 }
    &&& r.kind matches ExprKind::Call { callee, type_args, args }
    &&& callee == c0
    &&& type_args == t0
    &&& args@ == a0@.insert(0, lhs)
    &&& r.span == (Span { start: lhs.span.start, end: rhs.span.end })
}

pub proof fn lemma_place_shape(e: Expr)
    ensures
        place_shape(expr_shape(e)) == place_expr(&e),
{
    unfold_expr_shape(e);
}

pub proof fn lemma_block_like_shape(e: Expr)
    ensures
        block_like_shape(expr_shape(e)) == block_like(&e),
{
    unfold_expr_shape(e);
}

/// What comes next in a block.
enum BlockEntry {
    Item(BlockItem),
    Tail(Expr),
    End,
}

spec fn entry_shape(e: BlockEntry) -> ItemStep {
    match e {
        BlockEntry::Item(i) => ItemStep::Item(item_shape(i)),
        BlockEntry::Tail(x) => ItemStep::Tail(expr_shape(x)),
        BlockEntry::End => ItemStep::Close,
    }
}

/// Whether `r`, leaving the parser at `q`, is the outcome `o`.
pub open spec fn expr_parsed(r: Result<Expr, Error>, o: Option<(ExprShape, int)>, q: int) -> bool {
    match r {
        Ok(e) => o == Some((expr_shape(e), q)),
        Err(_) => o is None,
    }
}

/// Whether `r`, leaving the parser at `q`, is the outcome `o`.
pub open spec fn block_parsed(r: Result<Block, Error>, o: Option<(BlockShape, int)>, q: int) -> bool {
    match r {
        Ok(b) => o == Some((block_shape(b), q)),
        Err(_) => o is None,
    }
}

/// Whether `r`, leaving the parser at `q`, is the outcome `o`.
pub open spec fn decl_parsed(r: Result<Declaration, Error>, o: Option<(DeclShape, int)>, q: int) -> bool {
    match r {
        Ok(d) => o == Some((decl_shape(d), q)),
        Err(_) => o is None,
    }
}

/// Whether `r`, leaving the parser at `q`, is the outcome `o`.
pub open spec fn parsed_as(r: Result<TypeExpr, Error>, o: TypeParse, q: int) -> bool {
    match r {
        Ok(t) => o == TypeParse::Parsed(shape(t), q),
        Err(_) => o is Fail,
    }
}
impl Parser {
    pub closed spec fn toks(&self) -> Seq<Token> {
        self.iter.toks()
    }

    pub closed spec fn pos(&self) -> int {
        self.iter.pos()
    }

    pub closed spec fn next_id(&self) -> int {
        self.id_gen.spec_next() as int
    }

    pub closed spec fn remaining(&self) -> nat {
        (self.iter.toks().len() - self.iter.pos()) as nat
    }

    /// Ids still available, counting three per unread token.
    pub closed spec fn potential(&self) -> int {
        self.next_id() + 3 * (self.toks().len() - self.pos())
    }

    pub closed spec fn wf(&self) -> bool {
        &&& self.iter.wf()
        &&& 0 <= self.pos() < self.toks().len()
        &&& self.toks().len() > 0
        &&& self.toks().last().kind is Eof
        &&& self.potential() <= u32::MAX
    }

    /// `o` is a later state of the same parse.
    pub closed spec fn steps_to(&self, o: &Parser) -> bool {
        &&& o.wf()
        &&& o.toks() == self.toks()
        &&& o.pos() >= self.pos()
        &&& o.next_id() >= self.next_id()
        &&& o.potential() <= self.potential()
    }

    /// Going from `self` to `o` consumed tokens worth at least `s` more than
    /// the ids it handed out.
    pub closed spec fn gains(&self, o: &Parser, s: int) -> bool {
        o.potential() + s <= self.potential()
    }

    pub closed spec fn cur(&self) -> Token {
        self.toks()[self.pos()]
    }

    pub closed spec fn nth(&self, n: int) -> Option<Token> {
        if self.pos() + n < self.toks().len() {
            Some(self.toks()[self.pos() + n])
        } else {
            None
        }
    }

    pub open spec fn tokens_ok(tokens: Seq<Token>, base: int) -> bool {
        &&& tokens.len() > 0
        &&& tokens.last().kind is Eof
        &&& base + 3 * tokens.len() <= u32::MAX
    }

    pub fn new(tokens: Vec<Token>) -> (r: Parser)
        requires
            Self::tokens_ok(tokens@, 0),
        ensures
            r.wf(),
            r.toks() == tokens@,
            r.pos() == 0,
            r.next_id() == 0,
    {
        Parser { iter: TokenIter::new(tokens), id_gen: NodeIdGen::new() }
    }

    /// Like `new`, but starts node numbering at `node_base` so ids are unique
    /// across the files merged by the module loader.
    pub fn new_at(tokens: Vec<Token>, node_base: u32) -> (r: Parser)
        requires
            Self::tokens_ok(tokens@, node_base as int),
        ensures
            r.wf(),
            r.toks() == tokens@,
            r.pos() == 0,
            r.next_id() == node_base,
    {
        Parser { iter: TokenIter::new(tokens), id_gen: NodeIdGen::with_next(node_base) }
    }

    /// The next node id this parser would hand out.
    pub fn node_id_count(&self) -> (r: u32)
        ensures
            r == self.next_id(),
    {
        self.id_gen.next_value()
    }

    fn peek(&self) -> (r: &Token)
        requires
            self.wf(),
        ensures
            *r == self.cur(),
    {
        self.iter.current()
    }

    fn tag(&self) -> (r: u8)
        requires
            self.wf(),
        ensures
            r == kind_tag(self.cur().kind),
    {
        self.peek().kind.tag()
    }

    fn nth_tag(&self, n: usize) -> (r: Option<u8>)
        requires
            self.wf(),
        ensures
            match r {
                Some(t) => self.nth(n as int) matches Some(tok) && t == kind_tag(tok.kind),
                None => self.nth(n as int) is None,
            },
    {
        match self.iter.peek_nth(n) {
            Some(t) => Some(t.kind.tag()),
            None => None,
        }
    }

    fn fresh(&mut self) -> (id: NodeId)
        requires
            old(self).wf(),
            old(self).potential() < u32::MAX,
        ensures
            final(self).wf(),
            final(self).toks() == old(self).toks(),
            final(self).pos() == old(self).pos(),
            final(self).next_id() == old(self).next_id() + 1,
            final(self).potential() == old(self).potential() + 1,
            id.spec_value() == old(self).next_id(),
    {
        self.id_gen.fresh()
    }

    /// Reads the current token. The end marker is never passed.
    fn advance(&mut self) -> (t: Token)
        requires
            old(self).wf(),
        ensures
            old(self).steps_to(final(self)),
            kind_view(t.kind) == kind_view(old(self).cur().kind),
            kind_tag(t.kind) == kind_tag(old(self).cur().kind),
            t.span == old(self).cur().span,
            kind_tag(old(self).cur().kind) != 63 ==> final(self).pos() == old(self).pos() + 1
                && old(self).gains(final(self), 3),
    {
        let ghost len = self.toks().len();
        proof {
            if self.pos() == len - 1 {
                assert(self.cur() == self.toks().last());
            }
        }
        let r = self.iter.consume();
        r.unwrap()
    }

    /// Whether the current token has the same variant as `kind`.
    fn check(&self, kind: TokenKind) -> (r: bool)
        requires
            self.wf(),
        ensures
            r == (kind_tag(self.cur().kind) == kind_tag(kind)),
    {
        self.tag() == kind.tag()
    }

    fn eof(&self) -> (r: bool)
        requires
            self.wf(),
        ensures
            r == (self.cur().kind is Eof),
    {
        self.tag() == 63
    }

    fn check_is_unop(&self) -> (r: bool)
        requires
            self.wf(),
        ensures
            r == (kind_tag(self.cur().kind) == 33 || kind_tag(self.cur().kind) == 52
                || kind_tag(self.cur().kind) == 46 || kind_tag(self.cur().kind) == 35),
    {
        let t = self.tag();
        t == 33 || t == 52 || t == 46 || t == 35
    }

    /// Consumes a token of kind `kind`, or fails at the current token.
    fn expect(&mut self, kind: TokenKind) -> (r: Result<Token, Error>)
        requires
            old(self).wf(),
            kind_view(kind) == plain(kind_tag(kind)),
            kind_tag(kind) != 63,
        ensures
            old(self).steps_to(final(self)),
            r is Ok <==> kind_tag(old(self).cur().kind) == kind_tag(kind),
            r matches Ok(t) ==> t.span == old(self).cur().span && final(self).pos() == old(
                self,
            ).pos() + 1 && old(self).gains(final(self), 3),
            r matches Err(e) ==> e.span == old(self).cur().span,
    {
        let tok = self.advance();
        if tok.kind.tag() == kind.tag() {
            Ok(tok)
        } else {
            let d = kind.describe();
            Err(Error::unexpected(&tok, d.as_str()))
        }
    }

    /// Consumes an identifier and returns its name, or fails.
    fn ident(&mut self) -> (r: Result<String, Error>)
        requires
            old(self).wf(),
        ensures
            old(self).steps_to(final(self)),
            r is Ok <==> old(self).cur().kind is Identifier,
            r matches Ok(name) ==> name@ == old(self).cur().kind->Identifier_0@ && final(self).pos()
                == old(self).pos() + 1 && old(self).gains(final(self), 3),
            r matches Err(e) ==> e.span == old(self).cur().span,
    {
        let tok = self.advance();
        match tok.kind {
            TokenKind::Identifier(ident) => Ok(ident),
            _ => Err(Error::unexpected(&tok, "identifier")),
        }
    }

    pub fn parse(&mut self) -> (r: Result<Program, Error>)
        requires
            old(self).wf(),
        ensures
            old(self).steps_to(final(self)),
            final(self).next_id() >= old(self).next_id(),
            r matches Ok(p) ==> p.declarations.len() + p.imports.len() > 0,
            match program_rest(old(self).toks(), old(self).pos(), Seq::empty(), Seq::empty()) {
                Some((ds, is)) => r matches Ok(p) && decls_shape(p.declarations@) == ds
                    && import_paths(p.imports@) == is,
                None => r is Err,
            },
    {
        self.parse_program()
    }

    /// A whole file: declarations and imports up to the end marker. An
    /// empty file is an error.
    pub fn parse_program(&mut self) -> (r: Result<Program, Error>)
        requires
            old(self).wf(),
        ensures
            old(self).steps_to(final(self)),
            r matches Ok(p) ==> p.declarations.len() + p.imports.len() > 0,
            r is Ok ==> final(self).cur().kind is Eof,
            match program_rest(old(self).toks(), old(self).pos(), Seq::empty(), Seq::empty()) {
                Some((ds, is)) => r matches Ok(p) && decls_shape(p.declarations@) == ds
                    && import_paths(p.imports@) == is,
                None => r is Err,
            },
    {
        let ghost ts = self.toks();
        let ghost p0 = self.pos();
        let mut declarations: Vec<Declaration> = Vec::new();
        let mut imports: Vec<ImportDecl> = Vec::new();
        assert(decls_shape(declarations@) =~= Seq::<DeclShape>::empty());
        assert(import_paths(imports@) =~= Seq::<Seq<char>>::empty());
        while !self.eof()
            invariant
                old(self).steps_to(self),
                ts == old(self).toks(),
                p0 == old(self).pos(),
                program_rest(ts, p0, Seq::empty(), Seq::empty()) == program_rest(
                    ts,
                    self.pos(),
                    decls_shape(declarations@),
                    import_paths(imports@),
                ),
            decreases self.remaining(),
        {
            if self.check(TokenKind::Import) {
                let i = self.parse_import()?;
                proof {
                    assert(import_paths(imports@.push(i)) =~= import_paths(imports@).push(i.path@));
                }
                imports.push(i);
            } else {
                let d = self.parse_declaration()?;
                proof {
                    assert(decls_shape(declarations@.push(d)) =~= decls_shape(declarations@).push(
                        decl_shape(d),
                    ));
                }
                declarations.push(d);
            }
        }
        if declarations.len() == 0 && imports.len() == 0 {
            return Err(Error::unexpected(self.peek(), "declaration"));
        }
        let span = if declarations.len() > 0 {
            declarations[0].span.join(declarations[declarations.len() - 1].span)
        } else {
            imports[0].span.join(imports[imports.len() - 1].span)
        };
        Ok(Program { span, declarations, imports })
    }

    fn parse_import(&mut self) -> (r: Result<ImportDecl, Error>)
        requires
            old(self).wf(),
        ensures
            old(self).steps_to(final(self)),
            r is Ok ==> old(self).gains(final(self), 1),
            match import_at(old(self).toks(), old(self).pos()) {
                Some((path, q)) => r matches Ok(i) && i.path@ == path && final(self).pos() == q,
                None => r is Err,
            },
    {
        let start = self.expect(TokenKind::Import)?.span;
        let tok = self.advance();
        let path = match tok.kind {
            TokenKind::Literal(Literal::Str(p)) => p,
            _ => {
                return Err(Error::unexpected(&tok, "a module path string"));
            },
        };
        let end = self.expect(TokenKind::Semicolon)?.span;
        Ok(ImportDecl { span: start.join(end), path })
    }

    /// `[#comptime] let [mut] name [: T] = expr;`
    pub fn parse_declaration(&mut self) -> (r: Result<Declaration, Error>)
        requires
            old(self).wf(),
        ensures
            old(self).steps_to(final(self)),
            r is Ok ==> old(self).gains(final(self), 1),
            decl_parsed(r, declaration_at(old(self).toks(), old(self).pos()), final(self).pos()),
            r matches Ok(d) ==> d.span == (Span { start: old(self).cur().span.start, end: d.value.span.end }),
        decreases old(self).remaining(), 10nat,
    {
        proof {
            unfold_declaration_at(self.toks(), self.pos());
        }
        let (comptime, mutable, name, start) = self.parse_decl_head()?;
        let ty = if self.check(TokenKind::Colon) {
            self.expect(TokenKind::Colon)?;
            Some(self.parse_type()?)
        } else {
            None
        };
        self.expect(TokenKind::Equal)?;
        let expr = self.parse_expr()?;
        self.expect(TokenKind::Semicolon)?;
        let span = start.join(expr.span);
        let d = Declaration { id: self.fresh(), span, mutable, comptime, name, ty, value: expr };
        proof {
            unfold_decl_shape(d);
        }
        Ok(d)
    }

    /// `[#comptime] let [mut] name`: whether the declaration is comptime,
    /// whether it is mutable, its name and where it starts.
    fn parse_decl_head(&mut self) -> (r: Result<(bool, bool, String, Span), Error>)
        requires
            old(self).wf(),
        ensures
            old(self).steps_to(final(self)),
            r is Ok ==> old(self).gains(final(self), 3),
            match decl_head_at(old(self).toks(), old(self).pos()) {
                Some((c, m, n, q)) => r matches Ok((c2, m2, n2, _)) && c2 == c && m2 == m && n2@
                    == n && final(self).pos() == q,
                None => r is Err,
            },
            r matches Ok(h) ==> h.3 == old(self).cur().span,
    {
        let mut comptime = false;
        let mut attr_span: Option<Span> = None;
        if self.check(TokenKind::Hash) {
            let hash = self.expect(TokenKind::Hash)?;
            let name_tok = self.advance();
            if !is_word(&name_tok.kind, "comptime") {
                return Err(Error::unexpected(&name_tok, "`comptime`"));
            }
            comptime = true;
            attr_span = Some(hash.span);
        }
        let let_span = self.expect(TokenKind::Let)?.span;
        let start = match attr_span {
            Some(s) => s,
            None => let_span,
        };
        let mutable = if is_word(&self.peek().kind, "mut") && self.nth_tag(1) == Some(31u8) {
            self.advance();
            true
        } else {
            false
        };
        let name = self.ident()?;
        Ok((comptime, mutable, name, start))
    }

    fn new_type(&mut self, span: Span, kind: TypeExprKind) -> (t: TypeExpr)
        requires
            old(self).wf(),
            old(self).potential() < u32::MAX,
        ensures
            final(self).wf(),
            final(self).toks() == old(self).toks(),
            final(self).pos() == old(self).pos(),
            final(self).next_id() == old(self).next_id() + 1,
            final(self).potential() == old(self).potential() + 1,
            t.span == span,
            t.kind == kind,
    {
        TypeExpr { id: self.fresh(), span, kind }
    }

    fn new_expr(&mut self, span: Span, kind: ExprKind) -> (e: Expr)
        requires
            old(self).wf(),
            old(self).potential() < u32::MAX,
        ensures
            final(self).wf(),
            final(self).toks() == old(self).toks(),
            final(self).pos() == old(self).pos(),
            final(self).next_id() == old(self).next_id() + 1,
            final(self).potential() == old(self).potential() + 1,
            e.span == span,
            e.kind == kind,
    {
        Expr { id: self.fresh(), span, kind }
    }

    pub fn parse_type(&mut self) -> (r: Result<TypeExpr, Error>)
        requires
            old(self).wf(),
        ensures
            old(self).steps_to(final(self)),
            r is Ok ==> old(self).gains(final(self), 2),
            parsed_as(r, type_at(old(self).toks(), old(self).pos()), final(self).pos()),
            r matches Ok(t) ==> t.span.start == old(self).cur().span.start && t.span.end == old(
                self,
            ).toks()[final(self).pos() - 1].span.end,
        decreases old(self).remaining(), 3nat,
    {
        let tag = self.tag();
        match basic_type(tag) {
            Some(kind) => {
                let span = self.advance().span;
                return Ok(self.new_type(span, kind));
            },
            None => {},
        }
        if tag == 31 {
            if self.nth_tag(1) == Some(38u8) {
                return self.parse_named_generic_type();
            }
            let span = self.peek().span;
            let name = self.ident()?;
            Ok(self.new_type(span, TypeExprKind::Named(name)))
        } else if tag == 35 {
            self.parse_ptr_type()
        } else if tag == 2 {
            self.parse_function_type()
        } else if tag == 4 {
            self.parse_array_type()
        } else if tag == 53 {
            self.parse_generic_type()
        } else {
            Err(Error::unexpected(self.peek(), "type"))
        }
    }

    /// `Name<T, U>` in type position.
    fn parse_named_generic_type(&mut self) -> (r: Result<TypeExpr, Error>)
        requires
            old(self).wf(),
            old(self).cur().kind is Identifier,
            old(self).nth(1) matches Some(t) && kind_tag(t.kind) == 38,
        ensures
            old(self).steps_to(final(self)),
            r is Ok ==> old(self).gains(final(self), 2),
            parsed_as(r, type_at(old(self).toks(), old(self).pos()), final(self).pos()),
            r matches Ok(t) ==> t.span.start == old(self).cur().span.start && t.span.end == old(
                self,
            ).toks()[final(self).pos() - 1].span.end,
        decreases old(self).remaining(), 2nat,
    {
        let ghost ts = self.toks();
        let start = self.peek().span;
        let name = self.ident()?;
        self.expect(TokenKind::LessThan)?;
        let mut args: Vec<TypeExpr> = Vec::new();
        assert(shapes(args@) =~= Seq::<TypeShape>::empty());
        while !self.check(TokenKind::GreaterThan)
            invariant
                old(self).steps_to(self),
                old(self).gains(self, 6),
                ts == old(self).toks(),
                type_at(ts, old(self).pos()) == type_args_at(ts, self.pos(), name@, shapes(args@)),
            ensures
                kind_tag(self.cur().kind) == 39,
            decreases self.remaining(),
        {
            if args.len() > 0 {
                self.expect(TokenKind::Comma)?;
                if self.check(TokenKind::GreaterThan) {
                    break;
                }
            }
            let ghost before = self.pos();
            let a = self.parse_type()?;
            proof {
                lemma_shapes_push(args@, a);
                assert(before < self.pos());
            }
            args.push(a);
        }
        let end = self.expect(TokenKind::GreaterThan)?.span;
        Ok(self.new_type(start.join(end), TypeExprKind::NamedGeneric { name, args }))
    }

    /// `$T` — a generic type parameter, named with its `$`.
    pub fn parse_generic_type(&mut self) -> (r: Result<TypeExpr, Error>)
        requires
            old(self).wf(),
        ensures
            old(self).steps_to(final(self)),
            r is Ok ==> old(self).gains(final(self), 2),
            kind_tag(old(self).cur().kind) == 53 ==> parsed_as(
                r,
                type_at(old(self).toks(), old(self).pos()),
                final(self).pos(),
            ),
            kind_tag(old(self).cur().kind) != 53 ==> r is Err,
            r matches Ok(t) ==> t.span.start == old(self).cur().span.start && t.span.end == old(
                self,
            ).toks()[final(self).pos() - 1].span.end,
        decreases old(self).remaining(), 2nat,
    {
        let tok = self.expect(TokenKind::Dollar)?;
        if self.tag() != 31 {
            return Err(Error::unexpected(self.peek(), "named type"));
        }
        let end = self.peek().span;
        let name = self.ident()?;
        let mut full = String::new();
        push_char(&mut full, '$');
        append_str(&mut full, name.as_str());
        Ok(self.new_type(tok.span.join(end), TypeExprKind::Named(full)))
    }

    pub fn parse_ptr_type(&mut self) -> (r: Result<TypeExpr, Error>)
        requires
            old(self).wf(),
        ensures
            old(self).steps_to(final(self)),
            r is Ok ==> old(self).gains(final(self), 2),
            kind_tag(old(self).cur().kind) == 35 ==> parsed_as(
                r,
                type_at(old(self).toks(), old(self).pos()),
                final(self).pos(),
            ),
            kind_tag(old(self).cur().kind) != 35 ==> r is Err,
            r matches Ok(t) ==> t.span.start == old(self).cur().span.start && t.span.end == old(
                self,
            ).toks()[final(self).pos() - 1].span.end,
        decreases old(self).remaining(), 2nat,
    {
        let start = self.expect(TokenKind::Star)?.span;
        let target = self.parse_type()?;
        let span = start.join(target.span);
        Ok(self.new_type(span, TypeExprKind::Ptr(Box::new(target))))
    }

    /// `[T; n]` with a non-negative integer literal `n`.
    pub fn parse_array_type(&mut self) -> (r: Result<TypeExpr, Error>)
        requires
            old(self).wf(),
        ensures
            old(self).steps_to(final(self)),
            r is Ok ==> old(self).gains(final(self), 2),
            kind_tag(old(self).cur().kind) == 4 ==> parsed_as(
                r,
                type_at(old(self).toks(), old(self).pos()),
                final(self).pos(),
            ),
            kind_tag(old(self).cur().kind) != 4 ==> r is Err,
            r matches Ok(t) ==> t.span.start == old(self).cur().span.start && t.span.end == old(
                self,
            ).toks()[final(self).pos() - 1].span.end,
        decreases old(self).remaining(), 2nat,
    {
        let start = self.expect(TokenKind::LeftBracket)?.span;
        let element_ty = self.parse_type()?;
        self.expect(TokenKind::Semicolon)?;
        let count_tok = self.advance();
        let count: usize = match count_tok.kind {
            TokenKind::Literal(Literal::Int(n)) => {
                if n >= 0 {
                    n as usize
                } else {
                    return Err(Error::unexpected(&count_tok, "non-negative integer literal"));
                }
            },
            _ => {
                return Err(Error::unexpected(&count_tok, "non-negative integer literal"));
            },
        };
        let end = self.expect(TokenKind::RightBracket)?.span;
        Ok(
            self.new_type(
                start.join(end),
                TypeExprKind::Array { element_ty: Box::new(element_ty), count },
            ),
        )
    }

    /// `(T, U) -> R`.
    pub fn parse_function_type(&mut self) -> (r: Result<TypeExpr, Error>)
        requires
            old(self).wf(),
        ensures
            old(self).steps_to(final(self)),
            r is Ok ==> old(self).gains(final(self), 2),
            kind_tag(old(self).cur().kind) == 2 ==> parsed_as(
                r,
                type_at(old(self).toks(), old(self).pos()),
                final(self).pos(),
            ),
            kind_tag(old(self).cur().kind) != 2 ==> r is Err,
            r matches Ok(t) ==> t.span.start == old(self).cur().span.start && t.span.end == old(
                self,
            ).toks()[final(self).pos() - 1].span.end,
        decreases old(self).remaining(), 2nat,
    {
        let ghost ts = self.toks();
        let left = self.expect(TokenKind::LeftParen)?.span;
        let mut params: Vec<TypeExpr> = Vec::new();
        assert(shapes(params@) =~= Seq::<TypeShape>::empty());
        while !self.check(TokenKind::RightParen)
            invariant
                old(self).steps_to(self),
                old(self).gains(self, 3),
                ts == old(self).toks(),
                type_at(ts, old(self).pos()) == type_params_at(ts, self.pos(), shapes(params@)),
            decreases self.remaining(),
        {
            if params.len() > 0 {
                self.expect(TokenKind::Comma)?;
            }
            let ghost before = self.pos();
            let p = self.parse_type()?;
            proof {
                lemma_shapes_push(params@, p);
                assert(before < self.pos());
            }
            params.push(p);
        }
        self.expect(TokenKind::RightParen)?;
        self.expect(TokenKind::Minus)?;
        self.expect(TokenKind::GreaterThan)?;
        let return_ty = self.parse_type()?;
        let span = left.join(return_ty.span);
        Ok(self.new_type(span, TypeExprKind::Function { params, return_ty: Box::new(return_ty) }))
    }

    /// `name: T`.
    pub fn parse_param(&mut self) -> (r: Result<Param, Error>)
        requires
            old(self).wf(),
        ensures
            old(self).steps_to(final(self)),
            r is Ok ==> old(self).gains(final(self), 2),
            match param_at(old(self).toks(), old(self).pos()) {
                Some((name, t, q)) => r matches Ok(prm) && prm.name@ == name && shape(prm.ty) == t
                    && final(self).pos() == q,
                None => r is Err,
            },
            r matches Ok(t) ==> t.span.start == old(self).cur().span.start && t.span.end == old(
                self,
            ).toks()[final(self).pos() - 1].span.end,
    {
        let start = self.peek().span;
        let name = self.ident()?;
        self.expect(TokenKind::Colon)?;
        let ty = self.parse_type()?;
        let span = start.join(ty.span);
        Ok(Param { id: self.fresh(), span, name, ty })
    }

    fn new_statement(&mut self, span: Span, kind: StatementKind) -> (s: Statement)
        requires
            old(self).wf(),
            old(self).potential() < u32::MAX,
        ensures
            final(self).wf(),
            final(self).toks() == old(self).toks(),
            final(self).pos() == old(self).pos(),
            final(self).next_id() == old(self).next_id() + 1,
            final(self).potential() == old(self).potential() + 1,
            s.span == span,
            s.kind == kind,
    {
        Statement { id: self.fresh(), span, kind }
    }

    /// `return [expr];`, `break;` or `defer expr;`.
    fn parse_statement(&mut self) -> (r: Result<Statement, Error>)
        requires
            old(self).wf(),
        ensures
            old(self).steps_to(final(self)),
            r is Ok ==> old(self).gains(final(self), 5),
            match stmt_at(old(self).toks(), old(self).pos()) {
                Some((it, q)) => r matches Ok(st) && item_shape(BlockItem::Statement(st)) == it
                    && final(self).pos() == q,
                None => r is Err,
            },
        decreases old(self).remaining(), 10nat,
    {
        proof {
            unfold_stmt_at(self.toks(), self.pos());
        }
        let tag = self.tag();
        if tag == 7 {
            let start = self.expect(TokenKind::Return)?.span;
            let expr = if self.check(TokenKind::Semicolon) {
                None
            } else {
                Some(self.parse_expr()?)
            };
            let end = self.expect(TokenKind::Semicolon)?.span;
            let st = self.new_statement(start.join(end), StatementKind::Return(expr));
            proof {
                unfold_item_shape(BlockItem::Statement(st));
            }
            Ok(st)
        } else if tag == 15 {
            let start = self.expect(TokenKind::Break)?.span;
            let end = self.expect(TokenKind::Semicolon)?.span;
            let st = self.new_statement(start.join(end), StatementKind::Break);
            proof {
                unfold_item_shape(BlockItem::Statement(st));
            }
            Ok(st)
        } else if tag == 16 {
            let start = self.expect(TokenKind::Defer)?.span;
            let expr = self.parse_expr()?;
            let end = self.expect(TokenKind::Semicolon)?.span;
            let st = self.new_statement(start.join(end), StatementKind::Defer(expr));
            proof {
                unfold_item_shape(BlockItem::Statement(st));
            }
            Ok(st)
        } else {
            Err(Error::unexpected(self.peek(), "statement"))
        }
    }

    /// `{ items [tail] }`. A bare expression is a statement when `;`
    /// follows it, the tail when `}` follows it, and a statement without
    /// `;` when it is block-like (a block, `if` or `while`).
    pub fn parse_block(&mut self) -> (r: Result<Block, Error>)
        requires
            old(self).wf(),
        ensures
            old(self).steps_to(final(self)),
            r is Ok ==> old(self).gains(final(self), 5),
            block_parsed(r, block_at(old(self).toks(), old(self).pos()), final(self).pos()),
            r matches Ok(t) ==> t.span.start == old(self).cur().span.start && t.span.end == old(
                self,
            ).toks()[final(self).pos() - 1].span.end,
        decreases old(self).remaining(), 3nat,
    {
        let ghost ts = self.toks();
        let ghost p0 = self.pos();
        proof {
            unfold_block_at(ts, p0);
        }
        let left = self.expect(TokenKind::LeftBrace)?.span;
        let mut items: Vec<BlockItem> = Vec::new();
        let mut tail: Option<Box<Expr>> = None;
        proof {
            unfold_items_shape(items@);
        }
        assert(items_shape(items@) =~= Seq::<ItemShape>::empty());
        loop
            invariant_except_break
                tail is None,
                block_at(ts, p0) == items_at(ts, self.pos(), items_shape(items@)),
            invariant
                old(self).steps_to(self),
                old(self).gains(self, 3),
                ts == old(self).toks(),
                p0 == old(self).pos(),
            ensures
                old(self).steps_to(self),
                old(self).gains(self, 3),
                kind_tag(self.cur().kind) == 1,
                block_at(ts, p0) == Some(
                    (
                        BlockShape {
                            items: items_shape(items@),
                            tail: match tail {
                                Some(x) => Some(Box::new(expr_shape(*x))),
                                None => None,
                            },
                        },
                        self.pos() + 1,
                    ),
                ),
            decreases self.remaining(),
        {
            proof {
                unfold_items_at(ts, self.pos(), items_shape(items@));
            }
            let ghost before = items@;
            match self.parse_block_entry()? {
                BlockEntry::End => {
                    break;
                },
                BlockEntry::Tail(x) => {
                    tail = Some(Box::new(x));
                    break;
                },
                BlockEntry::Item(item) => {
                    proof {
                        lemma_items_shape_push(before, item);
                    }
                    items.push(item);
                },
            }
        }
        let right = self.expect(TokenKind::RightBrace)?.span;
        let b = Block { id: self.fresh(), span: left.join(right), items, tail };
        proof {
            unfold_block_shape(b);
        }
        Ok(b)
    }

    /// The next entry of a block: an item, the tail expression, or the end
    /// (the closing `}` is left unread).
    fn parse_block_entry(&mut self) -> (r: Result<BlockEntry, Error>)
        requires
            old(self).wf(),
        ensures
            old(self).steps_to(final(self)),
            r matches Ok(BlockEntry::Item(_)) ==> final(self).pos() > old(self).pos(),
            r matches Ok(BlockEntry::End) ==> final(self).pos() == old(self).pos(),
            match item_step_at(old(self).toks(), old(self).pos()) {
                Some((st, q)) => r matches Ok(en) && entry_shape(en) == st && final(self).pos() == q,
                None => r is Err,
            },
            r matches Ok(BlockEntry::End) ==> kind_tag(final(self).cur().kind) == 1,
            r matches Ok(BlockEntry::Tail(_)) ==> kind_tag(final(self).cur().kind) == 1,
        decreases old(self).remaining(), 11nat,
    {
        proof {
            unfold_item_step_at(self.toks(), self.pos());
        }
        let tag = self.tag();
        if tag == 1 {
            return Ok(BlockEntry::End);
        }
        if tag == 6 || tag == 54 {
            let decl = self.parse_declaration()?;
            proof {
                unfold_item_shape(BlockItem::Declaration(decl));
            }
            return Ok(BlockEntry::Item(BlockItem::Declaration(decl)));
        }
        if tag == 7 || tag == 15 || tag == 16 {
            let st = self.parse_statement()?;
            return Ok(BlockEntry::Item(BlockItem::Statement(st)));
        }
        self.parse_expr_entry()
    }

    /// An expression in a block: a statement when `;` or nothing (for a
    /// block, `if` or `while`) follows it, the tail when `}` follows it.
    fn parse_expr_entry(&mut self) -> (r: Result<BlockEntry, Error>)
        requires
            old(self).wf(),
            !(kind_tag(old(self).cur().kind) == 1 || kind_tag(old(self).cur().kind) == 6 || kind_tag(
                old(self).cur().kind,
            ) == 54 || kind_tag(old(self).cur().kind) == 7 || kind_tag(old(self).cur().kind) == 15
                || kind_tag(old(self).cur().kind) == 16),
        ensures
            old(self).steps_to(final(self)),
            r is Ok ==> final(self).pos() > old(self).pos(),
            r is Ok ==> !(r matches Ok(BlockEntry::End)),
            match item_step_at(old(self).toks(), old(self).pos()) {
                Some((st, q)) => r matches Ok(en) && entry_shape(en) == st && final(self).pos() == q,
                None => r is Err,
            },
            r matches Ok(BlockEntry::Tail(_)) ==> kind_tag(final(self).cur().kind) == 1,
        decreases old(self).remaining(), 10nat,
    {
        proof {
            unfold_item_step_at(self.toks(), self.pos());
        }
        let expr = self.parse_expr()?;
        proof {
            lemma_block_like_shape(expr);
        }
        let after = self.tag();
        if after == 59 {
            let end = self.expect(TokenKind::Semicolon)?.span;
            let span = expr.span.join(end);
            let s = self.new_statement(span, StatementKind::Expr(expr));
            proof {
                unfold_item_shape(BlockItem::Statement(s));
            }
            Ok(BlockEntry::Item(BlockItem::Statement(s)))
        } else if after == 1 {
            Ok(BlockEntry::Tail(expr))
        } else if is_block_like(&expr) {
            let span = expr.span;
            let s = self.new_statement(span, StatementKind::Expr(expr));
            proof {
                unfold_item_shape(BlockItem::Statement(s));
            }
            Ok(BlockEntry::Item(BlockItem::Statement(s)))
        } else {
            Err(Error::unexpected(self.peek(), "`;` or `}`"))
        }
    }

    /// An expression, with assignment (`place = value`, right-associative,
    /// lowest precedence).
    pub fn parse_expr(&mut self) -> (r: Result<Expr, Error>)
        requires
            old(self).wf(),
        ensures
            old(self).steps_to(final(self)),
            r is Ok ==> old(self).gains(final(self), 1),
            expr_parsed(r, expr_at(old(self).toks(), old(self).pos()), final(self).pos()),
            r matches Ok(t) ==> t.span.start == old(self).cur().span.start && t.span.end == old(
                self,
            ).toks()[final(self).pos() - 1].span.end,
        decreases old(self).remaining(), 9nat,
    {
        let ghost ts = self.toks();
        let ghost p = self.pos();
        proof {
            unfold_expr_at(ts, p);
        }
        let lhs = self.parse_binary_expr(0)?;
        if self.check(TokenKind::Equal) {
            self.expect(TokenKind::Equal)?;
            proof {
                lemma_place_shape(lhs);
            }
            if !is_place_expr(&lhs) {
                let at = Token { kind: TokenKind::Equal, span: lhs.span };
                return Err(Error::unexpected(&at, "assignable place expression on the left of `=`"));
            }
            let value = self.parse_expr()?;
            let span = lhs.span.join(value.span);
            let made = self.new_expr(span, ExprKind::Assign { target: Box::new(lhs), value: Box::new(value) });
            proof {
                unfold_expr_shape(made);
            }
            return Ok(made);
        }
        Ok(lhs)
    }

    /// Precedence climbing over operators of precedence at least `min_prec`.
    fn parse_binary_expr(&mut self, min_prec: i32) -> (r: Result<Expr, Error>)
        requires
            old(self).wf(),
            0 <= min_prec <= 51,
        ensures
            old(self).steps_to(final(self)),
            r is Ok ==> old(self).gains(final(self), 1),
            expr_parsed(r, binary_at(old(self).toks(), old(self).pos(), min_prec as int), final(self).pos()),
            r matches Ok(t) ==> t.span.start == old(self).cur().span.start && t.span.end == old(
                self,
            ).toks()[final(self).pos() - 1].span.end,
        decreases old(self).remaining(), 8nat,
    {
        let ghost ts = self.toks();
        let ghost p0 = self.pos();
        proof {
            unfold_binary_at(ts, p0, min_prec as int);
        }
        let mut lhs = self.parse_unary_with_cast()?;
        loop
            invariant
                old(self).steps_to(self),
                old(self).gains(self, 1),
                ts == old(self).toks(),
                p0 == old(self).pos(),
                0 <= min_prec <= 51,
                binary_at(ts, p0, min_prec as int) == binary_rest(
                    ts,
                    self.pos(),
                    expr_shape(lhs),
                    min_prec as int,
                ),
                lhs.span.start == old(self).cur().span.start,
                lhs.span.end == ts[self.pos() - 1].span.end,
            ensures
                old(self).steps_to(self),
                old(self).gains(self, 1),
                binary_at(ts, p0, min_prec as int) == Some((expr_shape(lhs), self.pos())),
                lhs.span.start == old(self).cur().span.start,
                lhs.span.end == ts[self.pos() - 1].span.end,
            decreases self.remaining(),
        {
            proof {
                unfold_binary_rest(ts, self.pos(), expr_shape(lhs), min_prec as int);
            }
            if self.check(TokenKind::PipeArrow) {
                if 1 < min_prec {
                    break;
                }
                self.expect(TokenKind::PipeArrow)?;
                let rhs = self.parse_binary_expr(2)?;
                lhs = self.splice_pipe(lhs, rhs)?;
                continue;
            }
            let found = binary_precedence(&self.peek().kind);
            match found {
                None => {
                    break;
                },
                Some((prec, op)) => {
                    if prec < min_prec {
                        break;
                    }
                    self.advance();
                    let rhs = self.parse_binary_expr(prec + 1)?;
                    let span = lhs.span.join(rhs.span);
                    lhs = self.new_expr(span, ExprKind::Binary { op, lhs: Box::new(lhs), rhs: Box::new(rhs) });
                    proof {
                        unfold_expr_shape(lhs);
                    }
                },
            }
        }
        Ok(lhs)
    }

    /// `lhs |> f(args)` becomes `f(lhs, args)`; the right side must be a call.
    fn splice_pipe(&mut self, lhs: Expr, rhs: Expr) -> (r: Result<Expr, Error>)
        requires
            old(self).wf(),
            old(self).potential() < u32::MAX,
        ensures
            final(self).wf(),
            final(self).toks() == old(self).toks(),
            final(self).pos() == old(self).pos(),
            final(self).next_id() <= old(self).next_id() + 1,
            final(self).next_id() >= old(self).next_id(),
            final(self).potential() <= old(self).potential() + 1,
            r is Ok <==> rhs.kind is Call,
            r is Ok <==> expr_shape(rhs) is Call,
            r matches Ok(e) ==> piped(lhs, rhs, e),
            r matches Ok(e) ==> expr_shape(e) == pipe_shape(expr_shape(lhs), expr_shape(rhs)),
            r matches Err(e) ==> e.span == rhs.span && e.kind is PipeRhsNotCall,
            r matches Ok(e) ==> e.span == (Span { start: lhs.span.start, end: rhs.span.end }),
    {
        proof {
            unfold_expr_shape(rhs);
        }
        let span = lhs.span.join(rhs.span);
        let ghost l = lhs;
        match rhs.kind {
            ExprKind::Call { callee, type_args, mut args } => {
                let ghost a0 = args@;
                args.insert(0, lhs);
                proof {
                    lemma_exprs_shape_insert_front(a0, l);
                }
                let made = self.new_expr(span, ExprKind::Call { callee, type_args, args });
                proof {
                    unfold_expr_shape(made);
                }
                Ok(made)
            },
            _ => Err(Error { span: rhs.span, kind: ErrorKind::PipeRhsNotCall }),
        }
    }

    fn parse_unary_with_cast(&mut self) -> (r: Result<Expr, Error>)
        requires
            old(self).wf(),
        ensures
            old(self).steps_to(final(self)),
            r is Ok ==> old(self).gains(final(self), 1),
            expr_parsed(r, unary_cast_at(old(self).toks(), old(self).pos()), final(self).pos()),
            r matches Ok(t) ==> t.span.start == old(self).cur().span.start && t.span.end == old(
                self,
            ).toks()[final(self).pos() - 1].span.end,
        decreases old(self).remaining(), 7nat,
    {
        let ghost ts = self.toks();
        let ghost p0 = self.pos();
        proof {
            unfold_unary_cast_at(ts, p0);
        }
        let mut e = self.parse_unary()?;
        while self.check(TokenKind::As)
            invariant
                old(self).steps_to(self),
                old(self).gains(self, 1),
                ts == old(self).toks(),
                p0 == old(self).pos(),
                unary_cast_at(ts, p0) == cast_rest(ts, self.pos(), expr_shape(e)),
                e.span.start == old(self).cur().span.start,
                e.span.end == ts[self.pos() - 1].span.end,
            decreases self.remaining(),
        {
            proof {
                unfold_cast_rest(ts, self.pos(), expr_shape(e));
            }
            self.expect(TokenKind::As)?;
            let target = self.parse_type()?;
            let span = e.span.join(target.span);
            e = self.new_expr(span, ExprKind::Cast { expr: Box::new(e), target });
            proof {
                unfold_expr_shape(e);
            }
        }
        proof {
            unfold_cast_rest(ts, self.pos(), expr_shape(e));
        }
        Ok(e)
    }

    fn parse_unary(&mut self) -> (r: Result<Expr, Error>)
        requires
            old(self).wf(),
        ensures
            old(self).steps_to(final(self)),
            r is Ok ==> old(self).gains(final(self), 1),
            expr_parsed(r, unary_at(old(self).toks(), old(self).pos()), final(self).pos()),
            r matches Ok(t) ==> t.span.start == old(self).cur().span.start && t.span.end == old(
                self,
            ).toks()[final(self).pos() - 1].span.end,
        decreases old(self).remaining(), 6nat,
    {
        proof {
            unfold_unary_at(self.toks(), self.pos());
        }
        if !self.check_is_unop() {
            return self.parse_postfix();
        }
        let tok = self.advance();
        let operand = self.parse_unary()?;
        let span = tok.span.join(operand.span);
        let t = tok.kind.tag();
        let kind = if t == 52 {
            ExprKind::Unary { op: UnaryOperator::Not, expr: Box::new(operand) }
        } else if t == 33 {
            ExprKind::Unary { op: UnaryOperator::Minus, expr: Box::new(operand) }
        } else if t == 46 {
            ExprKind::Ref(Box::new(operand))
        } else {
            ExprKind::Deref(Box::new(operand))
        };
        let made = self.new_expr(span, kind);
        proof {
            unfold_expr_shape(made);
        }
        Ok(made)
    }

    fn parse_postfix(&mut self) -> (r: Result<Expr, Error>)
        requires
            old(self).wf(),
        ensures
            old(self).steps_to(final(self)),
            r is Ok ==> old(self).gains(final(self), 1),
            expr_parsed(r, postfix_at(old(self).toks(), old(self).pos()), final(self).pos()),
            r matches Ok(t) ==> t.span.start == old(self).cur().span.start && t.span.end == old(
                self,
            ).toks()[final(self).pos() - 1].span.end,
        decreases old(self).remaining(), 5nat,
    {
        let ghost ts = self.toks();
        let ghost p0 = self.pos();
        proof {
            unfold_postfix_at(ts, p0);
        }
        let mut e = self.parse_primary()?;
        loop
            invariant
                old(self).steps_to(self),
                old(self).gains(self, 1),
                ts == old(self).toks(),
                p0 == old(self).pos(),
                postfix_at(ts, p0) == postfix_rest(ts, self.pos(), expr_shape(e)),
                e.span.start == old(self).cur().span.start,
                e.span.end == ts[self.pos() - 1].span.end,
            ensures
                old(self).steps_to(self),
                old(self).gains(self, 1),
                postfix_at(ts, p0) == Some((expr_shape(e), self.pos())),
                e.span.start == old(self).cur().span.start,
                e.span.end == ts[self.pos() - 1].span.end,
            decreases self.remaining(),
        {
            proof {
                unfold_postfix_rest(ts, self.pos(), expr_shape(e));
                unfold_postfix_step(ts, self.pos(), expr_shape(e));
            }
            if self.check(TokenKind::LeftParen) {
                let no_args: Vec<TypeExpr> = Vec::new();
                assert(shapes(no_args@) =~= Seq::<TypeShape>::empty());
                e = self.parse_call_suffix(e, no_args)?;
            } else if self.check(TokenKind::LessThan) && self.generic_call_ahead() {
                let type_args = self.parse_type_args()?;
                e = self.parse_call_suffix(e, type_args)?;
            } else if self.check(TokenKind::LeftBracket) {
                e = self.parse_subscript_suffix(e)?;
            } else if self.check(TokenKind::Dot) {
                e = self.parse_field_suffix(e)?;
            } else {
                break;
            }
        }
        Ok(e)
    }

    /// `.name` (a field) or `.N` (a tuple field).
    fn parse_field_suffix(&mut self, target: Expr) -> (r: Result<Expr, Error>)
        requires
            old(self).wf(),
        ensures
            old(self).steps_to(final(self)),
            r is Ok ==> old(self).gains(final(self), 5),
            kind_tag(old(self).cur().kind) == 62 ==> expr_parsed(
                r,
                postfix_step(old(self).toks(), old(self).pos(), expr_shape(target)),
                final(self).pos(),
            ),
            kind_tag(old(self).cur().kind) != 62 ==> r is Err,
            r matches Ok(t) ==> t.span.start == target.span.start && t.span.end == old(
                self,
            ).toks()[final(self).pos() - 1].span.end,
    {
        proof {
            unfold_postfix_step(self.toks(), self.pos(), expr_shape(target));
        }
        self.expect(TokenKind::Dot)?;
        let name_tok = self.advance();
        let span = target.span.join(name_tok.span);
        match name_tok.kind {
            TokenKind::Identifier(name) => {
                let made = self.new_expr(span, ExprKind::Field { target: Box::new(target), name });
                proof {
                    unfold_expr_shape(made);
                }
                Ok(made)
            },
            TokenKind::Literal(Literal::Int(n)) => {
                if n >= 0 {
                    let made = self.new_expr(span, ExprKind::TupleField { target: Box::new(target), index: n as usize });
                    proof {
                        unfold_expr_shape(made);
                    }
                    Ok(made)
                } else {
                    Err(Error::unexpected(&name_tok, "field name"))
                }
            },
            _ => Err(Error::unexpected(&name_tok, "field name")),
        }
    }

    /// `Name { f: v, ... }`, `Name {}` or `Name<T> { ... }` ahead: decides
    /// between a struct literal and a name followed by a block.
    fn looks_like_struct_literal(&self) -> (r: bool)
        requires
            self.wf(),
        ensures
            r == struct_literal_ahead(self.toks(), self.pos()),
    {
        let brace_at: usize = if self.nth_tag(1) == Some(38u8) {
            match self.type_arg_list_end(1) {
                Some(after) => after,
                None => {
                    return false;
                },
            }
        } else {
            1
        };
        if self.nth_tag(brace_at) != Some(0u8) {
            return false;
        }
        let a = self.nth_tag(brace_at + 1);
        let b = self.nth_tag(brace_at + 2);
        a == Some(1u8) || (a == Some(31u8) && b == Some(61u8))
    }

    /// `Name [<T>] { field: value, ... }` with an optional trailing comma.
    fn parse_struct_literal(&mut self) -> (r: Result<Expr, Error>)
        requires
            old(self).wf(),
        ensures
            old(self).steps_to(final(self)),
            r is Ok ==> old(self).gains(final(self), 1),
            expr_parsed(r, struct_literal_at(old(self).toks(), old(self).pos()), final(self).pos()),
            r matches Ok(t) ==> t.span.start == old(self).cur().span.start && t.span.end == old(
                self,
            ).toks()[final(self).pos() - 1].span.end,
        decreases old(self).remaining(), 3nat,
    {
        let ghost ts = self.toks();
        let ghost p0 = self.pos();
        proof {
            unfold_struct_literal_at(ts, p0);
        }
        let start = self.peek().span;
        let name = self.ident()?;
        let type_args = if self.check(TokenKind::LessThan) {
            self.parse_type_args()?
        } else {
            let v: Vec<TypeExpr> = Vec::new();
            assert(shapes(v@) =~= Seq::<TypeShape>::empty());
            v
        };
        let ghost q = self.pos();
        self.expect(TokenKind::LeftBrace)?;
        let mut fields: Vec<StructLiteralField> = Vec::new();
        proof {
            unfold_lit_fields_shape(fields@);
        }
        assert(lit_fields_shape(fields@) =~= Seq::<(Seq<char>, ExprShape)>::empty());
        while !self.check(TokenKind::RightBrace)
            invariant
                old(self).steps_to(self),
                old(self).gains(self, 6),
                ts == old(self).toks(),
                p0 == old(self).pos(),
                struct_literal_at(ts, p0) == match lit_fields_at(ts, q + 1, Seq::empty()) {
                    Some((fs, e)) => Some(
                        (
                            ExprShape::StructLiteral {
                                name: name@,
                                type_args: shapes(type_args@),
                                fields: fs,
                            },
                            e,
                        ),
                    ),
                    None => None,
                },
                lit_fields_at(ts, q + 1, Seq::empty()) == lit_fields_at(
                    ts,
                    self.pos(),
                    lit_fields_shape(fields@),
                ),
            ensures
                kind_tag(self.cur().kind) == 1,
            decreases self.remaining(),
        {
            proof {
                unfold_lit_fields_at(ts, self.pos(), lit_fields_shape(fields@));
                lemma_lit_fields_shape_len(fields@);
            }
            if fields.len() > 0 {
                self.expect(TokenKind::Comma)?;
                if self.check(TokenKind::RightBrace) {
                    proof {
                        unfold_lit_fields_at(ts, self.pos(), lit_fields_shape(fields@));
                    }
                    break;
                }
            }
            let field_start = self.peek().span;
            let field_name = self.ident()?;
            self.expect(TokenKind::Colon)?;
            let value = self.parse_expr()?;
            let span = field_start.join(value.span);
            let f = StructLiteralField { id: self.fresh(), span, name: field_name, value };
            proof {
                lemma_lit_fields_shape_push(fields@, f);
            }
            fields.push(f);
        }
        proof {
            unfold_lit_fields_at(ts, self.pos(), lit_fields_shape(fields@));
        }
        let end = self.expect(TokenKind::RightBrace)?.span;
        let made = self.new_expr(start.join(end), ExprKind::StructLiteral { name, type_args, fields });
        proof {
            unfold_expr_shape(made);
        }
        Ok(made)
    }

    /// `struct [<$T, ...>] { name: T, ... }`.
    fn parse_struct_def(&mut self) -> (r: Result<Expr, Error>)
        requires
            old(self).wf(),
        ensures
            old(self).steps_to(final(self)),
            r is Ok ==> old(self).gains(final(self), 1),
            match struct_def_at(old(self).toks(), old(self).pos()) {
                Some((names, fields, q)) => r matches Ok(e) && (e.kind matches ExprKind::StructDef {
                    type_params,
                    fields: fs,
                } && names_view(type_params@) == names && field_views(fs@) == fields)
                    && expr_shape(e) == (ExprShape::StructDef { type_params: names, fields })
                    && final(self).pos() == q,
                None => r is Err,
            },
            r matches Ok(t) ==> t.span.start == old(self).cur().span.start && t.span.end == old(
                self,
            ).toks()[final(self).pos() - 1].span.end,
    {
        let ghost ts = self.toks();
        let start = self.expect(TokenKind::Struct)?.span;
        let type_params = if self.check(TokenKind::LessThan) {
            self.parse_type_param_list()?
        } else {
            let v = Vec::new();
            assert(names_view(v@) =~= Seq::<Seq<char>>::empty());
            v
        };
        let ghost q = self.pos();
        self.expect(TokenKind::LeftBrace)?;
        let mut fields: Vec<StructTypeField> = Vec::new();
        assert(field_views(fields@) =~= Seq::<(Seq<char>, TypeShape)>::empty());
        while !self.check(TokenKind::RightBrace)
            invariant
                old(self).steps_to(self),
                old(self).gains(self, 6),
                ts == old(self).toks(),
                struct_fields_at(ts, q + 1, Seq::empty()) == struct_fields_at(
                    ts,
                    self.pos(),
                    field_views(fields@),
                ),
                struct_def_at(ts, old(self).pos()) == match struct_fields_at(ts, q + 1, Seq::empty()) {
                    Some((fs, e)) => Some((names_view(type_params@), fs, e)),
                    None => None,
                },
            ensures
                kind_tag(self.cur().kind) == 1,
            decreases self.remaining(),
        {
            if fields.len() > 0 {
                self.expect(TokenKind::Comma)?;
                if self.check(TokenKind::RightBrace) {
                    break;
                }
            }
            let ghost before = self.pos();
            let field_start = self.peek().span;
            let name = self.ident()?;
            self.expect(TokenKind::Colon)?;
            let ty = self.parse_type()?;
            let span = field_start.join(ty.span);
            let f = StructTypeField { id: self.fresh(), span, name, ty };
            proof {
                assert(param_at(ts, before) == Some((f.name@, shape(f.ty), self.pos())));
                assert(field_views(fields@.push(f)) =~= field_views(fields@).push((f.name@, shape(f.ty))));
            }
            fields.push(f);
        }
        let end = self.expect(TokenKind::RightBrace)?.span;
        let made = self.new_expr(start.join(end), ExprKind::StructDef { type_params, fields });
        proof {
            unfold_expr_shape(made);
        }
        Ok(made)
    }

    /// `<$K, $V>`: the names without `$`. Repeated names are an error.
    fn parse_type_param_list(&mut self) -> (r: Result<Vec<String>, Error>)
        requires
            old(self).wf(),
        ensures
            old(self).steps_to(final(self)),
            r is Ok ==> old(self).gains(final(self), 6),
            r matches Ok(names) ==> forall|i: int, j: int|
                0 <= i < j < names@.len() ==> names@[i]@ != names@[j]@,
            kind_tag(old(self).cur().kind) == 38 ==> match type_params_list_at(
                old(self).toks(),
                old(self).pos() + 1,
                Seq::empty(),
            ) {
                Some((names, q)) => r matches Ok(v) && names_view(v@) == names && final(self).pos()
                    == q,
                None => r is Err,
            },
            kind_tag(old(self).cur().kind) != 38 ==> r is Err,
    {
        let ghost ts = self.toks();
        self.expect(TokenKind::LessThan)?;
        let mut type_params: Vec<String> = Vec::new();
        assert(names_view(type_params@) =~= Seq::<Seq<char>>::empty());
        while !self.check(TokenKind::GreaterThan)
            invariant
                old(self).steps_to(self),
                old(self).gains(self, 3),
                forall|i: int, j: int|
                    0 <= i < j < type_params@.len() ==> type_params@[i]@ != type_params@[j]@,
                ts == old(self).toks(),
                type_params_list_at(ts, old(self).pos() + 1, Seq::empty()) == type_params_list_at(
                    ts,
                    self.pos(),
                    names_view(type_params@),
                ),
            ensures
                kind_tag(self.cur().kind) == 39,
            decreases self.remaining(),
        {
            let ghost p0 = self.pos();
            if type_params.len() > 0 {
                self.expect(TokenKind::Comma)?;
                if self.check(TokenKind::GreaterThan) {
                    break;
                }
            }
            self.expect(TokenKind::Dollar)?;
            let name_tok = self.advance();
            let name = match name_tok.kind {
                TokenKind::Identifier(n) => n,
                _ => {
                    return Err(Error::unexpected(&name_tok, "generic type name"));
                },
            };
            let ghost acc = names_view(type_params@);
            assert(type_params_list_at(ts, p0, acc) == if acc.contains(name@) {
                None
            } else {
                type_params_list_at(ts, self.pos(), acc.push(name@))
            });
            let mut k: usize = 0;
            while k < type_params.len()
                invariant
                    old(self).steps_to(self),
                    old(self).gains(self, 3),
                    0 <= k <= type_params@.len(),
                    forall|m: int| 0 <= m < k ==> type_params@[m]@ != name@,
                    ts == old(self).toks(),
                    acc == names_view(type_params@),
                    type_params_list_at(ts, old(self).pos() + 1, Seq::empty()) == type_params_list_at(ts, p0, acc),
                    type_params_list_at(ts, p0, acc) == if acc.contains(name@) {
                        None
                    } else {
                        type_params_list_at(ts, self.pos(), acc.push(name@))
                    },
                decreases type_params.len() - k,
            {
                if same_text(&type_params[k], &name) {
                    proof {
                        assert(names_view(type_params@)[k as int] == name@);
                        assert(names_view(type_params@).contains(name@));
                    }
                    let at = Token { kind: TokenKind::Identifier(name), span: name_tok.span };
                    return Err(Error::unexpected(&at, "unique generic type name"));
                }
                k += 1;
            }
            proof {
                assert(!names_view(type_params@).contains(name@));
                assert(names_view(type_params@.push(name)) =~= names_view(type_params@).push(name@));
            }
            type_params.push(name);
        }
        self.expect(TokenKind::GreaterThan)?;
        Ok(type_params)
    }

    /// `(params) [-> ret] { body }`, the rest of a function literal that
    /// started at `start`.
    fn finish_function_literal(&mut self, start: Span, type_params: Vec<String>) -> (r: Result<Expr, Error>)
        requires
            old(self).wf(),
        ensures
            old(self).steps_to(final(self)),
            r is Ok ==> old(self).gains(final(self), 1),
            expr_parsed(
                r,
                function_literal_at(old(self).toks(), old(self).pos(), names_view(type_params@)),
                final(self).pos(),
            ),
            r matches Ok(t) ==> t.span.start == start.start && t.span.end == old(
                self,
            ).toks()[final(self).pos() - 1].span.end,
        decreases old(self).remaining(), 2nat,
    {
        let ghost ts = self.toks();
        let ghost p0 = self.pos();
        proof {
            unfold_function_literal_at(ts, p0, names_view(type_params@));
        }
        self.expect(TokenKind::LeftParen)?;
        let mut params: Vec<Param> = Vec::new();
        assert(param_views(params@) =~= Seq::<(Seq<char>, TypeShape)>::empty());
        while !self.check(TokenKind::RightParen)
            invariant
                old(self).steps_to(self),
                old(self).gains(self, 3),
                ts == old(self).toks(),
                p0 == old(self).pos(),
                kind_tag(ts[p0].kind) == 2,
                fn_params_at(ts, p0 + 1, Seq::empty()) is None ==> function_literal_at(
                    ts,
                    p0,
                    names_view(type_params@),
                ) is None,
                fn_params_at(ts, p0 + 1, Seq::empty()) == fn_params_at(
                    ts,
                    self.pos(),
                    param_views(params@),
                ),
            decreases self.remaining(),
        {
            if params.len() > 0 {
                self.expect(TokenKind::Comma)?;
            }
            let p = self.parse_param()?;
            proof {
                assert(param_views(params@.push(p)) =~= param_views(params@).push((p.name@, shape(p.ty))));
            }
            params.push(p);
        }
        self.expect(TokenKind::RightParen)?;
        let return_ty = if self.check(TokenKind::Minus) {
            self.expect(TokenKind::Minus)?;
            self.expect(TokenKind::GreaterThan)?;
            Some(self.parse_type()?)
        } else {
            None
        };
        let body = self.parse_block()?;
        let span = start.join(body.span);
        let made = self.new_expr(span, ExprKind::Function { type_params, params, return_ty, body });
        proof {
            unfold_expr_shape(made);
        }
        Ok(made)
    }

    fn parse_primary(&mut self) -> (r: Result<Expr, Error>)
        requires
            old(self).wf(),
        ensures
            old(self).steps_to(final(self)),
            r is Ok ==> old(self).gains(final(self), 1),
            expr_parsed(r, primary_at(old(self).toks(), old(self).pos()), final(self).pos()),
            r matches Ok(t) ==> t.span.start == old(self).cur().span.start && t.span.end == old(
                self,
            ).toks()[final(self).pos() - 1].span.end,
        decreases old(self).remaining(), 4nat,
    {
        let ghost ts = self.toks();
        let ghost p0 = self.pos();
        proof {
            unfold_primary_at(ts, p0);
        }
        let tag = self.tag();
        let span = self.peek().span;
        if tag == 55 || tag == 56 || tag == 57 {
            let tok = self.advance();
            let c = match tok.kind {
                TokenKind::Literal(Literal::Int(v)) => Const::Int(v),
                TokenKind::Literal(Literal::Float(t)) => Const::Float(t),
                TokenKind::Literal(Literal::Str(t)) => Const::Str(t),
                _ => {
                    assert(false);
                    return Err(Error::unexpected(&tok, "expression"));
                },
            };
            let made = self.new_expr(span, ExprKind::Const(c));
            proof {
                unfold_expr_shape(made);
            }
            Ok(made)
        } else if tag == 31 {
            if self.looks_like_struct_literal() {
                return self.parse_struct_literal();
            }
            let name = self.ident()?;
            let made = self.new_expr(span, ExprKind::Identifier(name));
            proof {
                unfold_expr_shape(made);
            }
            Ok(made)
        } else if tag == 11 {
            self.parse_struct_def()
        } else if tag == 38 {
            let type_params = self.parse_type_param_list()?;
            self.finish_function_literal(span, type_params)
        } else if tag == 4 {
            self.parse_array_literal()
        } else if tag == 2 {
            self.parse_paren()
        } else if tag == 0 {
            let block = self.parse_block()?;
            let bspan = block.span;
            let made = self.new_expr(bspan, ExprKind::Block(block));
            proof {
                unfold_expr_shape(made);
            }
            Ok(made)
        } else if tag == 9 {
            self.parse_if()
        } else if tag == 14 {
            self.parse_while()
        } else if 20 <= tag && tag <= 30 {
            let ty = self.parse_type()?;
            let tspan = ty.span;
            let made = self.new_expr(tspan, ExprKind::TypeValue(ty));
            proof {
                unfold_expr_shape(made);
            }
            Ok(made)
        } else {
            Err(Error::unexpected(self.peek(), "expression"))
        }
    }

    /// `[a, b, ...]`.
    fn parse_array_literal(&mut self) -> (r: Result<Expr, Error>)
        requires
            old(self).wf(),
            kind_tag(old(self).cur().kind) == 4,
        ensures
            old(self).steps_to(final(self)),
            r is Ok ==> old(self).gains(final(self), 1),
            expr_parsed(r, match array_elems_at(old(self).toks(), old(self).pos() + 1, Seq::empty()) {
                Some((es, q)) => Some((ExprShape::Array(es), q)),
                None => None,
            }, final(self).pos()),
            r matches Ok(t) ==> t.span.start == old(self).cur().span.start && t.span.end == old(
                self,
            ).toks()[final(self).pos() - 1].span.end,
        decreases old(self).remaining(), 3nat,
    {
        let ghost ts = self.toks();
        let ghost p0 = self.pos();
        let start = self.expect(TokenKind::LeftBracket)?.span;
        let mut exprs: Vec<Expr> = Vec::new();
        proof {
            unfold_exprs_shape(exprs@);
        }
        assert(exprs_shape(exprs@) =~= Seq::<ExprShape>::empty());
        while !self.check(TokenKind::RightBracket)
            invariant
                old(self).steps_to(self),
                old(self).gains(self, 3),
                ts == old(self).toks(),
                p0 == old(self).pos(),
                array_elems_at(ts, p0 + 1, Seq::empty()) == array_elems_at(
                    ts,
                    self.pos(),
                    exprs_shape(exprs@),
                ),
            decreases self.remaining(),
        {
            proof {
                unfold_array_elems_at(ts, self.pos(), exprs_shape(exprs@));
                lemma_exprs_shape_len(exprs@);
            }
            if exprs.len() > 0 {
                self.expect(TokenKind::Comma)?;
            }
            let e = self.parse_expr()?;
            proof {
                lemma_exprs_shape_push(exprs@, e);
            }
            exprs.push(e);
        }
        proof {
            unfold_array_elems_at(ts, self.pos(), exprs_shape(exprs@));
        }
        let end = self.expect(TokenKind::RightBracket)?.span;
        let made = self.new_expr(start.join(end), ExprKind::Array(exprs));
        proof {
            unfold_expr_shape(made);
        }
        Ok(made)
    }

    /// `(` starts a function literal or an expression in parentheses.
    fn parse_paren(&mut self) -> (r: Result<Expr, Error>)
        requires
            old(self).wf(),
            kind_tag(old(self).cur().kind) == 2,
        ensures
            old(self).steps_to(final(self)),
            r is Ok ==> old(self).gains(final(self), 1),
            expr_parsed(r, paren_at(old(self).toks(), old(self).pos()), final(self).pos()),
            r matches Ok(t) ==> t.span.start == old(self).cur().span.start && t.span.end == old(
                self,
            ).toks()[final(self).pos() - 1].span.end,
        decreases old(self).remaining(), 3nat,
    {
        let ghost ts = self.toks();
        let ghost p0 = self.pos();
        proof {
            unfold_paren_at(ts, p0);
        }
        let span = self.peek().span;
        let n1 = self.nth_tag(1);
        let n2 = self.nth_tag(2);
        let is_function_literal = n1 == Some(3u8) || (n1 == Some(31u8) && n2 == Some(61u8));
        if is_function_literal {
            let no_params: Vec<String> = Vec::new();
            assert(names_view(no_params@) =~= Seq::<Seq<char>>::empty());
            self.finish_function_literal(span, no_params)
        } else {
            let left = self.expect(TokenKind::LeftParen)?.span;
            let mut expr = self.parse_expr()?;
            let right = self.expect(TokenKind::RightParen)?.span;
            let ghost inner = expr;
            expr.span = left.join(right);
            proof {
                lemma_expr_shape_kind(inner, expr);
            }
            Ok(expr)
        }
    }

    /// `if cond { ... } [else expr]`.
    fn parse_if(&mut self) -> (r: Result<Expr, Error>)
        requires
            old(self).wf(),
            kind_tag(old(self).cur().kind) == 9,
        ensures
            old(self).steps_to(final(self)),
            r is Ok ==> old(self).gains(final(self), 1),
            expr_parsed(r, if_at(old(self).toks(), old(self).pos()), final(self).pos()),
            r matches Ok(t) ==> t.span.start == old(self).cur().span.start && t.span.end == old(
                self,
            ).toks()[final(self).pos() - 1].span.end,
        decreases old(self).remaining(), 3nat,
    {
        let ghost ts = self.toks();
        let ghost p0 = self.pos();
        proof {
            unfold_if_at(ts, p0);
        }
        let start = self.expect(TokenKind::If)?.span;
        let condition = self.parse_expr()?;
        let then_branch = self.parse_block()?;
        let else_branch = if self.check(TokenKind::Else) {
            self.expect(TokenKind::Else)?;
            Some(Box::new(self.parse_expr()?))
        } else {
            None
        };
        let span = match &else_branch {
            Some(e) => start.join(e.span),
            None => start.join(then_branch.span),
        };
        let made = self.new_expr(
            span,
            ExprKind::If { condition: Box::new(condition), then_branch, else_branch },
        );
        proof {
            unfold_expr_shape(made);
        }
        Ok(made)
    }

    /// `while cond { ... }`.
    fn parse_while(&mut self) -> (r: Result<Expr, Error>)
        requires
            old(self).wf(),
            kind_tag(old(self).cur().kind) == 14,
        ensures
            old(self).steps_to(final(self)),
            r is Ok ==> old(self).gains(final(self), 1),
            expr_parsed(r, while_at(old(self).toks(), old(self).pos()), final(self).pos()),
            r matches Ok(t) ==> t.span.start == old(self).cur().span.start && t.span.end == old(
                self,
            ).toks()[final(self).pos() - 1].span.end,
        decreases old(self).remaining(), 3nat,
    {
        let ghost ts = self.toks();
        let ghost p0 = self.pos();
        proof {
            unfold_while_at(ts, p0);
        }
        let start = self.expect(TokenKind::While)?.span;
        let condition = self.parse_expr()?;
        let body = self.parse_block()?;
        let span = start.join(body.span);
        let made = self.new_expr(span, ExprKind::While { condition: Box::new(condition), body });
        proof {
            unfold_expr_shape(made);
        }
        Ok(made)
    }

    /// `(args)` after a callee.
    fn parse_call_suffix(&mut self, callee: Expr, type_args: Vec<TypeExpr>) -> (r: Result<Expr, Error>)
        requires
            old(self).wf(),
        ensures
            old(self).steps_to(final(self)),
            r is Ok ==> old(self).gains(final(self), 5),
            kind_tag(old(self).cur().kind) == 2 ==> match call_args_at(
                old(self).toks(),
                old(self).pos() + 1,
                Seq::empty(),
            ) {
                Some((args, q)) => r matches Ok(e) && expr_shape(e) == (ExprShape::Call {
                    callee: Box::new(expr_shape(callee)),
                    type_args: shapes(type_args@),
                    args,
                }) && final(self).pos() == q,
                None => r is Err,
            },
            kind_tag(old(self).cur().kind) != 2 ==> r is Err,
            r matches Ok(t) ==> t.span.start == callee.span.start && t.span.end == old(
                self,
            ).toks()[final(self).pos() - 1].span.end,
        decreases old(self).remaining(), 2nat,
    {
        let ghost ts = self.toks();
        let ghost p0 = self.pos();
        self.expect(TokenKind::LeftParen)?;
        let mut args: Vec<Expr> = Vec::new();
        proof {
            unfold_exprs_shape(args@);
        }
        assert(exprs_shape(args@) =~= Seq::<ExprShape>::empty());
        while !self.check(TokenKind::RightParen)
            invariant
                old(self).steps_to(self),
                old(self).gains(self, 3),
                ts == old(self).toks(),
                p0 == old(self).pos(),
                call_args_at(ts, p0 + 1, Seq::empty()) == call_args_at(
                    ts,
                    self.pos(),
                    exprs_shape(args@),
                ),
            decreases self.remaining(),
        {
            proof {
                unfold_call_args_at(ts, self.pos(), exprs_shape(args@));
                lemma_exprs_shape_len(args@);
            }
            if args.len() > 0 {
                self.expect(TokenKind::Comma)?;
            }
            let a = self.parse_expr()?;
            proof {
                lemma_exprs_shape_push(args@, a);
            }
            args.push(a);
        }
        proof {
            unfold_call_args_at(ts, self.pos(), exprs_shape(args@));
        }
        let end = self.expect(TokenKind::RightParen)?.span;
        let span = callee.span.join(end);
        let made = self.new_expr(span, ExprKind::Call { callee: Box::new(callee), type_args, args });
        proof {
            unfold_expr_shape(made);
        }
        Ok(made)
    }

    /// `<T, U>`, with an optional trailing comma.
    fn parse_type_args(&mut self) -> (r: Result<Vec<TypeExpr>, Error>)
        requires
            old(self).wf(),
        ensures
            old(self).steps_to(final(self)),
            r is Ok ==> old(self).gains(final(self), 6),
            kind_tag(old(self).cur().kind) == 38 ==> match type_args_at(
                old(self).toks(),
                old(self).pos() + 1,
                Seq::empty(),
                Seq::empty(),
            ) {
                TypeParse::Parsed(TypeShape::NamedGeneric { args, .. }, q) => r matches Ok(v)
                    && shapes(v@) == args && final(self).pos() == q,
                _ => r is Err,
            },
            kind_tag(old(self).cur().kind) != 38 ==> r is Err,
    {
        let ghost ts = self.toks();
        self.expect(TokenKind::LessThan)?;
        let mut args: Vec<TypeExpr> = Vec::new();
        assert(shapes(args@) =~= Seq::<TypeShape>::empty());
        while !self.check(TokenKind::GreaterThan)
            invariant
                old(self).steps_to(self),
                old(self).gains(self, 3),
                ts == old(self).toks(),
                type_args_at(ts, old(self).pos() + 1, Seq::empty(), Seq::empty()) == type_args_at(
                    ts,
                    self.pos(),
                    Seq::empty(),
                    shapes(args@),
                ),
            ensures
                kind_tag(self.cur().kind) == 39,
            decreases self.remaining(),
        {
            if args.len() > 0 {
                self.expect(TokenKind::Comma)?;
                if self.check(TokenKind::GreaterThan) {
                    break;
                }
            }
            let ghost before = self.pos();
            let a = self.parse_type()?;
            proof {
                lemma_shapes_push(args@, a);
                assert(before < self.pos());
            }
            args.push(a);
        }
        self.expect(TokenKind::GreaterThan)?;
        Ok(args)
    }

    /// Looking ahead from the `<` at offset `at`, the offset just past the
    /// `>` (or `>>`) that closes a balanced list made only of tokens that
    /// can appear in type arguments; `None` when it is no such list.
    fn type_arg_list_end(&self, at: usize) -> (r: Option<usize>)
        requires
            self.wf(),
        ensures
            r matches Some(a) ==> at < a <= self.remaining(),
            match r {
                Some(a) => arg_list_end(self.toks(), self.pos(), at as int) == Some(a as int),
                None => arg_list_end(self.toks(), self.pos(), at as int) is None,
            },
    {
        if self.nth_tag(at) != Some(38u8) {
            return None;
        }
        let mut depth: i64 = 0;
        let mut i = at;
        while i < self.iter_len_left()
            invariant
                self.wf(),
                at <= i,
                0 <= depth <= i - at,
                i - at <= self.remaining(),
                i == at ==> depth == 0,
                arg_list_end(self.toks(), self.pos(), at as int) == arg_list_close(
                    self.toks(),
                    self.pos(),
                    i as int,
                    depth as int,
                ),
            decreases self.remaining() - i,
        {
            let t = match self.nth_tag(i) {
                Some(t) => t,
                None => {
                    return None;
                },
            };
            if t == 38 {
                depth = depth + 1;
            } else if t == 39 {
                depth = depth - 1;
                if depth == 0 {
                    return Some(i + 1);
                }
                if depth < 0 {
                    return None;
                }
            } else if t == 45 {
                depth = depth - 2;
                if depth == 0 {
                    return Some(i + 1);
                }
                if depth < 0 {
                    return None;
                }
            } else if !(t == 31 || (20 <= t && t <= 30) || t == 60 || t == 35 || t == 4 || t == 5
                || t == 59 || (55 <= t && t <= 58) || t == 53) {
                return None;
            }
            i = i + 1;
        }
        None
    }

    fn iter_len_left(&self) -> (r: usize)
        requires
            self.wf(),
        ensures
            r == self.remaining(),
    {
        self.iter.len_left()
    }

    /// Whether the `<...>` ahead is the type-argument list of a call (its
    /// closing `>` is followed by `(`).
    fn generic_call_ahead(&self) -> (r: bool)
        requires
            self.wf(),
        ensures
            r == generic_call_at(self.toks(), self.pos()),
    {
        match self.type_arg_list_end(0) {
            Some(after) => self.nth_tag(after) == Some(2u8),
            None => false,
        }
    }

    /// `[index]` after an expression.
    fn parse_subscript_suffix(&mut self, target: Expr) -> (r: Result<Expr, Error>)
        requires
            old(self).wf(),
        ensures
            old(self).steps_to(final(self)),
            r is Ok ==> old(self).gains(final(self), 5),
            kind_tag(old(self).cur().kind) == 4 ==> expr_parsed(
                r,
                postfix_step(old(self).toks(), old(self).pos(), expr_shape(target)),
                final(self).pos(),
            ),
            kind_tag(old(self).cur().kind) != 4 ==> r is Err,
            r matches Ok(t) ==> t.span.start == target.span.start && t.span.end == old(
                self,
            ).toks()[final(self).pos() - 1].span.end,
        decreases old(self).remaining(), 2nat,
    {
        proof {
            unfold_postfix_step(self.toks(), self.pos(), expr_shape(target));
        }
        self.expect(TokenKind::LeftBracket)?;
        let index = self.parse_expr()?;
        let end = self.expect(TokenKind::RightBracket)?.span;
        let span = target.span.join(end);
        let made = self.new_expr(span, ExprKind::Subscript { expr: Box::new(target), index: Box::new(index) });
        proof {
            unfold_expr_shape(made);
        }
        Ok(made)
    }
}

} // verus!
