use vstd::prelude::*;

verus! {

/// A location in the (multi-file) source: a global byte offset plus a
/// 1-based line and column inside the file it belongs to.
#[derive(Debug, Clone, Copy, PartialEq, Eq, Structural)]
pub struct Position {
    pub offset: usize,
    pub line: usize,
    pub column: usize,
}

#[derive(Debug, Clone, Copy, PartialEq, Eq, Structural)]
pub struct Span {
    pub start: Position,
    pub end: Position,
}

impl Default for Position {
    fn default() -> (r: Position)
        ensures
            r == (Position { offset: 0, line: 0, column: 0 }),
    {
        Position { offset: 0, line: 0, column: 0 }
    }
}

impl Default for Span {
    fn default() -> (r: Span)
        ensures
            r == (Span {
                start: Position { offset: 0, line: 0, column: 0 },
                end: Position { offset: 0, line: 0, column: 0 },
            }),
    {
        Span {
            start: Position { offset: 0, line: 0, column: 0 },
            end: Position { offset: 0, line: 0, column: 0 },
        }
    }
}

impl Span {
    /// The span that starts where `self` starts and ends where `end` ends.
    pub fn join(self, end: Span) -> (r: Span)
        ensures
            r == (Span { start: self.start, end: end.end }),
    {
        Span { start: self.start, end: end.end }
    }
}

/// Joining spans is associative: only the outer start and end remain.
pub proof fn law_join_associative(a: Span, b: Span, c: Span)
    ensures
        (Span { start: (Span { start: a.start, end: b.end }).start, end: c.end }) == (Span {
            start: a.start,
            end: (Span { start: b.start, end: c.end }).end,
        }),
{
}

#[derive(Debug, Clone, PartialEq)]
pub struct Token {
    pub kind: TokenKind,
    pub span: Span,
}

#[derive(Debug, Clone, PartialEq)]
pub enum TokenKind {
    LeftBrace,
    RightBrace,
    LeftParen,
    RightParen,
    LeftBracket,
    RightBracket,
    Let,
    Return,
    As,
    If,
    Else,
    Struct,
    Enum,
    Match,
    While,
    Break,
    Defer,
    Import,
    Extern,
    Null,
    Int,
    UInt,
    Float,
    I8,
    I32,
    I64,
    U8,
    U32,
    U64,
    F32,
    F64,
    Identifier(String),
    Equal,
    Minus,
    Plus,
    Star,
    Slash,
    Percent,
    LessThan,
    GreaterThan,
    LessEqual,
    GreaterEqual,
    EqualEqual,
    NotEqual,
    ShiftLeft,
    ShiftRight,
    Ampersand,
    Pipe,
    Caret,
    AmpAmp,
    PipePipe,
    PipeArrow,
    Not,
    Dollar,
    Hash,
    Literal(Literal),
    Semicolon,
    Comma,
    Colon,
    Dot,
    Eof,
}

/// A literal. A float literal keeps its decimal source text (digits, an
/// optional fraction and an optional exponent); it is converted to a machine
/// float only when code is generated.
#[derive(Debug, Clone, PartialEq)]
pub enum Literal {
    Int(i32),
    Float(String),
    Str(String),
    Char(u8),
}

/// The mathematical content of a token kind: a tag that tells the variants
/// apart, an integer payload (for `Int` and `Char` literals) and a text
/// payload (identifier names, float texts, string contents).
pub struct KindView {
    pub tag: int,
    pub num: int,
    pub text: Seq<char>,
}

pub const TAG_IDENTIFIER: u8 = 31;
pub const TAG_INT_LIT: u8 = 55;
pub const TAG_FLOAT_LIT: u8 = 56;
pub const TAG_STR_LIT: u8 = 57;
pub const TAG_CHAR_LIT: u8 = 58;
pub const TAG_EOF: u8 = 63;

pub open spec fn plain(tag: int) -> KindView {
    KindView { tag, num: 0, text: Seq::empty() }
}

/// The tag of each variant, in declaration order.
pub open spec fn kind_tag(k: TokenKind) -> int {
    match k {
        TokenKind::LeftBrace => 0,
        TokenKind::RightBrace => 1,
        TokenKind::LeftParen => 2,
        TokenKind::RightParen => 3,
        TokenKind::LeftBracket => 4,
        TokenKind::RightBracket => 5,
        TokenKind::Let => 6,
        TokenKind::Return => 7,
        TokenKind::As => 8,
        TokenKind::If => 9,
        TokenKind::Else => 10,
        TokenKind::Struct => 11,
        TokenKind::Enum => 12,
        TokenKind::Match => 13,
        TokenKind::While => 14,
        TokenKind::Break => 15,
        TokenKind::Defer => 16,
        TokenKind::Import => 17,
        TokenKind::Extern => 18,
        TokenKind::Null => 19,
        TokenKind::Int => 20,
        TokenKind::UInt => 21,
        TokenKind::Float => 22,
        TokenKind::I8 => 23,
        TokenKind::I32 => 24,
        TokenKind::I64 => 25,
        TokenKind::U8 => 26,
        TokenKind::U32 => 27,
        TokenKind::U64 => 28,
        TokenKind::F32 => 29,
        TokenKind::F64 => 30,
        TokenKind::Identifier(_) => 31,
        TokenKind::Equal => 32,
        TokenKind::Minus => 33,
        TokenKind::Plus => 34,
        TokenKind::Star => 35,
        TokenKind::Slash => 36,
        TokenKind::Percent => 37,
        TokenKind::LessThan => 38,
        TokenKind::GreaterThan => 39,
        TokenKind::LessEqual => 40,
        TokenKind::GreaterEqual => 41,
        TokenKind::EqualEqual => 42,
        TokenKind::NotEqual => 43,
        TokenKind::ShiftLeft => 44,
        TokenKind::ShiftRight => 45,
        TokenKind::Ampersand => 46,
        TokenKind::Pipe => 47,
        TokenKind::Caret => 48,
        TokenKind::AmpAmp => 49,
        TokenKind::PipePipe => 50,
        TokenKind::PipeArrow => 51,
        TokenKind::Not => 52,
        TokenKind::Dollar => 53,
        TokenKind::Hash => 54,
        TokenKind::Literal(Literal::Int(_)) => 55,
        TokenKind::Literal(Literal::Float(_)) => 56,
        TokenKind::Literal(Literal::Str(_)) => 57,
        TokenKind::Literal(Literal::Char(_)) => 58,
        TokenKind::Semicolon => 59,
        TokenKind::Comma => 60,
        TokenKind::Colon => 61,
        TokenKind::Dot => 62,
        TokenKind::Eof => 63,
    }
}

pub open spec fn kind_view(k: TokenKind) -> KindView {
    match k {
        TokenKind::Identifier(s) => KindView { tag: 31, num: 0, text: s@ },
        TokenKind::Literal(Literal::Int(n)) => KindView { tag: 55, num: n as int, text: Seq::empty() },
        TokenKind::Literal(Literal::Float(s)) => KindView { tag: 56, num: 0, text: s@ },
        TokenKind::Literal(Literal::Str(s)) => KindView { tag: 57, num: 0, text: s@ },
        TokenKind::Literal(Literal::Char(b)) => KindView { tag: 58, num: b as int, text: Seq::empty() },
        _ => plain(kind_tag(k)),
    }
}

impl TokenKind {
    /// The variant tag of this kind (see `kind_tag`).
    pub fn tag(&self) -> (r: u8)
        ensures
            r as int == kind_tag(*self),
    {
        match self {
            TokenKind::LeftBrace => 0,
            TokenKind::RightBrace => 1,
            TokenKind::LeftParen => 2,
            TokenKind::RightParen => 3,
            TokenKind::LeftBracket => 4,
            TokenKind::RightBracket => 5,
            TokenKind::Let => 6,
            TokenKind::Return => 7,
            TokenKind::As => 8,
            TokenKind::If => 9,
            TokenKind::Else => 10,
            TokenKind::Struct => 11,
            TokenKind::Enum => 12,
            TokenKind::Match => 13,
            TokenKind::While => 14,
            TokenKind::Break => 15,
            TokenKind::Defer => 16,
            TokenKind::Import => 17,
            TokenKind::Extern => 18,
            TokenKind::Null => 19,
            TokenKind::Int => 20,
            TokenKind::UInt => 21,
            TokenKind::Float => 22,
            TokenKind::I8 => 23,
            TokenKind::I32 => 24,
            TokenKind::I64 => 25,
            TokenKind::U8 => 26,
            TokenKind::U32 => 27,
            TokenKind::U64 => 28,
            TokenKind::F32 => 29,
            TokenKind::F64 => 30,
            TokenKind::Identifier(_) => 31,
            TokenKind::Equal => 32,
            TokenKind::Minus => 33,
            TokenKind::Plus => 34,
            TokenKind::Star => 35,
            TokenKind::Slash => 36,
            TokenKind::Percent => 37,
            TokenKind::LessThan => 38,
            TokenKind::GreaterThan => 39,
            TokenKind::LessEqual => 40,
            TokenKind::GreaterEqual => 41,
            TokenKind::EqualEqual => 42,
            TokenKind::NotEqual => 43,
            TokenKind::ShiftLeft => 44,
            TokenKind::ShiftRight => 45,
            TokenKind::Ampersand => 46,
            TokenKind::Pipe => 47,
            TokenKind::Caret => 48,
            TokenKind::AmpAmp => 49,
            TokenKind::PipePipe => 50,
            TokenKind::PipeArrow => 51,
            TokenKind::Not => 52,
            TokenKind::Dollar => 53,
            TokenKind::Hash => 54,
            TokenKind::Literal(Literal::Int(_)) => 55,
            TokenKind::Literal(Literal::Float(_)) => 56,
            TokenKind::Literal(Literal::Str(_)) => 57,
            TokenKind::Literal(Literal::Char(_)) => 58,
            TokenKind::Semicolon => 59,
            TokenKind::Comma => 60,
            TokenKind::Colon => 61,
            TokenKind::Dot => 62,
            TokenKind::Eof => 63,
        }
    }

    /// A copy of this kind with the same content.
    pub fn duplicate(&self) -> (r: TokenKind)
        ensures
            kind_view(r) == kind_view(*self),
            kind_tag(r) == kind_tag(*self),
    {
        match self {
            TokenKind::Identifier(s) => TokenKind::Identifier(s.clone()),
            TokenKind::Literal(Literal::Int(n)) => TokenKind::Literal(Literal::Int(*n)),
            TokenKind::Literal(Literal::Float(s)) => TokenKind::Literal(Literal::Float(s.clone())),
            TokenKind::Literal(Literal::Str(s)) => TokenKind::Literal(Literal::Str(s.clone())),
            TokenKind::Literal(Literal::Char(b)) => TokenKind::Literal(Literal::Char(*b)),
            TokenKind::LeftBrace => TokenKind::LeftBrace,
            TokenKind::RightBrace => TokenKind::RightBrace,
            TokenKind::LeftParen => TokenKind::LeftParen,
            TokenKind::RightParen => TokenKind::RightParen,
            TokenKind::LeftBracket => TokenKind::LeftBracket,
            TokenKind::RightBracket => TokenKind::RightBracket,
            TokenKind::Let => TokenKind::Let,
            TokenKind::Return => TokenKind::Return,
            TokenKind::As => TokenKind::As,
            TokenKind::If => TokenKind::If,
            TokenKind::Else => TokenKind::Else,
            TokenKind::Struct => TokenKind::Struct,
            TokenKind::Enum => TokenKind::Enum,
            TokenKind::Match => TokenKind::Match,
            TokenKind::While => TokenKind::While,
            TokenKind::Break => TokenKind::Break,
            TokenKind::Defer => TokenKind::Defer,
            TokenKind::Import => TokenKind::Import,
            TokenKind::Extern => TokenKind::Extern,
            TokenKind::Null => TokenKind::Null,
            TokenKind::Int => TokenKind::Int,
            TokenKind::UInt => TokenKind::UInt,
            TokenKind::Float => TokenKind::Float,
            TokenKind::I8 => TokenKind::I8,
            TokenKind::I32 => TokenKind::I32,
            TokenKind::I64 => TokenKind::I64,
            TokenKind::U8 => TokenKind::U8,
            TokenKind::U32 => TokenKind::U32,
            TokenKind::U64 => TokenKind::U64,
            TokenKind::F32 => TokenKind::F32,
            TokenKind::F64 => TokenKind::F64,
            TokenKind::Equal => TokenKind::Equal,
            TokenKind::Minus => TokenKind::Minus,
            TokenKind::Plus => TokenKind::Plus,
            TokenKind::Star => TokenKind::Star,
            TokenKind::Slash => TokenKind::Slash,
            TokenKind::Percent => TokenKind::Percent,
            TokenKind::LessThan => TokenKind::LessThan,
            TokenKind::GreaterThan => TokenKind::GreaterThan,
            TokenKind::LessEqual => TokenKind::LessEqual,
            TokenKind::GreaterEqual => TokenKind::GreaterEqual,
            TokenKind::EqualEqual => TokenKind::EqualEqual,
            TokenKind::NotEqual => TokenKind::NotEqual,
            TokenKind::ShiftLeft => TokenKind::ShiftLeft,
            TokenKind::ShiftRight => TokenKind::ShiftRight,
            TokenKind::Ampersand => TokenKind::Ampersand,
            TokenKind::Pipe => TokenKind::Pipe,
            TokenKind::Caret => TokenKind::Caret,
            TokenKind::AmpAmp => TokenKind::AmpAmp,
            TokenKind::PipePipe => TokenKind::PipePipe,
            TokenKind::PipeArrow => TokenKind::PipeArrow,
            TokenKind::Not => TokenKind::Not,
            TokenKind::Dollar => TokenKind::Dollar,
            TokenKind::Hash => TokenKind::Hash,
            TokenKind::Semicolon => TokenKind::Semicolon,
            TokenKind::Comma => TokenKind::Comma,
            TokenKind::Colon => TokenKind::Colon,
            TokenKind::Dot => TokenKind::Dot,
            TokenKind::Eof => TokenKind::Eof,
        }
    }
}

impl Token {
    /// A copy of this token with the same kind content and span.
    pub fn duplicate(&self) -> (r: Token)
        ensures
            kind_view(r.kind) == kind_view(self.kind),
            kind_tag(r.kind) == kind_tag(self.kind),
            r.span == self.span,
    {
        Token { kind: self.kind.duplicate(), span: self.span }
    }
}

// ---------------------------------------------------------------------------
// The position model: how far a prefix of the source reaches, in bytes, lines
// and columns.
// ---------------------------------------------------------------------------

/// Number of bytes in the UTF-8 encoding of `c`.
pub open spec fn char_width(c: char) -> nat {
    if (c as u32) < 0x80 {
        1
    } else if (c as u32) < 0x800 {
        2
    } else if (c as u32) < 0x10000 {
        3
    } else {
        4
    }
}

/// Number of bytes in the UTF-8 encoding of `s`.
pub open spec fn bytes_of(s: Seq<char>) -> nat
    decreases s.len(),
{
    if s.len() == 0 {
        0
    } else {
        bytes_of(s.drop_last()) + char_width(s.last())
    }
}

/// The 1-based line reached after reading `s`.
pub open spec fn line_of(s: Seq<char>) -> nat
    decreases s.len(),
{
    if s.len() == 0 {
        1
    } else if s.last() == '\n' {
        line_of(s.drop_last()) + 1
    } else {
        line_of(s.drop_last())
    }
}

/// The 1-based column reached after reading `s` (counted in characters).
pub open spec fn col_of(s: Seq<char>) -> nat
    decreases s.len(),
{
    if s.len() == 0 {
        1
    } else if s.last() == '\n' {
        1
    } else {
        col_of(s.drop_last()) + 1
    }
}

/// The position of the character at index `i` of `s`, for a file whose first
/// byte sits at global offset `base`.
pub open spec fn pos_at(s: Seq<char>, base: int, i: int) -> Position {
    Position {
        offset: (base + bytes_of(s.take(i))) as usize,
        line: line_of(s.take(i)) as usize,
        column: col_of(s.take(i)) as usize,
    }
}

pub open spec fn span_at(s: Seq<char>, base: int, i: int, j: int) -> Span {
    Span { start: pos_at(s, base, i), end: pos_at(s, base, j) }
}

pub proof fn lemma_bytes_bounds(s: Seq<char>)
    ensures
        s.len() <= bytes_of(s),
        bytes_of(s) <= 4 * s.len(),
    decreases s.len(),
{
    if s.len() > 0 {
        lemma_bytes_bounds(s.drop_last());
    }
}

pub proof fn lemma_line_col_bounds(s: Seq<char>)
    ensures
        1 <= line_of(s) <= s.len() + 1,
        1 <= col_of(s) <= s.len() + 1,
    decreases s.len(),
{
    if s.len() > 0 {
        lemma_line_col_bounds(s.drop_last());
    }
}

/// Reading a longer prefix never moves the byte offset back.
pub proof fn lemma_bytes_prefix_mono(s: Seq<char>, i: int, j: int)
    requires
        0 <= i <= j <= s.len(),
    ensures
        bytes_of(s.take(i)) <= bytes_of(s.take(j)),
        bytes_of(s.take(j)) <= bytes_of(s),
    decreases s.len() - i,
{
    lemma_take_full(s);
    if j < s.len() {
        lemma_bytes_prefix_mono(s.drop_last(), i, j);
        assert(s.drop_last().take(i) =~= s.take(i));
        assert(s.drop_last().take(j) =~= s.take(j));
        assert(s.drop_last().take(s.len() - 1) =~= s.drop_last());
    } else if i < j {
        lemma_bytes_prefix_mono(s.drop_last(), i, j - 1);
        assert(s.drop_last().take(i) =~= s.take(i));
        assert(s.drop_last().take(j - 1) =~= s.drop_last());
    }
}

pub proof fn lemma_take_full(s: Seq<char>)
    ensures
        s.take(s.len() as int) =~= s,
{
}

/// One more character: how the position advances.
pub proof fn lemma_take_step(s: Seq<char>, i: int)
    requires
        0 <= i < s.len(),
    ensures
        s.take(i + 1).drop_last() =~= s.take(i),
        s.take(i + 1).last() == s[i],
        bytes_of(s.take(i + 1)) == bytes_of(s.take(i)) + char_width(s[i]),
        line_of(s.take(i + 1)) == if s[i] == '\n' {
            line_of(s.take(i)) + 1
        } else {
            line_of(s.take(i))
        },
        col_of(s.take(i + 1)) == if s[i] == '\n' {
            1
        } else {
            col_of(s.take(i)) + 1
        },
{
    assert(s.take(i + 1).drop_last() =~= s.take(i));
}

} // verus!
