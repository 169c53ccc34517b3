//! Human-readable renderings of tokens and lexer errors.

use crate::lexer::cursor::push_char;
use crate::lexer::error::{err_view, ErrorKind, ErrorView};
use crate::lexer::types::{Literal, TokenKind};
use vstd::prelude::*;

verus! {

/// What `{:?}` writes for a string: std's `Debug` text of a `str`, in
/// double quotes with the characters that need it escaped.
pub uninterp spec fn str_debug(s: Seq<char>) -> Seq<char>;

/// `format!("{:?}", s)`, std's `Debug` formatting of a string. The text is a
/// function of the string alone; nothing more of it is claimed here.
#[verifier::external_body]
pub(crate) fn debug_str(s: &str) -> (r: String)
    ensures
        r@ == str_debug(s@),
{
    format!("{:?}", s)
}

/// Appends `t` to `s`.
pub fn append_str(s: &mut String, t: &str)
    ensures
        final(s)@ == old(s)@ + t@,
{
    let ghost start = s@;
    for c in it: t.chars()
        invariant
            s@ == start + it.seq().take(it.index() as int),
    {
        proof {
            assert(start + it.seq().take(it.index() as int).push(c) =~= start + it.seq().take(
                it.index() + 1,
            ));
        }
        push_char(s, c);
    }
    assert(start + t@ =~= s@);
}

pub open spec fn digit_char(d: nat) -> char {
    if d == 0 {
        '0'
    } else if d == 1 {
        '1'
    } else if d == 2 {
        '2'
    } else if d == 3 {
        '3'
    } else if d == 4 {
        '4'
    } else if d == 5 {
        '5'
    } else if d == 6 {
        '6'
    } else if d == 7 {
        '7'
    } else if d == 8 {
        '8'
    } else {
        '9'
    }
}

/// The decimal digits of `n`, most significant first.
pub open spec fn decimal(n: nat) -> Seq<char>
    decreases n,
{
    if n < 10 {
        seq![digit_char(n)]
    } else {
        decimal(n / 10).push(digit_char(n % 10))
    }
}

/// The decimal rendering of `n`, with a leading `-` when negative.
pub open spec fn signed_decimal(n: int) -> Seq<char> {
    if n < 0 {
        seq!['-'] + decimal((-n) as nat)
    } else {
        decimal(n as nat)
    }
}

fn digit_exec(d: u64) -> (c: char)
    requires
        d < 10,
    ensures
        c == digit_char(d as nat),
{
    if d == 0 {
        '0'
    } else if d == 1 {
        '1'
    } else if d == 2 {
        '2'
    } else if d == 3 {
        '3'
    } else if d == 4 {
        '4'
    } else if d == 5 {
        '5'
    } else if d == 6 {
        '6'
    } else if d == 7 {
        '7'
    } else if d == 8 {
        '8'
    } else {
        '9'
    }
}

/// Appends the decimal digits of `n`.
pub fn push_decimal(s: &mut String, n: u64)
    ensures
        final(s)@ == old(s)@ + decimal(n as nat),
    decreases n,
{
    if n >= 10 {
        push_decimal(s, n / 10);
    }
    push_char(s, digit_exec(n % 10));
    proof {
        if n >= 10 {
            assert(old(s)@ + decimal((n / 10) as nat) + seq![digit_char((n % 10) as nat)] =~= old(
                s,
            )@ + decimal(n as nat));
        } else {
            assert(old(s)@ + seq![digit_char(n as nat)] =~= old(s)@ + decimal(n as nat));
        }
    }
}

/// Appends the decimal rendering of `n`.
pub fn push_signed(s: &mut String, n: i64)
    ensures
        final(s)@ == old(s)@ + signed_decimal(n as int),
{
    if n < 0 {
        push_char(s, '-');
        let m: u64 = if n == i64::MIN {
            0x8000_0000_0000_0000u64
        } else {
            (-n) as u64
        };
        push_decimal(s, m);
        assert(old(s)@ + signed_decimal(n as int) =~= old(s)@.push('-') + decimal(m as nat));
    } else {
        push_decimal(s, n as u64);
    }
}

pub open spec fn quoted(t: Seq<char>) -> Seq<char> {
    seq!['`'] + t + seq!['`']
}

/// How a token kind is written in messages, e.g. `` `;` `` or
/// `` `foo` ``.
pub open spec fn describe_view(k: TokenKind) -> Seq<char> {
    match k {
        TokenKind::LeftBrace => "`{`"@,
        TokenKind::RightBrace => "`}`"@,
        TokenKind::LeftParen => "`(`"@,
        TokenKind::RightParen => "`)`"@,
        TokenKind::LeftBracket => "`[`"@,
        TokenKind::RightBracket => "`]`"@,
        TokenKind::Let => "`let`"@,
        TokenKind::Return => "`return`"@,
        TokenKind::As => "`as`"@,
        TokenKind::If => "`if`"@,
        TokenKind::Else => "`else`"@,
        TokenKind::Struct => "`struct`"@,
        TokenKind::Enum => "`enum`"@,
        TokenKind::Match => "`match`"@,
        TokenKind::While => "`while`"@,
        TokenKind::Break => "`break`"@,
        TokenKind::Defer => "`defer`"@,
        TokenKind::Import => "`import`"@,
        TokenKind::Extern => "`extern`"@,
        TokenKind::Null => "`null`"@,
        TokenKind::Int => "`Int`"@,
        TokenKind::UInt => "`UInt`"@,
        TokenKind::Float => "`Float`"@,
        TokenKind::I8 => "`i8`"@,
        TokenKind::I32 => "`i32`"@,
        TokenKind::I64 => "`i64`"@,
        TokenKind::U8 => "`u8`"@,
        TokenKind::U32 => "`u32`"@,
        TokenKind::U64 => "`u64`"@,
        TokenKind::F32 => "`f32`"@,
        TokenKind::F64 => "`f64`"@,
        TokenKind::Identifier(name) => quoted(name@),
        TokenKind::Equal => "`=`"@,
        TokenKind::Minus => "`-`"@,
        TokenKind::Plus => "`+`"@,
        TokenKind::Star => "`*`"@,
        TokenKind::Slash => "`/`"@,
        TokenKind::Percent => "`%`"@,
        TokenKind::LessThan => "`<`"@,
        TokenKind::GreaterThan => "`>`"@,
        TokenKind::LessEqual => "`<=`"@,
        TokenKind::GreaterEqual => "`>=`"@,
        TokenKind::EqualEqual => "`==`"@,
        TokenKind::NotEqual => "`!=`"@,
        TokenKind::ShiftLeft => "`<<`"@,
        TokenKind::ShiftRight => "`>>`"@,
        TokenKind::Ampersand => "`&`"@,
        TokenKind::Pipe => "`|`"@,
        TokenKind::Caret => "`^`"@,
        TokenKind::AmpAmp => "`&&`"@,
        TokenKind::PipePipe => "`||`"@,
        TokenKind::PipeArrow => "`|>`"@,
        TokenKind::Not => "`!`"@,
        TokenKind::Dollar => "`$`"@,
        TokenKind::Hash => "`#`"@,
        TokenKind::Literal(Literal::Int(n)) => quoted(signed_decimal(n as int)),
        TokenKind::Literal(Literal::Float(t)) => quoted(t@),
        TokenKind::Literal(Literal::Str(t)) => quoted(seq!['"'] + t@ + seq!['"']),
        TokenKind::Literal(Literal::Char(b)) => quoted(seq!['\''] + seq![b as char] + seq!['\'']),
        TokenKind::Semicolon => "`;`"@,
        TokenKind::Comma => "`,`"@,
        TokenKind::Colon => "`:`"@,
        TokenKind::Dot => "`.`"@,
        TokenKind::Eof => "end of input"@,
    }
}

fn quote_into(s: &mut String, t: &String)
    ensures
        final(s)@ == old(s)@ + quoted(t@),
{
    push_char(s, '`');
    append_str(s, t.as_str());
    push_char(s, '`');
    assert(old(s)@.push('`') + t@ + seq!['`'] =~= old(s)@ + quoted(t@));
}

impl TokenKind {
    /// The kind as written in messages, e.g. `` `;` ``.
    pub fn describe(&self) -> (r: String)
        ensures
            r@ == describe_view(*self),
    {
        let mut s = String::new();
        match self {
            TokenKind::Identifier(name) => {
                quote_into(&mut s, name);
                assert(s@ =~= describe_view(*self));
                s
            },
            TokenKind::Literal(Literal::Int(n)) => {
                push_char(&mut s, '`');
                push_signed(&mut s, *n as i64);
                push_char(&mut s, '`');
                assert(s@ =~= describe_view(*self));
                s
            },
            TokenKind::Literal(Literal::Float(t)) => {
                quote_into(&mut s, t);
                assert(s@ =~= describe_view(*self));
                s
            },
            TokenKind::Literal(Literal::Str(t)) => {
                push_char(&mut s, '`');
                push_char(&mut s, '"');
                append_str(&mut s, t.as_str());
                push_char(&mut s, '"');
                push_char(&mut s, '`');
                assert(s@ =~= describe_view(*self));
                s
            },
            TokenKind::Literal(Literal::Char(b)) => {
                push_char(&mut s, '`');
                push_char(&mut s, '\'');
                push_char(&mut s, *b as char);
                push_char(&mut s, '\'');
                push_char(&mut s, '`');
                assert(s@ =~= describe_view(*self));
                s
            },
            TokenKind::LeftBrace => "`{`".to_owned(),
            TokenKind::RightBrace => "`}`".to_owned(),
            TokenKind::LeftParen => "`(`".to_owned(),
            TokenKind::RightParen => "`)`".to_owned(),
            TokenKind::LeftBracket => "`[`".to_owned(),
            TokenKind::RightBracket => "`]`".to_owned(),
            TokenKind::Let => "`let`".to_owned(),
            TokenKind::Return => "`return`".to_owned(),
            TokenKind::As => "`as`".to_owned(),
            TokenKind::If => "`if`".to_owned(),
            TokenKind::Else => "`else`".to_owned(),
            TokenKind::Struct => "`struct`".to_owned(),
            TokenKind::Enum => "`enum`".to_owned(),
            TokenKind::Match => "`match`".to_owned(),
            TokenKind::While => "`while`".to_owned(),
            TokenKind::Break => "`break`".to_owned(),
            TokenKind::Defer => "`defer`".to_owned(),
            TokenKind::Import => "`import`".to_owned(),
            TokenKind::Extern => "`extern`".to_owned(),
            TokenKind::Null => "`null`".to_owned(),
            TokenKind::Int => "`Int`".to_owned(),
            TokenKind::UInt => "`UInt`".to_owned(),
            TokenKind::Float => "`Float`".to_owned(),
            TokenKind::I8 => "`i8`".to_owned(),
            TokenKind::I32 => "`i32`".to_owned(),
            TokenKind::I64 => "`i64`".to_owned(),
            TokenKind::U8 => "`u8`".to_owned(),
            TokenKind::U32 => "`u32`".to_owned(),
            TokenKind::U64 => "`u64`".to_owned(),
            TokenKind::F32 => "`f32`".to_owned(),
            TokenKind::F64 => "`f64`".to_owned(),
            TokenKind::Equal => "`=`".to_owned(),
            TokenKind::Minus => "`-`".to_owned(),
            TokenKind::Plus => "`+`".to_owned(),
            TokenKind::Star => "`*`".to_owned(),
            TokenKind::Slash => "`/`".to_owned(),
            TokenKind::Percent => "`%`".to_owned(),
            TokenKind::LessThan => "`<`".to_owned(),
            TokenKind::GreaterThan => "`>`".to_owned(),
            TokenKind::LessEqual => "`<=`".to_owned(),
            TokenKind::GreaterEqual => "`>=`".to_owned(),
            TokenKind::EqualEqual => "`==`".to_owned(),
            TokenKind::NotEqual => "`!=`".to_owned(),
            TokenKind::ShiftLeft => "`<<`".to_owned(),
            TokenKind::ShiftRight => "`>>`".to_owned(),
            TokenKind::Ampersand => "`&`".to_owned(),
            TokenKind::Pipe => "`|`".to_owned(),
            TokenKind::Caret => "`^`".to_owned(),
            TokenKind::AmpAmp => "`&&`".to_owned(),
            TokenKind::PipePipe => "`||`".to_owned(),
            TokenKind::PipeArrow => "`|>`".to_owned(),
            TokenKind::Not => "`!`".to_owned(),
            TokenKind::Dollar => "`$`".to_owned(),
            TokenKind::Hash => "`#`".to_owned(),
            TokenKind::Semicolon => "`;`".to_owned(),
            TokenKind::Comma => "`,`".to_owned(),
            TokenKind::Colon => "`:`".to_owned(),
            TokenKind::Dot => "`.`".to_owned(),
            TokenKind::Eof => "end of input".to_owned(),
        }
    }
}

/// The message for each lexer error.
pub open spec fn error_message(k: ErrorKind) -> Seq<char> {
    match k {
        ErrorKind::UnexpectedChar(c) => "unexpected character: "@ + quoted(seq![c]),
        ErrorKind::UnexpectedText(t) => "unexpected text: "@ + quoted(t@),
        ErrorKind::InvalidInt(t) => "invalid integer: "@ + quoted(t@),
        ErrorKind::UnterminatedString => "unterminated string literal"@,
        ErrorKind::InvalidEscape(c) => "invalid escape sequence: "@ + quoted(seq!['\\', c]),
        ErrorKind::UnterminatedComment => "unterminated block comment"@,
        ErrorKind::UnterminatedChar => "unterminated character literal"@,
        ErrorKind::EmptyChar => "empty character literal"@,
        ErrorKind::NonAsciiChar(c) => "non-ASCII character in character literal: "@ + quoted(
            seq![c],
        ),
    }
}

impl ErrorKind {
    pub fn message(&self) -> (r: String)
        ensures
            r@ == error_message(*self),
    {
        let mut s = String::new();
        match self {
            ErrorKind::UnexpectedChar(c) => {
                append_str(&mut s, "unexpected character: ");
                push_char(&mut s, '`');
                push_char(&mut s, *c);
                push_char(&mut s, '`');
            },
            ErrorKind::UnexpectedText(t) => {
                append_str(&mut s, "unexpected text: ");
                quote_into(&mut s, t);
            },
            ErrorKind::InvalidInt(t) => {
                append_str(&mut s, "invalid integer: ");
                quote_into(&mut s, t);
            },
            ErrorKind::UnterminatedString => {
                append_str(&mut s, "unterminated string literal");
            },
            ErrorKind::InvalidEscape(c) => {
                append_str(&mut s, "invalid escape sequence: ");
                push_char(&mut s, '`');
                push_char(&mut s, '\\');
                push_char(&mut s, *c);
                push_char(&mut s, '`');
            },
            ErrorKind::UnterminatedComment => {
                append_str(&mut s, "unterminated block comment");
            },
            ErrorKind::UnterminatedChar => {
                append_str(&mut s, "unterminated character literal");
            },
            ErrorKind::EmptyChar => {
                append_str(&mut s, "empty character literal");
            },
            ErrorKind::NonAsciiChar(c) => {
                append_str(&mut s, "non-ASCII character in character literal: ");
                push_char(&mut s, '`');
                push_char(&mut s, *c);
                push_char(&mut s, '`');
            },
        }
        assert(s@ =~= error_message(*self));
        s
    }
}

/// The message for a lexer error, from its content.
pub open spec fn error_view_message(ev: ErrorView) -> Seq<char> {
    if ev.tag == 0 {
        "unexpected character: "@ + quoted(seq![ev.ch])
    } else if ev.tag == 1 {
        "unexpected text: "@ + quoted(ev.text)
    } else if ev.tag == 2 {
        "invalid integer: "@ + quoted(ev.text)
    } else if ev.tag == 3 {
        "unterminated string literal"@
    } else if ev.tag == 4 {
        "invalid escape sequence: "@ + quoted(seq!['\\', ev.ch])
    } else if ev.tag == 5 {
        "unterminated block comment"@
    } else if ev.tag == 6 {
        "unterminated character literal"@
    } else if ev.tag == 7 {
        "empty character literal"@
    } else {
        "non-ASCII character in character literal: "@ + quoted(seq![ev.ch])
    }
}

/// The message of a lexer error depends only on its content.
pub proof fn lemma_error_message_view(k: ErrorKind)
    ensures
        error_message(k) == error_view_message(err_view(k)),
{
}

} // verus!
