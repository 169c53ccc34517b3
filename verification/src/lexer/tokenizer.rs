use crate::lexer::cursor::{is_alpha_exec, is_digit_exec, Cursor};
use crate::lexer::error::{err_view, Error, ErrorKind};
use crate::lexer::spec::{
    at, ends_expr, lemma_lex_from_bounds, lemma_prepend_assoc, lemma_prepend_empty, lemma_scan_progress, lex,
    lex_from, prepend, scan_token, single_tag, tokens_agree, LexOut, Scan,
};
use crate::lexer::types::{
    bytes_of, kind_tag, kind_view, plain, span_at, KindView, Position, Span, Token, TokenKind,
};
use vstd::prelude::*;

verus! {

/// What one step of the lexer produced.
pub enum Step {
    Skipped,
    Emitted(Token),
    Failed(Error),
}

/// The token kind made of the single character `c` alone, if any.
fn single_kind(c: char) -> (r: Option<TokenKind>)
    ensures
        r is Some <==> single_tag(c) is Some,
        r matches Some(k) ==> kind_view(k) == plain(single_tag(c)->0),
{
    if c == ';' {
        Some(TokenKind::Semicolon)
    } else if c == ',' {
        Some(TokenKind::Comma)
    } else if c == ':' {
        Some(TokenKind::Colon)
    } else if c == '{' {
        Some(TokenKind::LeftBrace)
    } else if c == '}' {
        Some(TokenKind::RightBrace)
    } else if c == '(' {
        Some(TokenKind::LeftParen)
    } else if c == ')' {
        Some(TokenKind::RightParen)
    } else if c == '[' {
        Some(TokenKind::LeftBracket)
    } else if c == ']' {
        Some(TokenKind::RightBracket)
    } else if c == '-' {
        Some(TokenKind::Minus)
    } else if c == '+' {
        Some(TokenKind::Plus)
    } else if c == '*' {
        Some(TokenKind::Star)
    } else if c == '%' {
        Some(TokenKind::Percent)
    } else if c == '^' {
        Some(TokenKind::Caret)
    } else if c == '$' {
        Some(TokenKind::Dollar)
    } else if c == '#' {
        Some(TokenKind::Hash)
    } else {
        None
    }
}

/// Whether a token of kind `k` ends an expression (see `ends_expr`).
pub fn kind_ends_expr(k: &TokenKind) -> (r: bool)
    ensures
        r == ends_expr(kind_view(*k)),
{
    match k {
        TokenKind::Identifier(_) | TokenKind::Literal(_) | TokenKind::RightParen
        | TokenKind::RightBracket => true,
        _ => false,
    }
}

pub proof fn lemma_view_tag(k: TokenKind)
    ensures
        kind_view(k).tag == kind_tag(k),
{
}

/// One step of the lexer at the cursor, which is not at the end. `prev_ends_expr`
/// and `after_dot` describe the last token emitted.
pub fn scan_one(cursor: &mut Cursor, prev_ends_expr: bool, after_dot: bool) -> (r: Step)
    requires
        old(cursor).wf(),
        old(cursor).index() < old(cursor).src().len(),
    ensures
        final(cursor).wf(),
        final(cursor).src() == old(cursor).src(),
        final(cursor).base() == old(cursor).base(),
        ({
            let s = old(cursor).src();
            let i = old(cursor).index();
            let b = old(cursor).base();
            match scan_token(s, i, prev_ends_expr, after_dot) {
                Scan::Skip { next } => r is Skipped && final(cursor).index() == next,
                Scan::Emit { kind, next } => r matches Step::Emitted(t) && kind_view(t.kind)
                    == kind && t.span == span_at(s, b, i, next) && final(cursor).index() == next,
                Scan::Fail { err, start, end } => r matches Step::Failed(e) && err_view(e.kind)
                    == err && e.span == span_at(s, b, start, end),
            }
        }),
{
    proof {
        cursor.lemma_wf();
    }
    let ch = match cursor.peek() {
        Some(c) => c,
        None => {
            assert(false);
            return Step::Skipped;
        },
    };
    let n = cursor.peek_second();
    if ch == ' ' || ch == '\t' || ch == '\r' || ch == '\n' {
        cursor.bump();
        return Step::Skipped;
    }
    match single_kind(ch) {
        Some(k) => {
            return Step::Emitted(cursor.single(k));
        },
        None => {},
    }
    if ch == '=' {
        if n == Some('=') {
            Step::Emitted(cursor.double(TokenKind::EqualEqual))
        } else {
            Step::Emitted(cursor.single(TokenKind::Equal))
        }
    } else if ch == '/' {
        if n == Some('/') {
            cursor.line_comment();
            Step::Skipped
        } else if n == Some('*') {
            match cursor.block_comment() {
                Ok(()) => Step::Skipped,
                Err(e) => Step::Failed(e),
            }
        } else {
            Step::Emitted(cursor.single(TokenKind::Slash))
        }
    } else if ch == '!' {
        if n == Some('=') {
            Step::Emitted(cursor.double(TokenKind::NotEqual))
        } else {
            Step::Emitted(cursor.single(TokenKind::Not))
        }
    } else if ch == '<' {
        if n == Some('=') {
            Step::Emitted(cursor.double(TokenKind::LessEqual))
        } else if n == Some('<') {
            Step::Emitted(cursor.double(TokenKind::ShiftLeft))
        } else {
            Step::Emitted(cursor.single(TokenKind::LessThan))
        }
    } else if ch == '>' {
        if n == Some('=') {
            Step::Emitted(cursor.double(TokenKind::GreaterEqual))
        } else if n == Some('>') {
            Step::Emitted(cursor.double(TokenKind::ShiftRight))
        } else {
            Step::Emitted(cursor.single(TokenKind::GreaterThan))
        }
    } else if ch == '&' {
        if n == Some('&') {
            Step::Emitted(cursor.double(TokenKind::AmpAmp))
        } else {
            Step::Emitted(cursor.single(TokenKind::Ampersand))
        }
    } else if ch == '|' {
        if n == Some('|') {
            Step::Emitted(cursor.double(TokenKind::PipePipe))
        } else if n == Some('>') {
            Step::Emitted(cursor.double(TokenKind::PipeArrow))
        } else {
            Step::Emitted(cursor.single(TokenKind::Pipe))
        }
    } else if ch == '"' {
        match cursor.string() {
            Ok(t) => Step::Emitted(t),
            Err(e) => Step::Failed(e),
        }
    } else if ch == '\'' {
        match cursor.char_literal() {
            Ok(t) => Step::Emitted(t),
            Err(e) => Step::Failed(e),
        }
    } else if is_alpha_exec(ch) || ch == '_' {
        Step::Emitted(cursor.identifier_or_keyword())
    } else if is_digit_exec(ch) {
        match cursor.number(after_dot) {
            Ok(t) => Step::Emitted(t),
            Err(e) => Step::Failed(e),
        }
    } else if ch == '.' && (match n {
        Some(d) => is_digit_exec(d),
        None => false,
    }) && !prev_ends_expr {
        match cursor.number(false) {
            Ok(t) => Step::Emitted(t),
            Err(e) => Step::Failed(e),
        }
    } else if ch == '.' {
        Step::Emitted(cursor.single(TokenKind::Dot))
    } else {
        let start = cursor.position();
        cursor.bump();
        let end = cursor.position();
        Step::Failed(Error { kind: ErrorKind::UnexpectedChar(ch), span: Span { start, end } })
    }
}

/// Tokenizes `src`, treating its first byte as global offset `base`. This
/// keeps `Position::offset` unique across files so the multi-file source map
/// can map an offset back to its file. Line and column stay relative to this
/// file. On success the last token is the end marker `Eof`.
pub fn tokenize_at(src: &str, base: usize) -> (r: Result<Vec<Token>, Error>)
    requires
        base + bytes_of(src@) <= usize::MAX,
        bytes_of(src@) < usize::MAX,
    ensures
        tokenized(src@, base as int, r),
{
    let mut tokens: Vec<Token> = Vec::new();
    let mut cursor = Cursor::new(src, base);
    let mut prev_ends_expr = false;
    let mut after_dot = false;
    let ghost s = src@;
    let ghost mut prefix: Seq<(KindView, int, int)> = Seq::empty();
    proof {
        lemma_prepend_empty(lex(s));
    }
    loop
        invariant
            cursor.wf(),
            cursor.src() == s,
            s == src@,
            cursor.base() == base,
            lex(s) == prepend(prefix, lex_from(s, cursor.index(), prev_ends_expr, after_dot)),
            tokens@.len() == prefix.len(),
            forall|k: int|
                0 <= k < prefix.len() ==> kind_view(#[trigger] tokens@[k].kind) == prefix[k].0
                    && tokens@[k].span == span_at(s, base as int, prefix[k].1, prefix[k].2),
        ensures
            cursor.wf(),
            cursor.src() == s,
            cursor.base() == base,
            cursor.index() == s.len(),
            lex(s) == prepend(prefix, LexOut::Done(Seq::empty())),
            tokens@.len() == prefix.len(),
            forall|k: int|
                0 <= k < prefix.len() ==> kind_view(#[trigger] tokens@[k].kind) == prefix[k].0
                    && tokens@[k].span == span_at(s, base as int, prefix[k].1, prefix[k].2),
        decreases s.len() - cursor.index(),
    {
        proof {
            cursor.lemma_wf();
        }
        if cursor.peek().is_none() {
            break;
        }
        let ghost i = cursor.index();
        proof {
            lemma_scan_progress(s, i, prev_ends_expr, after_dot);
        }
        let step = scan_one(&mut cursor, prev_ends_expr, after_dot);
        match step {
            Step::Skipped => {},
            Step::Emitted(tok) => {
                let ghost entry = (kind_view(tok.kind), i, cursor.index());
                proof {
                    lemma_prepend_assoc(
                        prefix,
                        seq![entry],
                        lex_from(s, cursor.index(), ends_expr(kind_view(tok.kind)), kind_view(tok.kind).tag == 62),
                    );
                    lemma_view_tag(tok.kind);
                }
                prev_ends_expr = kind_ends_expr(&tok.kind);
                after_dot = tok.kind.tag() == 62;
                tokens.push(tok);
                proof {
                    assert(prefix.push(entry) =~= prefix + seq![entry]);
                    prefix = prefix.push(entry);
                }
            },
            Step::Failed(e) => {
                return Err(e);
            },
        }
    }
    let position = cursor.position();
    tokens.push(Token { kind: TokenKind::Eof, span: Span { start: position, end: position } });
    proof {
        assert(prefix + Seq::<(KindView, int, int)>::empty() =~= prefix);
    }
    Ok(tokens)
}

/// Tokenizes `src` with offsets starting at 0.
pub fn tokenize(src: &str) -> (r: Result<Vec<Token>, Error>)
    requires
        bytes_of(src@) < usize::MAX,
    ensures
        tokenized(src@, 0, r),
{
    tokenize_at(src, 0)
}

/// What `tokenize_at` gives for the source `s` with offsets from `base`.
pub open spec fn tokenized(s: Seq<char>, base: int, r: Result<Vec<Token>, Error>) -> bool {
    match lex(s) {
        LexOut::Done(ts) => r matches Ok(toks) && tokens_agree(toks@, ts, s, base),
        LexOut::Failed(ev, a, b) => r matches Err(e) && err_view(e.kind) == ev && e.span == span_at(
            s,
            base,
            a,
            b,
        ),
    }
}

/// `sp` moved `base` bytes on: offsets grow by `base`, lines and columns
/// stay.
pub open spec fn shift_span(sp: Span, base: int) -> Span {
    Span {
        start: Position { offset: (sp.start.offset + base) as usize, ..sp.start },
        end: Position { offset: (sp.end.offset + base) as usize, ..sp.end },
    }
}

/// Each character takes at least one byte.
proof fn lemma_bytes_take_mono(s: Seq<char>, a: int, b: int)
    requires
        0 <= a <= b <= s.len(),
    ensures
        bytes_of(s.take(a)) + (b - a) <= bytes_of(s.take(b)),
    decreases b - a,
{
    if a < b {
        lemma_bytes_take_mono(s, a, b - 1);
        assert(s.take(b).drop_last() =~= s.take(b - 1));
        assert(s.take(b).last() == s[b - 1]);
    }
}

proof fn lemma_bytes_take(s: Seq<char>, a: int, b: int)
    requires
        0 <= a <= b <= s.len(),
    ensures
        bytes_of(s.take(a)) + (b - a) <= bytes_of(s.take(b)),
        bytes_of(s.take(b)) <= bytes_of(s),
{
    lemma_bytes_take_mono(s, a, b);
    lemma_bytes_take_mono(s, b, s.len() as int);
    assert(s.take(s.len() as int) =~= s);
}

/// Tokenizing with offsets from `base` gives what tokenizing from 0 gives,
/// every span moved `base` bytes on: the same tokens, or the same error.
pub proof fn law_tokenize_base_shift(
    s: Seq<char>,
    base: int,
    r0: Result<Vec<Token>, Error>,
    rb: Result<Vec<Token>, Error>,
)
    requires
        0 <= base,
        base + bytes_of(s) <= usize::MAX,
        tokenized(s, 0, r0),
        tokenized(s, base, rb),
    ensures
        match (r0, rb) {
            (Ok(t0), Ok(tb)) => t0@.len() == tb@.len() && forall|k: int|
                0 <= k < t0@.len() ==> kind_view(#[trigger] tb@[k].kind) == kind_view(t0@[k].kind)
                    && tb@[k].span == shift_span(t0@[k].span, base),
            (Err(e0), Err(eb)) => err_view(eb.kind) == err_view(e0.kind) && eb.span == shift_span(
                e0.span,
                base,
            ),
            _ => false,
        },
{
    lemma_lex_from_bounds(s, 0, false, false);
    assert forall|i: int, j: int| 0 <= i <= j <= s.len() implies #[trigger] span_at(s, base, i, j)
        == shift_span(span_at(s, 0, i, j), base) by {
        lemma_bytes_take(s, i, s.len() as int);
        lemma_bytes_take(s, j, s.len() as int);
    }
    match lex(s) {
        LexOut::Done(ts) => {
            let t0 = r0->Ok_0@;
            let tb = rb->Ok_0@;
            assert forall|k: int| 0 <= k < t0.len() implies kind_view(#[trigger] tb[k].kind)
                == kind_view(t0[k].kind) && tb[k].span == shift_span(t0[k].span, base) by {
                if k < ts.len() {
                    assert(span_at(s, base, ts[k].1, ts[k].2) == shift_span(span_at(s, 0, ts[k].1, ts[k].2), base));
                } else {
                    assert(span_at(s, base, s.len() as int, s.len() as int) == shift_span(
                        span_at(s, 0, s.len() as int, s.len() as int),
                        base,
                    ));
                }
            }
        },
        LexOut::Failed(_, a, b) => {
            assert(span_at(s, base, a, b) == shift_span(span_at(s, 0, a, b), base));
        },
    }
}

/// The tokens come in order: each before the end marker covers at least one
/// byte and ends where or before the next starts, and only the last token is
/// the end marker.
pub proof fn law_tokens_in_order(s: Seq<char>, base: int, r: Result<Vec<Token>, Error>)
    requires
        0 <= base,
        base + bytes_of(s) <= usize::MAX,
        tokenized(s, base, r),
        r is Ok,
    ensures
        ({
            let toks = r->Ok_0@;
            &&& toks.len() > 0
            &&& toks.last().kind is Eof
            &&& forall|k: int| 0 <= k < toks.len() - 1 ==> !(#[trigger] toks[k].kind is Eof)
            &&& forall|k: int|
                0 <= k < toks.len() - 1 ==> (#[trigger] toks[k]).span.start.offset
                    < toks[k].span.end.offset && toks[k].span.end.offset
                    <= toks[k + 1].span.start.offset
        }),
{
    lemma_lex_from_bounds(s, 0, false, false);
    let toks = r->Ok_0@;
    let ts = lex(s)->Done_0;
    assert forall|k: int| 0 <= k < toks.len() - 1 implies !(#[trigger] toks[k].kind is Eof) by {
        lemma_view_tag(toks[k].kind);
        assert(kind_view(toks[k].kind) == ts[k].0);
    }
    assert forall|k: int| 0 <= k < toks.len() - 1 implies (#[trigger] toks[k]).span.start.offset
        < toks[k].span.end.offset && toks[k].span.end.offset <= toks[k + 1].span.start.offset by {
        let (_, a, b) = ts[k];
        assert(kind_view(toks[k].kind) == ts[k].0);
        lemma_bytes_take(s, a, b);
        lemma_bytes_take(s, b, s.len() as int);
        if k + 1 < ts.len() {
            let c = ts[k + 1].1;
            lemma_bytes_take(s, b, c);
            lemma_bytes_take(s, c, s.len() as int);
            assert(kind_view(toks[k + 1].kind) == ts[k + 1].0);
            assert(toks[k + 1].span == span_at(s, base, ts[k + 1].1, ts[k + 1].2));
        } else {
            lemma_bytes_take(s, b, s.len() as int);
            assert(toks[k + 1] == toks.last());
        }
        assert(toks[k].span == span_at(s, base, a, b));
    }
}

} // verus!
