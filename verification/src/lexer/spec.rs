//! What the lexer computes, stated over the source as a sequence of
//! characters. Each rule reads a token (or skips blanks and comments) starting
//! at a character index and says where the next one starts.

use crate::lexer::error::{ev_char, ev_plain, ev_text, ErrorView};
use crate::lexer::types::{
    kind_view, plain, span_at, KindView, Token, TAG_CHAR_LIT, TAG_FLOAT_LIT, TAG_IDENTIFIER,
    TAG_INT_LIT, TAG_STR_LIT,
};
use vstd::prelude::*;

verus! {

pub open spec fn at(s: Seq<char>, i: int) -> Option<char> {
    if 0 <= i < s.len() {
        Some(s[i])
    } else {
        None
    }
}

pub open spec fn is_digit(c: char) -> bool {
    '0' <= c && c <= '9'
}

pub open spec fn is_alpha(c: char) -> bool {
    ('a' <= c && c <= 'z') || ('A' <= c && c <= 'Z')
}

pub open spec fn is_ident_char(c: char) -> bool {
    is_alpha(c) || is_digit(c) || c == '_'
}

pub open spec fn digit_at(s: Seq<char>, i: int) -> bool {
    0 <= i < s.len() && is_digit(s[i])
}

/// The first index at or after `i` that does not hold a decimal digit.
pub open spec fn digits_end(s: Seq<char>, i: int) -> int
    decreases s.len() - i,
{
    if 0 <= i < s.len() && is_digit(s[i]) {
        digits_end(s, i + 1)
    } else {
        i
    }
}

/// The first index at or after `i` that does not hold an identifier
/// character (ASCII letter, digit or `_`).
pub open spec fn ident_end(s: Seq<char>, i: int) -> int
    decreases s.len() - i,
{
    if 0 <= i < s.len() && is_ident_char(s[i]) {
        ident_end(s, i + 1)
    } else {
        i
    }
}

/// The first index at or after `i` that holds a newline, or the end.
pub open spec fn line_end(s: Seq<char>, i: int) -> int
    decreases s.len() - i,
{
    if 0 <= i < s.len() && s[i] != '\n' {
        line_end(s, i + 1)
    } else {
        i
    }
}

/// The decimal value of a sequence of digits.
pub open spec fn digits_value(s: Seq<char>) -> int
    decreases s.len(),
{
    if s.len() == 0 {
        0
    } else {
        digits_value(s.drop_last()) * 10 + (s.last() as int - '0' as int)
    }
}

/// The tag of the keyword spelled by `w`, if it is one.
pub open spec fn keyword_tag(w: Seq<char>) -> Option<int> {
    if w == seq!['l', 'e', 't'] {
        Some(6)
    } else if w == seq!['r', 'e', 't', 'u', 'r', 'n'] {
        Some(7)
    } else if w == seq!['a', 's'] {
        Some(8)
    } else if w == seq!['i', 'f'] {
        Some(9)
    } else if w == seq!['e', 'l', 's', 'e'] {
        Some(10)
    } else if w == seq!['s', 't', 'r', 'u', 'c', 't'] {
        Some(11)
    } else if w == seq!['e', 'n', 'u', 'm'] {
        Some(12)
    } else if w == seq!['m', 'a', 't', 'c', 'h'] {
        Some(13)
    } else if w == seq!['w', 'h', 'i', 'l', 'e'] {
        Some(14)
    } else if w == seq!['b', 'r', 'e', 'a', 'k'] {
        Some(15)
    } else if w == seq!['d', 'e', 'f', 'e', 'r'] {
        Some(16)
    } else if w == seq!['i', 'm', 'p', 'o', 'r', 't'] {
        Some(17)
    } else if w == seq!['e', 'x', 't', 'e', 'r', 'n'] {
        Some(18)
    } else if w == seq!['n', 'u', 'l', 'l'] {
        Some(19)
    } else if w == seq!['I', 'n', 't'] {
        Some(20)
    } else if w == seq!['U', 'I', 'n', 't'] {
        Some(21)
    } else if w == seq!['F', 'l', 'o', 'a', 't'] {
        Some(22)
    } else if w == seq!['i', '8'] {
        Some(23)
    } else if w == seq!['i', '3', '2'] {
        Some(24)
    } else if w == seq!['i', '6', '4'] {
        Some(25)
    } else if w == seq!['u', '8'] {
        Some(26)
    } else if w == seq!['u', '3', '2'] {
        Some(27)
    } else if w == seq!['u', '6', '4'] {
        Some(28)
    } else if w == seq!['f', '3', '2'] {
        Some(29)
    } else if w == seq!['f', '6', '4'] {
        Some(30)
    } else {
        None
    }
}

/// The kind of a word: a keyword, or else an identifier.
pub open spec fn word_kind(w: Seq<char>) -> KindView {
    match keyword_tag(w) {
        Some(t) => plain(t),
        None => KindView { tag: TAG_IDENTIFIER as int, num: 0, text: w },
    }
}

/// Kinds after which a token can only continue an expression: a `.` that
/// follows one of them is a field access, never the start of a number.
pub open spec fn ends_expr(k: KindView) -> bool {
    k.tag == 31 || k.tag == 55 || k.tag == 56 || k.tag == 57 || k.tag == 58 || k.tag == 3
        || k.tag == 5
}

/// One step of the lexer.
pub enum Scan {
    /// Blanks or a comment: go on at `next`.
    Skip { next: int },
    /// A token spanning `[start, next)` where `start` is the index scanned.
    Emit { kind: KindView, next: int },
    /// An error with the span `[start, end)`.
    Fail { err: ErrorView, start: int, end: int },
}

/// The number starting at `i`. After a `.` (`integer_only`) only digits are
/// read, so that `t.0.1` is a chain of tuple fields.
pub open spec fn scan_number(s: Seq<char>, i: int, integer_only: bool) -> Scan {
    let j1 = digits_end(s, i);
    let frac = !integer_only && at(s, j1) == Some('.') && (j1 == i || digit_at(s, j1 + 1));
    let j2 = if frac {
        digits_end(s, j1 + 1)
    } else {
        j1
    };
    let expo = !integer_only && (at(s, j2) == Some('e') || at(s, j2) == Some('E'));
    let k = if at(s, j2 + 1) == Some('+') || at(s, j2 + 1) == Some('-') {
        j2 + 2
    } else {
        j2 + 1
    };
    let j3 = if expo {
        digits_end(s, k)
    } else {
        j2
    };
    let text = s.subrange(i, j3);
    if expo && j3 == k {
        Scan::Fail { err: ev_text(1, text), start: i, end: j3 }
    } else if 0 <= j3 < s.len() && (is_alpha(s[j3]) || s[j3] == '_') {
        let j4 = ident_end(s, j3);
        Scan::Fail { err: ev_text(1, s.subrange(i, j4)), start: i, end: j4 }
    } else if frac || expo {
        if j1 > i || (frac && j2 > j1 + 1) {
            Scan::Emit { kind: KindView { tag: TAG_FLOAT_LIT as int, num: 0, text }, next: j3 }
        } else {
            Scan::Fail { err: ev_text(1, text), start: i, end: j3 }
        }
    } else if text.len() > 0 && digits_value(text) <= 0x7fff_ffff {
        Scan::Emit {
            kind: KindView { tag: TAG_INT_LIT as int, num: digits_value(text), text: Seq::empty() },
            next: j3,
        }
    } else {
        Scan::Fail { err: ev_text(2, text), start: i, end: j3 }
    }
}

/// The character an escape `\c` stands for inside a string literal.
pub open spec fn string_escape(c: char) -> Option<char> {
    if c == 'n' {
        Some('\n')
    } else if c == 't' {
        Some('\t')
    } else if c == 'r' {
        Some('\r')
    } else if c == '0' {
        Some('\0')
    } else if c == '\\' {
        Some('\\')
    } else if c == '"' {
        Some('"')
    } else {
        None
    }
}

/// The byte an escape `\c` stands for inside a character literal.
pub open spec fn char_escape(c: char) -> Option<u8> {
    if c == 'n' {
        Some(10u8)
    } else if c == 't' {
        Some(9u8)
    } else if c == 'r' {
        Some(13u8)
    } else if c == '0' {
        Some(0u8)
    } else if c == '\\' {
        Some(92u8)
    } else if c == '\'' {
        Some(39u8)
    } else if c == '"' {
        Some(34u8)
    } else {
        None
    }
}

/// The rest of a string literal opened at `start`, read from `j` with the
/// decoded contents `acc` so far.
pub open spec fn scan_string_from(s: Seq<char>, start: int, j: int, acc: Seq<char>) -> Scan
    decreases s.len() - j,
{
    if j < 0 || j >= s.len() || s[j] == '\n' {
        Scan::Fail { err: ev_plain(3), start, end: j }
    } else if s[j] == '"' {
        Scan::Emit { kind: KindView { tag: TAG_STR_LIT as int, num: 0, text: acc }, next: j + 1 }
    } else if s[j] == '\\' {
        if j + 1 >= s.len() {
            Scan::Fail { err: ev_plain(3), start, end: j + 1 }
        } else {
            match string_escape(s[j + 1]) {
                Some(c) => scan_string_from(s, start, j + 2, acc.push(c)),
                None => Scan::Fail { err: ev_char(4, s[j + 1]), start: j + 1, end: j + 2 },
            }
        }
    } else {
        scan_string_from(s, start, j + 1, acc.push(s[j]))
    }
}

pub open spec fn scan_string(s: Seq<char>, i: int) -> Scan {
    scan_string_from(s, i, i + 1, Seq::empty())
}

/// A character literal opened at `i`: one ASCII character or one escape,
/// then the closing quote.
pub open spec fn scan_char(s: Seq<char>, i: int) -> Scan {
    let j = i + 1;
    if j >= s.len() || s[j] == '\n' {
        Scan::Fail { err: ev_plain(6), start: i, end: if j <= s.len() { j } else { s.len() as int } }
    } else if s[j] == '\'' {
        Scan::Fail { err: ev_plain(7), start: i, end: j + 1 }
    } else if s[j] == '\\' && j + 1 >= s.len() {
        Scan::Fail { err: ev_plain(6), start: i, end: j + 1 }
    } else if s[j] == '\\' && char_escape(s[j + 1]) is None {
        Scan::Fail { err: ev_char(4, s[j + 1]), start: j + 1, end: j + 2 }
    } else if s[j] != '\\' && (s[j] as u32) >= 0x80 {
        Scan::Fail { err: ev_char(8, s[j]), start: j, end: j + 1 }
    } else {
        let (byte, next) = if s[j] == '\\' {
            (char_escape(s[j + 1])->0, j + 2)
        } else {
            (s[j] as u8, j + 1)
        };
        if next < s.len() && s[next] == '\'' {
            Scan::Emit { kind: KindView { tag: TAG_CHAR_LIT as int, num: byte as int, text: Seq::empty() }, next: next + 1 }
        } else {
            Scan::Fail { err: ev_plain(6), start: i, end: next }
        }
    }
}

/// Where a (nested) block comment ends, reading from `j` at nesting `depth`;
/// `None` when the input ends first.
pub open spec fn block_comment_end(s: Seq<char>, j: int, depth: nat) -> Option<int>
    decreases s.len() - j,
{
    if depth == 0 {
        Some(j)
    } else if j < 0 || j >= s.len() {
        None
    } else if s[j] == '/' && j + 1 < s.len() && s[j + 1] == '*' {
        block_comment_end(s, j + 2, depth + 1)
    } else if s[j] == '*' && j + 1 < s.len() && s[j + 1] == '/' {
        block_comment_end(s, j + 2, (depth - 1) as nat)
    } else {
        block_comment_end(s, j + 1, depth)
    }
}

/// The tag of a token made of the single character `c` alone.
pub open spec fn single_tag(c: char) -> Option<int> {
    if c == ';' {
        Some(59)
    } else if c == ',' {
        Some(60)
    } else if c == ':' {
        Some(61)
    } else if c == '{' {
        Some(0)
    } else if c == '}' {
        Some(1)
    } else if c == '(' {
        Some(2)
    } else if c == ')' {
        Some(3)
    } else if c == '[' {
        Some(4)
    } else if c == ']' {
        Some(5)
    } else if c == '-' {
        Some(33)
    } else if c == '+' {
        Some(34)
    } else if c == '*' {
        Some(35)
    } else if c == '%' {
        Some(37)
    } else if c == '^' {
        Some(48)
    } else if c == '$' {
        Some(53)
    } else if c == '#' {
        Some(54)
    } else {
        None
    }
}

pub open spec fn emit1(t: int, i: int) -> Scan {
    Scan::Emit { kind: plain(t), next: i + 1 }
}

pub open spec fn emit2(t: int, i: int) -> Scan {
    Scan::Emit { kind: plain(t), next: i + 2 }
}

/// One step of the lexer at index `i < s.len()`. `prev_ends_expr` and
/// `after_dot` describe the last token emitted.
pub open spec fn scan_token(s: Seq<char>, i: int, prev_ends_expr: bool, after_dot: bool) -> Scan {
    let c = s[i];
    let n = at(s, i + 1);
    if c == ' ' || c == '\t' || c == '\r' || c == '\n' {
        Scan::Skip { next: i + 1 }
    } else if single_tag(c) is Some {
        emit1(single_tag(c)->0, i)
    } else if c == '=' {
        if n == Some('=') {
            emit2(42, i)
        } else {
            emit1(32, i)
        }
    } else if c == '/' {
        if n == Some('/') {
            Scan::Skip { next: line_end(s, i + 2) }
        } else if n == Some('*') {
            match block_comment_end(s, i + 2, 1) {
                Some(e) => Scan::Skip { next: e },
                None => Scan::Fail { err: ev_plain(5), start: i, end: s.len() as int },
            }
        } else {
            emit1(36, i)
        }
    } else if c == '!' {
        if n == Some('=') {
            emit2(43, i)
        } else {
            emit1(52, i)
        }
    } else if c == '<' {
        if n == Some('=') {
            emit2(40, i)
        } else if n == Some('<') {
            emit2(44, i)
        } else {
            emit1(38, i)
        }
    } else if c == '>' {
        if n == Some('=') {
            emit2(41, i)
        } else if n == Some('>') {
            emit2(45, i)
        } else {
            emit1(39, i)
        }
    } else if c == '&' {
        if n == Some('&') {
            emit2(49, i)
        } else {
            emit1(46, i)
        }
    } else if c == '|' {
        if n == Some('|') {
            emit2(50, i)
        } else if n == Some('>') {
            emit2(51, i)
        } else {
            emit1(47, i)
        }
    } else if c == '"' {
        scan_string(s, i)
    } else if c == '\'' {
        scan_char(s, i)
    } else if is_alpha(c) || c == '_' {
        Scan::Emit { kind: word_kind(s.subrange(i, ident_end(s, i))), next: ident_end(s, i) }
    } else if is_digit(c) {
        scan_number(s, i, after_dot)
    } else if c == '.' && digit_at(s, i + 1) && !prev_ends_expr {
        scan_number(s, i, false)
    } else if c == '.' {
        emit1(62, i)
    } else {
        Scan::Fail { err: ev_char(0, c), start: i, end: i + 1 }
    }
}

/// The outcome of lexing a suffix: the tokens read (kind, start, end), or
/// the first error.
pub enum LexOut {
    Done(Seq<(KindView, int, int)>),
    Failed(ErrorView, int, int),
}

pub open spec fn prepend(p: Seq<(KindView, int, int)>, o: LexOut) -> LexOut {
    match o {
        LexOut::Done(rest) => LexOut::Done(p + rest),
        LexOut::Failed(e, a, b) => LexOut::Failed(e, a, b),
    }
}

/// Lexing `s` from index `i`.
pub open spec fn lex_from(s: Seq<char>, i: int, prev_ends_expr: bool, after_dot: bool) -> LexOut
    decreases s.len() - i,
{
    if i < 0 || i >= s.len() {
        LexOut::Done(Seq::empty())
    } else {
        match scan_token(s, i, prev_ends_expr, after_dot) {
            Scan::Skip { next } => if i < next <= s.len() {
                lex_from(s, next, prev_ends_expr, after_dot)
            } else {
                LexOut::Done(Seq::empty())
            },
            Scan::Emit { kind, next } => if i < next <= s.len() {
                prepend(
                    seq![(kind, i, next)],
                    lex_from(s, next, ends_expr(kind), kind.tag == 62),
                )
            } else {
                LexOut::Done(Seq::empty())
            },
            Scan::Fail { err, start, end } => LexOut::Failed(err, start, end),
        }
    }
}

/// The whole source, lexed from its first character.
pub open spec fn lex(s: Seq<char>) -> LexOut {
    lex_from(s, 0, false, false)
}

/// The exec tokens `toks` are the spec tokens `ts` followed by the end
/// marker, with spans at the positions of their indices.
pub open spec fn tokens_agree(toks: Seq<Token>, ts: Seq<(KindView, int, int)>, s: Seq<char>, base: int) -> bool {
    &&& toks.len() == ts.len() + 1
    &&& forall|k: int|
        0 <= k < ts.len() ==> kind_view(#[trigger] toks[k].kind) == ts[k].0 && toks[k].span
            == span_at(s, base, ts[k].1, ts[k].2)
    &&& toks.last().kind is Eof
    &&& toks.last().span == span_at(s, base, s.len() as int, s.len() as int)
}

pub proof fn lemma_prepend_assoc(p: Seq<(KindView, int, int)>, q: Seq<(KindView, int, int)>, o: LexOut)
    ensures
        prepend(p, prepend(q, o)) == prepend(p + q, o),
{
    match o {
        LexOut::Done(rest) => {
            assert(p + (q + rest) =~= (p + q) + rest);
        },
        LexOut::Failed(..) => {},
    }
}

pub proof fn lemma_prepend_empty(o: LexOut)
    ensures
        prepend(Seq::empty(), o) == o,
{
    match o {
        LexOut::Done(rest) => {
            assert(Seq::<(KindView, int, int)>::empty() + rest =~= rest);
        },
        LexOut::Failed(..) => {},
    }
}

// ---------------------------------------------------------------------------
// Characterizations of the scanning functions, used to connect loops with
// the recursive definitions.
// ---------------------------------------------------------------------------

pub proof fn lemma_digits_end(s: Seq<char>, i: int, e: int)
    requires
        0 <= i <= e <= s.len(),
        forall|k: int| i <= k < e ==> is_digit(s[k]),
        e == s.len() || !is_digit(s[e]),
    ensures
        digits_end(s, i) == e,
    decreases e - i,
{
    if i < e {
        lemma_digits_end(s, i + 1, e);
    }
}

pub proof fn lemma_ident_end(s: Seq<char>, i: int, e: int)
    requires
        0 <= i <= e <= s.len(),
        forall|k: int| i <= k < e ==> is_ident_char(s[k]),
        e == s.len() || !is_ident_char(s[e]),
    ensures
        ident_end(s, i) == e,
    decreases e - i,
{
    if i < e {
        lemma_ident_end(s, i + 1, e);
    }
}

pub proof fn lemma_line_end(s: Seq<char>, i: int, e: int)
    requires
        0 <= i <= e <= s.len(),
        forall|k: int| i <= k < e ==> s[k] != '\n',
        e == s.len() || s[e] == '\n',
    ensures
        line_end(s, i) == e,
    decreases e - i,
{
    if i < e {
        lemma_line_end(s, i + 1, e);
    }
}

pub proof fn lemma_digits_end_bounds(s: Seq<char>, i: int)
    requires
        0 <= i <= s.len(),
    ensures
        i <= digits_end(s, i) <= s.len(),
        forall|k: int| i <= k < digits_end(s, i) ==> is_digit(s[k]),
    decreases s.len() - i,
{
    if i < s.len() && is_digit(s[i]) {
        lemma_digits_end_bounds(s, i + 1);
    }
}

pub proof fn lemma_ident_end_bounds(s: Seq<char>, i: int)
    requires
        0 <= i <= s.len(),
    ensures
        i <= ident_end(s, i) <= s.len(),
    decreases s.len() - i,
{
    if i < s.len() && is_ident_char(s[i]) {
        lemma_ident_end_bounds(s, i + 1);
    }
}

pub proof fn lemma_line_end_bounds(s: Seq<char>, i: int)
    requires
        0 <= i <= s.len(),
    ensures
        i <= line_end(s, i) <= s.len(),
    decreases s.len() - i,
{
    if i < s.len() && s[i] != '\n' {
        lemma_line_end_bounds(s, i + 1);
    }
}

/// A value read digit by digit never shrinks.
pub proof fn lemma_digits_value_prefix(s: Seq<char>, k: int)
    requires
        0 <= k <= s.len(),
        forall|m: int| 0 <= m < s.len() ==> is_digit(s[m]),
    ensures
        0 <= digits_value(s.take(k)) <= digits_value(s),
    decreases s.len() - k,
{
    if k < s.len() {
        lemma_digits_value_prefix(s, k + 1);
        let t = s.take(k + 1);
        assert(t.drop_last() =~= s.take(k));
        assert(t.last() == s[k]);
        lemma_digits_value_nonneg(s.take(k));
    } else {
        assert(s.take(k) =~= s);
        lemma_digits_value_nonneg(s);
    }
}

pub proof fn lemma_digits_value_nonneg(s: Seq<char>)
    requires
        forall|m: int| 0 <= m < s.len() ==> is_digit(s[m]),
    ensures
        0 <= digits_value(s),
    decreases s.len(),
{
    if s.len() > 0 {
        lemma_digits_value_nonneg(s.drop_last());
    }
}

pub proof fn lemma_string_progress(s: Seq<char>, start: int, j: int, acc: Seq<char>)
    requires
        0 <= j,
    ensures
        scan_string_from(s, start, j, acc) matches Scan::Emit { next, .. } ==> j < next <= s.len(),
        !(scan_string_from(s, start, j, acc) is Skip),
    decreases s.len() - j,
{
    if j < s.len() && s[j] != '\n' && s[j] != '"' {
        if s[j] == '\\' {
            if j + 1 < s.len() {
                if let Some(c) = string_escape(s[j + 1]) {
                    lemma_string_progress(s, start, j + 2, acc.push(c));
                }
            }
        } else {
            lemma_string_progress(s, start, j + 1, acc.push(s[j]));
        }
    }
}

pub proof fn lemma_block_comment_progress(s: Seq<char>, j: int, depth: nat)
    requires
        0 <= j <= s.len(),
    ensures
        block_comment_end(s, j, depth) matches Some(e) ==> j <= e <= s.len(),
    decreases s.len() - j,
{
    if depth != 0 && j < s.len() {
        if s[j] == '/' && j + 1 < s.len() && s[j + 1] == '*' {
            lemma_block_comment_progress(s, j + 2, depth + 1);
        } else if s[j] == '*' && j + 1 < s.len() && s[j + 1] == '/' {
            lemma_block_comment_progress(s, j + 2, (depth - 1) as nat);
        } else {
            lemma_block_comment_progress(s, j + 1, depth);
        }
    }
}

pub proof fn lemma_number_progress(s: Seq<char>, i: int, integer_only: bool)
    requires
        0 <= i < s.len(),
        is_digit(s[i]) || (!integer_only && s[i] == '.' && digit_at(s, i + 1)),
    ensures
        scan_number(s, i, integer_only) matches Scan::Emit { next, .. } ==> i < next <= s.len(),
{
    lemma_digits_end_bounds(s, i);
    lemma_digits_end_bounds(s, i + 1);
    let j1 = digits_end(s, i);
    if is_digit(s[i]) {
        assert(j1 == digits_end(s, i + 1));
    }
    let frac = !integer_only && at(s, j1) == Some('.') && (j1 == i || digit_at(s, j1 + 1));
    if frac {
        lemma_digits_end_bounds(s, j1 + 1);
    }
    let j2 = if frac { digits_end(s, j1 + 1) } else { j1 };
    assert(i < j2 <= s.len());
    let expo = !integer_only && (at(s, j2) == Some('e') || at(s, j2) == Some('E'));
    if expo {
        lemma_digits_end_bounds(s, j2 + 1);
        if j2 + 2 <= s.len() {
            lemma_digits_end_bounds(s, j2 + 2);
        }
    }
}

/// Every step that does not fail moves forward and stays inside the source.
pub proof fn lemma_scan_progress(s: Seq<char>, i: int, prev_ends_expr: bool, after_dot: bool)
    requires
        0 <= i < s.len(),
    ensures
        scan_token(s, i, prev_ends_expr, after_dot) matches Scan::Skip { next } ==> i < next
            <= s.len(),
        scan_token(s, i, prev_ends_expr, after_dot) matches Scan::Emit { next, .. } ==> i < next
            <= s.len(),
{
    let c = s[i];
    let n = at(s, i + 1);
    if c == '/' && n == Some('/') {
        lemma_line_end_bounds(s, i + 2);
        assert(i + 2 <= line_end(s, i + 2) <= s.len());

    } else if c == '/' && n == Some('*') {
        lemma_block_comment_progress(s, i + 2, 1);
        assert(block_comment_end(s, i + 2, 1) matches Some(e) ==> i + 2 <= e <= s.len());

    } else if c == '"' {
        lemma_string_progress(s, i, i + 1, Seq::empty());
    } else if is_alpha(c) || c == '_' {
        lemma_ident_end_bounds(s, i + 1);
        assert(ident_end(s, i) == ident_end(s, i + 1));
    } else if is_digit(c) {
        lemma_number_progress(s, i, after_dot);
    } else if c == '.' && digit_at(s, i + 1) && !prev_ends_expr {
        lemma_number_progress(s, i, false);
    }
}

// ---------------------------------------------------------------------------
// Where tokens and errors lie.
// ---------------------------------------------------------------------------

proof fn lemma_string_fail_bounds(s: Seq<char>, start: int, j: int, acc: Seq<char>)
    requires
        0 <= start < j <= s.len(),
    ensures
        scan_string_from(s, start, j, acc) matches Scan::Fail { start: a, end: b, .. } ==> start <= a
            <= b <= s.len(),
        scan_string_from(s, start, j, acc) matches Scan::Emit { kind, .. } ==> kind.tag
            == TAG_STR_LIT,
    decreases s.len() - j,
{
    if j < s.len() && s[j] != '\n' && s[j] != '"' {
        if s[j] == '\\' {
            if j + 1 < s.len() {
                if let Some(c) = string_escape(s[j + 1]) {
                    lemma_string_fail_bounds(s, start, j + 2, acc.push(c));
                }
            }
        } else {
            lemma_string_fail_bounds(s, start, j + 1, acc.push(s[j]));
        }
    }
}

proof fn lemma_number_fail_bounds(s: Seq<char>, i: int, integer_only: bool)
    requires
        0 <= i < s.len(),
    ensures
        scan_number(s, i, integer_only) matches Scan::Fail { start, end, .. } ==> i <= start <= end
            <= s.len(),
{
    lemma_digits_end_bounds(s, i);
    let j1 = digits_end(s, i);
    let frac = !integer_only && at(s, j1) == Some('.') && (j1 == i || digit_at(s, j1 + 1));
    if frac {
        lemma_digits_end_bounds(s, j1 + 1);
    }
    let j2 = if frac {
        digits_end(s, j1 + 1)
    } else {
        j1
    };
    let expo = !integer_only && (at(s, j2) == Some('e') || at(s, j2) == Some('E'));
    let k = if at(s, j2 + 1) == Some('+') || at(s, j2 + 1) == Some('-') {
        j2 + 2
    } else {
        j2 + 1
    };
    if expo {
        lemma_digits_end_bounds(s, k);
    }
    let j3 = if expo {
        digits_end(s, k)
    } else {
        j2
    };
    if 0 <= j3 < s.len() {
        lemma_ident_end_bounds(s, j3);
    }
}

/// A failing step reports a span inside the source, from where it started.
proof fn lemma_scan_fail_bounds(s: Seq<char>, i: int, prev_ends_expr: bool, after_dot: bool)
    requires
        0 <= i < s.len(),
    ensures
        scan_token(s, i, prev_ends_expr, after_dot) matches Scan::Fail { start, end, .. } ==> i <= start
            <= end <= s.len(),
{
    lemma_string_fail_bounds(s, i, i + 1, Seq::empty());
    lemma_number_fail_bounds(s, i, after_dot);
    lemma_number_fail_bounds(s, i, false);
}

/// What lexing from `i` gives lies inside the source from `i` on: tokens in
/// order, each non-empty and none of them the end marker; an error's span
/// too.
pub proof fn lemma_lex_from_bounds(s: Seq<char>, i: int, prev_ends_expr: bool, after_dot: bool)
    requires
        0 <= i,
    ensures
        lex_from(s, i, prev_ends_expr, after_dot) matches LexOut::Done(ts) ==> (forall|k: int|
            0 <= k < ts.len() ==> i <= (#[trigger] ts[k]).1 < ts[k].2 <= s.len() && ts[k].0.tag != 63)
            && (forall|k: int| 0 <= k < ts.len() - 1 ==> (#[trigger] ts[k]).2 <= ts[k + 1].1),
        lex_from(s, i, prev_ends_expr, after_dot) matches LexOut::Failed(_, a, b) ==> i <= a <= b
            <= s.len(),
    decreases s.len() - i,
{
    if i < s.len() {
        lemma_scan_progress(s, i, prev_ends_expr, after_dot);
        lemma_scan_fail_bounds(s, i, prev_ends_expr, after_dot);
        lemma_scan_not_eof(s, i, prev_ends_expr, after_dot);
        match scan_token(s, i, prev_ends_expr, after_dot) {
            Scan::Skip { next } => {
                lemma_lex_from_bounds(s, next, prev_ends_expr, after_dot);
            },
            Scan::Emit { kind, next } => {
                lemma_lex_from_bounds(s, next, ends_expr(kind), kind.tag == 62);
                let rest = lex_from(s, next, ends_expr(kind), kind.tag == 62);
                if let LexOut::Done(r) = rest {
                    let ts = seq![(kind, i, next)] + r;
                    assert forall|k: int| 0 <= k < ts.len() implies i <= (#[trigger] ts[k]).1 < ts[k].2
                        <= s.len() && ts[k].0.tag != 63 by {
                        if k > 0 {
                            assert(ts[k] == r[k - 1]);
                        }
                    }
                    assert forall|k: int| 0 <= k < ts.len() - 1 implies (#[trigger] ts[k]).2 <= ts[k
                        + 1].1 by {
                        assert(ts[k + 1] == r[k]);
                        if k > 0 {
                            assert(ts[k] == r[k - 1]);
                        }
                    }
                }
            },
            Scan::Fail { .. } => {},
        }
    }
}

/// No step emits the end marker.
proof fn lemma_scan_not_eof(s: Seq<char>, i: int, prev_ends_expr: bool, after_dot: bool)
    requires
        0 <= i < s.len(),
    ensures
        scan_token(s, i, prev_ends_expr, after_dot) matches Scan::Emit { kind, .. } ==> kind.tag
            != 63,
{
    lemma_string_fail_bounds(s, i, i + 1, Seq::empty());
}

/// A character-literal escape stands for the same character as the
/// string-literal escape of the same letter (`'\n'` is byte 10, `'\t'` 9,
/// `'\r'` 13, `'\0'` 0); a character literal may also escape `'`, and
/// nothing else.
pub proof fn law_char_escapes_match_string_escapes(c: char)
    ensures
        string_escape(c) matches Some(d) ==> char_escape(c) == Some(d as u8),
        c == '\'' ==> char_escape(c) == Some(39u8),
        char_escape(c) is Some ==> string_escape(c) is Some || c == '\'',
        c == 'n' ==> char_escape(c) == Some(10u8),
        c == 't' ==> char_escape(c) == Some(9u8),
        c == 'r' ==> char_escape(c) == Some(13u8),
        c == '0' ==> char_escape(c) == Some(0u8),
{
}

/// The character literal `'\c'` for an escape `c` of string literals is
/// one token whose value is the byte of the escaped character.
pub proof fn law_escaped_char_literal(s: Seq<char>, i: int)
    requires
        0 <= i,
        i + 3 < s.len(),
        s[i + 1] == '\\',
        string_escape(s[i + 2]) is Some,
        s[i + 3] == '\'',
    ensures
        scan_char(s, i) == (Scan::Emit {
            kind: KindView {
                tag: TAG_CHAR_LIT as int,
                num: (string_escape(s[i + 2])->0 as u8) as int,
                text: Seq::empty(),
            },
            next: i + 4,
        }),
{
    law_char_escapes_match_string_escapes(s[i + 2]);
}

} // verus!
