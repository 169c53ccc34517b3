use crate::lexer::error::{err_view, ev_plain, Error, ErrorKind};
use crate::lexer::spec::{
    at, block_comment_end, digits_end, digits_value, ident_end, is_alpha, is_digit,
    is_ident_char, lemma_digits_end, lemma_digits_end_bounds, lemma_digits_value_prefix,
    lemma_ident_end, lemma_line_end, line_end, scan_char, scan_number, scan_string,
    scan_string_from, word_kind, Scan,
};
use crate::lexer::types::{
    bytes_of, char_width, col_of, kind_view, lemma_bytes_bounds, lemma_bytes_prefix_mono,
    lemma_line_col_bounds, lemma_take_step, line_of, pos_at, span_at, Literal, Position, Span,
    Token, TokenKind,
};
use vstd::prelude::*;

verus! {

/// Appends a character to a string.
///
/// Calls `String::push`, whose documentation says it appends the given char
/// to the end of the string; the contract states exactly that.
#[verifier::external_body]
pub(crate) fn push_char(s: &mut String, c: char)
    ensures
        final(s)@ == old(s)@.push(c),
{
    s.push(c);
}

/// The string made of `chars[i..j]`.
pub fn string_from(chars: &Vec<char>, i: usize, j: usize) -> (r: String)
    requires
        i <= j <= chars.len(),
    ensures
        r@ == chars@.subrange(i as int, j as int),
{
    let mut s = String::new();
    let mut k = i;
    while k < j
        invariant
            i <= k <= j <= chars.len(),
            s@ == chars@.subrange(i as int, k as int),
        decreases j - k,
    {
        push_char(&mut s, chars[k]);
        k += 1;
        assert(s@ =~= chars@.subrange(i as int, k as int));
    }
    s
}

/// A reading head over one source file. Positions carry a global byte
/// offset (`base` plus the bytes read so far) and a line and column local to
/// the file.
pub struct Cursor {
    chars: Vec<char>,
    base: usize,
    idx: usize,
    offset: usize,
    line: usize,
    column: usize,
}

pub fn char_width_exec(c: char) -> (w: usize)
    ensures
        w as nat == char_width(c),
{
    let u = c as u32;
    if u < 0x80 {
        1
    } else if u < 0x800 {
        2
    } else if u < 0x10000 {
        3
    } else {
        4
    }
}

pub fn is_digit_exec(c: char) -> (b: bool)
    ensures
        b == is_digit(c),
{
    c >= '0' && c <= '9'
}

pub fn is_alpha_exec(c: char) -> (b: bool)
    ensures
        b == is_alpha(c),
{
    (c >= 'a' && c <= 'z') || (c >= 'A' && c <= 'Z')
}

pub fn is_ident_char_exec(c: char) -> (b: bool)
    ensures
        b == is_ident_char(c),
{
    is_alpha_exec(c) || is_digit_exec(c) || c == '_'
}

fn digits_end_exec(chars: &Vec<char>, i: usize) -> (r: usize)
    requires
        i <= chars.len(),
    ensures
        r as int == digits_end(chars@, i as int),
        i <= r <= chars.len(),
{
    let mut k = i;
    while k < chars.len() && is_digit_exec(chars[k])
        invariant
            i <= k <= chars.len(),
            forall|m: int| i <= m < k ==> is_digit(chars@[m]),
        decreases chars.len() - k,
    {
        k += 1;
    }
    proof {
        lemma_digits_end(chars@, i as int, k as int);
    }
    k
}

fn ident_end_exec(chars: &Vec<char>, i: usize) -> (r: usize)
    requires
        i <= chars.len(),
    ensures
        r as int == ident_end(chars@, i as int),
        i <= r <= chars.len(),
{
    let mut k = i;
    while k < chars.len() && is_ident_char_exec(chars[k])
        invariant
            i <= k <= chars.len(),
            forall|m: int| i <= m < k ==> is_ident_char(chars@[m]),
        decreases chars.len() - k,
    {
        k += 1;
    }
    proof {
        lemma_ident_end(chars@, i as int, k as int);
    }
    k
}

fn char_at(chars: &Vec<char>, i: usize) -> (r: Option<char>)
    ensures
        r == at(chars@, i as int),
{
    if i < chars.len() {
        Some(chars[i])
    } else {
        None
    }
}

/// Whether `chars[i..j]` spells `word`.
fn word_is(chars: &Vec<char>, i: usize, j: usize, word: &[char]) -> (r: bool)
    requires
        i <= j <= chars.len(),
    ensures
        r == (chars@.subrange(i as int, j as int) == word@),
{
    if j - i != word.len() {
        return false;
    }
    let mut k: usize = 0;
    while k < word.len()
        invariant
            i <= j <= chars.len(),
            j - i == word@.len(),
            0 <= k <= word.len(),
            forall|m: int| 0 <= m < k ==> chars@[i + m] == word@[m],
        decreases word.len() - k,
    {
        if chars[i + k] != word[k] {
            assert(chars@.subrange(i as int, j as int)[k as int] != word@[k as int]);
            return false;
        }
        k += 1;
    }
    assert(chars@.subrange(i as int, j as int) =~= word@);
    true
}

/// The kind of the word `chars[i..j]`: a keyword or an identifier.
fn word_kind_exec(chars: &Vec<char>, i: usize, j: usize) -> (r: TokenKind)
    requires
        i <= j <= chars.len(),
    ensures
        kind_view(r) == word_kind(chars@.subrange(i as int, j as int)),
{
    let ghost w = chars@.subrange(i as int, j as int);
    assert(['l', 'e', 't']@ == seq!['l', 'e', 't']);
    if word_is(chars, i, j, &['l', 'e', 't']) {
        TokenKind::Let
    } else if word_is(chars, i, j, &['r', 'e', 't', 'u', 'r', 'n']) {
        TokenKind::Return
    } else if word_is(chars, i, j, &['a', 's']) {
        TokenKind::As
    } else if word_is(chars, i, j, &['i', 'f']) {
        TokenKind::If
    } else if word_is(chars, i, j, &['e', 'l', 's', 'e']) {
        TokenKind::Else
    } else if word_is(chars, i, j, &['s', 't', 'r', 'u', 'c', 't']) {
        TokenKind::Struct
    } else if word_is(chars, i, j, &['e', 'n', 'u', 'm']) {
        TokenKind::Enum
    } else if word_is(chars, i, j, &['m', 'a', 't', 'c', 'h']) {
        TokenKind::Match
    } else if word_is(chars, i, j, &['w', 'h', 'i', 'l', 'e']) {
        TokenKind::While
    } else if word_is(chars, i, j, &['b', 'r', 'e', 'a', 'k']) {
        TokenKind::Break
    } else if word_is(chars, i, j, &['d', 'e', 'f', 'e', 'r']) {
        TokenKind::Defer
    } else if word_is(chars, i, j, &['i', 'm', 'p', 'o', 'r', 't']) {
        TokenKind::Import
    } else if word_is(chars, i, j, &['e', 'x', 't', 'e', 'r', 'n']) {
        TokenKind::Extern
    } else if word_is(chars, i, j, &['n', 'u', 'l', 'l']) {
        TokenKind::Null
    } else if word_is(chars, i, j, &['I', 'n', 't']) {
        TokenKind::Int
    } else if word_is(chars, i, j, &['U', 'I', 'n', 't']) {
        TokenKind::UInt
    } else if word_is(chars, i, j, &['F', 'l', 'o', 'a', 't']) {
        TokenKind::Float
    } else if word_is(chars, i, j, &['i', '8']) {
        TokenKind::I8
    } else if word_is(chars, i, j, &['i', '3', '2']) {
        TokenKind::I32
    } else if word_is(chars, i, j, &['i', '6', '4']) {
        TokenKind::I64
    } else if word_is(chars, i, j, &['u', '8']) {
        TokenKind::U8
    } else if word_is(chars, i, j, &['u', '3', '2']) {
        TokenKind::U32
    } else if word_is(chars, i, j, &['u', '6', '4']) {
        TokenKind::U64
    } else if word_is(chars, i, j, &['f', '3', '2']) {
        TokenKind::F32
    } else if word_is(chars, i, j, &['f', '6', '4']) {
        TokenKind::F64
    } else {
        TokenKind::Identifier(string_from(chars, i, j))
    }
}

/// The value of the digits `chars[i..j]`, when it fits in an `i32`.
fn digits_to_i32(chars: &Vec<char>, i: usize, j: usize) -> (r: Option<i32>)
    requires
        i <= j <= chars.len(),
        forall|m: int| i <= m < j ==> is_digit(chars@[m]),
    ensures
        r is Some <==> digits_value(chars@.subrange(i as int, j as int)) <= 0x7fff_ffff,
        r matches Some(v) ==> v as int == digits_value(chars@.subrange(i as int, j as int)),
{
    let ghost t = chars@.subrange(i as int, j as int);
    let mut acc: u64 = 0;
    let mut k = i;
    while k < j
        invariant
            i <= k <= j <= chars.len(),
            t == chars@.subrange(i as int, j as int),
            forall|m: int| i <= m < j ==> is_digit(chars@[m]),
            acc as int == digits_value(t.take(k - i)),
            acc <= 0x7fff_ffff,
        decreases j - k,
    {
        let d = (chars[k] as u32 - '0' as u32) as u64;
        assert(t.take(k - i + 1).drop_last() =~= t.take(k - i));
        assert(t.take(k - i + 1).last() == chars@[k as int]);
        acc = acc * 10 + d;
        k += 1;
        if acc > 0x7fff_ffff {
            proof {
                assert forall|m: int| 0 <= m < t.len() implies is_digit(t[m]) by {
                    assert(t[m] == chars@[i + m]);
                }
                lemma_digits_value_prefix(t, k - i);
            }
            return None;
        }
    }
    assert(t.take(j - i) =~= t);
    Some(acc as i32)
}

impl Cursor {
    pub closed spec fn src(&self) -> Seq<char> {
        self.chars@
    }

    pub closed spec fn index(&self) -> int {
        self.idx as int
    }

    pub closed spec fn base(&self) -> int {
        self.base as int
    }

    pub closed spec fn wf(&self) -> bool {
        &&& self.idx <= self.chars@.len()
        &&& self.base + bytes_of(self.chars@) <= usize::MAX
        &&& bytes_of(self.chars@) < usize::MAX
        &&& self.offset == self.base + bytes_of(self.chars@.take(self.idx as int))
        &&& self.line == line_of(self.chars@.take(self.idx as int))
        &&& self.column == col_of(self.chars@.take(self.idx as int))
    }

    pub proof fn lemma_wf(&self)
        requires
            self.wf(),
        ensures
            0 <= self.index() <= self.src().len(),
            self.base() + bytes_of(self.src()) <= usize::MAX,
            bytes_of(self.src()) < usize::MAX,
            0 <= self.base(),
    {
    }

    /// A cursor at the start of `src`, whose first byte has the global
    /// offset `base`.
    pub fn new(src: &str, base: usize) -> (r: Cursor)
        requires
            base + bytes_of(src@) <= usize::MAX,
            bytes_of(src@) < usize::MAX,
        ensures
            r.wf(),
            r.src() == src@,
            r.index() == 0,
            r.base() == base,
    {
        let mut chars: Vec<char> = Vec::new();
        for c in it: src.chars()
            invariant
                chars@ == it.seq().take(it.index() as int),
        {
            proof {
                assert(it.seq().take(it.index() as int).push(c) =~= it.seq().take(
                    it.index() + 1,
                ));
            }
            chars.push(c);
        }
        assert(chars@ =~= src@);
        assert(chars@.take(0) =~= Seq::<char>::empty());
        Cursor { chars, base, idx: 0, offset: base, line: 1, column: 1 }
    }

    /// The position of the next character.
    pub fn position(&self) -> (p: Position)
        requires
            self.wf(),
        ensures
            p == pos_at(self.src(), self.base(), self.index()),
    {
        Position { offset: self.offset, line: self.line, column: self.column }
    }

    pub fn peek(&self) -> (r: Option<char>)
        requires
            self.wf(),
        ensures
            r == at(self.src(), self.index()),
    {
        char_at(&self.chars, self.idx)
    }

    pub fn peek_second(&self) -> (r: Option<char>)
        requires
            self.wf(),
        ensures
            r == at(self.src(), self.index() + 1),
    {
        if self.idx < self.chars.len() {
            char_at(&self.chars, self.idx + 1)
        } else {
            None
        }
    }

    pub fn peek_nth(&self, n: usize) -> (r: Option<char>)
        requires
            self.wf(),
        ensures
            r == at(self.src(), self.index() + n),
    {
        if n < self.chars.len() - self.idx {
            Some(self.chars[self.idx + n])
        } else {
            None
        }
    }

    /// Reads one character, if any is left, and moves past it.
    pub fn bump(&mut self) -> (r: Option<char>)
        requires
            old(self).wf(),
        ensures
            final(self).wf(),
            final(self).src() == old(self).src(),
            final(self).base() == old(self).base(),
            r == at(old(self).src(), old(self).index()),
            final(self).index() == if old(self).index() < old(self).src().len() {
                old(self).index() + 1
            } else {
                old(self).index()
            },
    {
        if self.idx >= self.chars.len() {
            return None;
        }
        let ch = self.chars[self.idx];
        proof {
            lemma_take_step(self.chars@, self.idx as int);
            lemma_bytes_prefix_mono(self.chars@, self.idx + 1, self.chars@.len() as int);
            lemma_bytes_bounds(self.chars@);
            lemma_line_col_bounds(self.chars@.take(self.idx as int));
            lemma_bytes_bounds(self.chars@.take(self.idx as int));
        }
        self.offset = self.offset + char_width_exec(ch);
        if ch == '\n' {
            self.line = self.line + 1;
            self.column = 1;
        } else {
            self.column = self.column + 1;
        }
        self.idx = self.idx + 1;
        Some(ch)
    }

    /// Moves forward to index `target`.
    pub fn advance_to(&mut self, target: usize)
        requires
            old(self).wf(),
            old(self).index() <= target <= old(self).src().len(),
        ensures
            final(self).wf(),
            final(self).src() == old(self).src(),
            final(self).base() == old(self).base(),
            final(self).index() == target,
    {
        while self.idx < target
            invariant
                self.wf(),
                self.src() == old(self).src(),
                self.base() == old(self).base(),
                self.index() <= target <= self.src().len(),
            decreases target - self.idx,
        {
            self.bump();
        }
    }

    /// A token of kind `kind` made of the next character.
    pub fn single(&mut self, kind: TokenKind) -> (t: Token)
        requires
            old(self).wf(),
        ensures
            final(self).wf(),
            final(self).src() == old(self).src(),
            final(self).base() == old(self).base(),
            final(self).index() == if old(self).index() < old(self).src().len() {
                old(self).index() + 1
            } else {
                old(self).index()
            },
            t.kind == kind,
            t.span == span_at(old(self).src(), old(self).base(), old(self).index(), final(self).index()),
    {
        let start = self.position();
        self.bump();
        let end = self.position();
        Token { kind, span: Span { start, end } }
    }

    /// A token of kind `kind` made of the next two characters.
    pub fn double(&mut self, kind: TokenKind) -> (t: Token)
        requires
            old(self).wf(),
        ensures
            final(self).wf(),
            final(self).src() == old(self).src(),
            final(self).base() == old(self).base(),
            final(self).index() == if old(self).index() + 2 <= old(self).src().len() {
                old(self).index() + 2
            } else {
                old(self).src().len() as int
            },
            t.kind == kind,
            t.span == span_at(old(self).src(), old(self).base(), old(self).index(), final(self).index()),
    {
        let start = self.position();
        self.bump();
        self.bump();
        let end = self.position();
        Token { kind, span: Span { start, end } }
    }

    /// Reads characters while `predicate` holds of them and returns them.
    pub fn take_while<F: Fn(char) -> bool>(&mut self, predicate: F) -> (r: String)
        requires
            old(self).wf(),
            forall|c: char| predicate.requires((c,)),
        ensures
            final(self).wf(),
            final(self).src() == old(self).src(),
            final(self).base() == old(self).base(),
            old(self).index() <= final(self).index() <= old(self).src().len(),
            r@ == old(self).src().subrange(old(self).index(), final(self).index()),
            forall|k: int|
                old(self).index() <= k < final(self).index() ==> predicate.ensures(
                    (old(self).src()[k],),
                    true,
                ),
            final(self).index() < old(self).src().len() ==> predicate.ensures(
                (old(self).src()[final(self).index()],),
                false,
            ),
    {
        let start = self.idx;
        loop
            invariant
                self.wf(),
                self.src() == old(self).src(),
                self.base() == old(self).base(),
                start == old(self).index(),
                start <= self.index() <= self.src().len(),
                forall|c: char| predicate.requires((c,)),
                forall|k: int|
                    start <= k < self.index() ==> predicate.ensures((self.src()[k],), true),
            ensures
                self.wf(),
                self.src() == old(self).src(),
                self.base() == old(self).base(),
                start <= self.index() <= self.src().len(),
                forall|k: int|
                    start <= k < self.index() ==> predicate.ensures((self.src()[k],), true),
                self.index() < self.src().len() ==> predicate.ensures(
                    (self.src()[self.index()],),
                    false,
                ),
            decreases self.src().len() - self.index(),
        {
            if self.idx >= self.chars.len() {
                break;
            }
            let ch = self.chars[self.idx];
            if !predicate(ch) {
                break;
            }
            self.bump();
        }
        string_from(&self.chars, start, self.idx)
    }

    /// Reads an identifier or a keyword.
    pub fn identifier_or_keyword(&mut self) -> (t: Token)
        requires
            old(self).wf(),
        ensures
            final(self).wf(),
            final(self).src() == old(self).src(),
            final(self).base() == old(self).base(),
            final(self).index() == ident_end(old(self).src(), old(self).index()),
            kind_view(t.kind) == word_kind(
                old(self).src().subrange(old(self).index(), final(self).index()),
            ),
            t.span == span_at(old(self).src(), old(self).base(), old(self).index(), final(self).index()),
    {
        let start = self.position();
        let i = self.idx;
        let e = ident_end_exec(&self.chars, i);
        let kind = word_kind_exec(&self.chars, i, e);
        self.advance_to(e);
        let end = self.position();
        Token { kind, span: Span { start, end } }
    }

    /// Skips a `// ...` line comment (up to, but not including, the newline).
    pub fn line_comment(&mut self)
        requires
            old(self).wf(),
        ensures
            final(self).wf(),
            final(self).src() == old(self).src(),
            final(self).base() == old(self).base(),
            final(self).index() == line_end(
                old(self).src(),
                if old(self).index() + 2 <= old(self).src().len() {
                    old(self).index() + 2
                } else {
                    old(self).src().len() as int
                },
            ),
    {
        self.bump();
        self.bump();
        let ghost from = self.index();
        while self.idx < self.chars.len() && self.chars[self.idx] != '\n'
            invariant
                self.wf(),
                self.src() == old(self).src(),
                self.base() == old(self).base(),
                from <= self.index() <= self.src().len(),
                forall|k: int| from <= k < self.index() ==> self.src()[k] != '\n',
            decreases self.src().len() - self.index(),
        {
            self.bump();
        }
        proof {
            lemma_line_end(self.src(), from, self.index());
        }
    }

    /// Skips a `/* ... */` block comment. Nesting is supported, so
    /// `/* a /* b */ c */` is a single comment. Errors if unterminated.
    pub fn block_comment(&mut self) -> (r: Result<(), Error>)
        requires
            old(self).wf(),
        ensures
            final(self).wf(),
            final(self).src() == old(self).src(),
            final(self).base() == old(self).base(),
            ({
                let s = old(self).src();
                let i = old(self).index();
                let from = if i + 2 <= s.len() {
                    i + 2
                } else {
                    s.len() as int
                };
                match block_comment_end(s, from, 1) {
                    Some(e) => r is Ok && final(self).index() == e,
                    None => r matches Err(err) && err_view(err.kind) == ev_plain(5) && err.span
                        == span_at(s, old(self).base(), i, s.len() as int) && final(self).index()
                        == s.len(),
                }
            }),
    {
        let start = self.position();
        self.bump();
        self.bump();
        let mut depth: usize = 1;
        let ghost s = self.src();
        while depth > 0
            invariant
                self.wf(),
                self.src() == s,
                s == old(self).src(),
                self.base() == old(self).base(),
                depth <= self.index() + 1,
                self.index() <= s.len(),
                start == pos_at(s, self.base(), old(self).index()),
                block_comment_end(s, self.index(), depth as nat) == block_comment_end(
                    s,
                    if old(self).index() + 2 <= s.len() {
                        old(self).index() + 2
                    } else {
                        s.len() as int
                    },
                    1,
                ),
            decreases s.len() - self.index(), depth,
        {
            let a = self.peek();
            let b = self.peek_second();
            if a == Some('/') && b == Some('*') {
                self.bump();
                self.bump();
                depth = depth + 1;
            } else if a == Some('*') && b == Some('/') {
                self.bump();
                self.bump();
                depth = depth - 1;
            } else if a.is_some() {
                self.bump();
            } else {
                proof {
                    self.lemma_wf();
                    assert(block_comment_end(s, self.index(), depth as nat) is None);
                }
                return Err(
                    Error {
                        kind: ErrorKind::UnterminatedComment,
                        span: Span { start, end: self.position() },
                    },
                );
            }
        }
        Ok(())
    }

    /// Reads a number. With `integer_only` (right after a `.`) only digits
    /// are read, so `t.0.1` stays a chain of field indices.
    pub fn number(&mut self, integer_only: bool) -> (r: Result<Token, Error>)
        requires
            old(self).wf(),
        ensures
            final(self).wf(),
            final(self).src() == old(self).src(),
            final(self).base() == old(self).base(),
            ({
                let s = old(self).src();
                let i = old(self).index();
                let b = old(self).base();
                match scan_number(s, i, integer_only) {
                    Scan::Emit { kind, next } => r matches Ok(t) && kind_view(t.kind) == kind
                        && t.span == span_at(s, b, i, next) && final(self).index() == next,
                    Scan::Fail { err, start, end } => r matches Err(e) && err_view(e.kind) == err
                        && e.span == span_at(s, b, start, end) && final(self).index() == end,
                    Scan::Skip { .. } => false,
                }
            }),
    {
        let ghost s = self.src();
        let start = self.position();
        let i = self.idx;
        proof {
            self.lemma_wf();
        }
        let j1 = digits_end_exec(&self.chars, i);
        let frac = !integer_only && char_at(&self.chars, j1) == Some('.') && (j1 == i || (j1
            + 1 < self.chars.len() && is_digit_exec(self.chars[j1 + 1])));
        let j2 = if frac {
            digits_end_exec(&self.chars, j1 + 1)
        } else {
            j1
        };
        let e = char_at(&self.chars, j2);
        let expo = !integer_only && (e == Some('e') || e == Some('E'));
        let (j3, k) = if expo {
            let sign = if j2 < self.chars.len() {
                char_at(&self.chars, j2 + 1)
            } else {
                None
            };
            let k = if sign == Some('+') || sign == Some('-') {
                j2 + 2
            } else {
                j2 + 1
            };
            (digits_end_exec(&self.chars, k), k)
        } else {
            (j2, j2)
        };
        proof {
            lemma_digits_end_bounds(s, i as int);
            if frac {
                lemma_digits_end_bounds(s, j1 + 1);
            }
        }
        if expo && j3 == k {
            self.advance_to(j3);
            let text = string_from(&self.chars, i, j3);
            return Err(
                Error { span: Span { start, end: self.position() }, kind: ErrorKind::UnexpectedText(text) },
            );
        }
        if j3 < self.chars.len() && (is_alpha_exec(self.chars[j3]) || self.chars[j3] == '_') {
            let j4 = ident_end_exec(&self.chars, j3);
            self.advance_to(j4);
            let text = string_from(&self.chars, i, j4);
            return Err(
                Error { kind: ErrorKind::UnexpectedText(text), span: Span { start, end: self.position() } },
            );
        }
        self.advance_to(j3);
        let span = Span { start, end: self.position() };
        let text = string_from(&self.chars, i, j3);
        if frac || expo {
            if j1 > i || (frac && j2 > j1 + 1) {
                Ok(Token { span, kind: TokenKind::Literal(Literal::Float(text)) })
            } else {
                Err(Error { kind: ErrorKind::UnexpectedText(text), span })
            }
        } else {
            if j3 > i {
                match digits_to_i32(&self.chars, i, j3) {
                    Some(v) => Ok(Token { span, kind: TokenKind::Literal(Literal::Int(v)) }),
                    None => Err(Error { kind: ErrorKind::InvalidInt(text), span }),
                }
            } else {
                Err(Error { kind: ErrorKind::InvalidInt(text), span })
            }
        }
    }

    /// `'A'`, `'\n'`, `'\0'`, etc. — a single byte. Characters outside ASCII
    /// (e.g. `'é'`, two bytes in UTF-8) are rejected.
    pub fn char_literal(&mut self) -> (r: Result<Token, Error>)
        requires
            old(self).wf(),
            old(self).index() < old(self).src().len(),
        ensures
            final(self).wf(),
            final(self).src() == old(self).src(),
            final(self).base() == old(self).base(),
            ({
                let s = old(self).src();
                let i = old(self).index();
                let b = old(self).base();
                match scan_char(s, i) {
                    Scan::Emit { kind, next } => r matches Ok(t) && kind_view(t.kind) == kind
                        && t.span == span_at(s, b, i, next) && final(self).index() == next,
                    Scan::Fail { err, start, end } => r matches Err(e) && err_view(e.kind) == err
                        && e.span == span_at(s, b, start, end) && final(self).index() == end,
                    Scan::Skip { .. } => false,
                }
            }),
    {
        let start = self.position();
        let i = self.idx;
        let n = self.chars.len();
        let j = i + 1;
        self.bump();
        if j >= n || self.chars[j] == '\n' {
            return Err(Error { kind: ErrorKind::UnterminatedChar, span: Span { start, end: self.position() } });
        }
        let c = self.chars[j];
        if c == '\'' {
            self.bump();
            return Err(Error { kind: ErrorKind::EmptyChar, span: Span { start, end: self.position() } });
        }
        let byte: u8;
        let next: usize;
        if c == '\\' {
            self.bump();
            if j + 1 >= n {
                return Err(Error { kind: ErrorKind::UnterminatedChar, span: Span { start, end: self.position() } });
            }
            let esc_start = self.position();
            let e = self.chars[j + 1];
            let b: u8 = if e == 'n' {
                10
            } else if e == 't' {
                9
            } else if e == 'r' {
                13
            } else if e == '0' {
                0
            } else if e == '\\' {
                92
            } else if e == '\'' {
                39
            } else if e == '"' {
                34
            } else {
                self.bump();
                return Err(Error { kind: ErrorKind::InvalidEscape(e), span: Span { start: esc_start, end: self.position() } });
            };
            self.bump();
            byte = b;
            next = j + 2;
        } else {
            if (c as u32) >= 0x80 {
                let bad_start = self.position();
                self.bump();
                return Err(Error { kind: ErrorKind::NonAsciiChar(c), span: Span { start: bad_start, end: self.position() } });
            }
            self.bump();
            byte = c as u8;
            next = j + 1;
        }
        if next < n && self.chars[next] == '\'' {
            self.bump();
            Ok(Token { kind: TokenKind::Literal(Literal::Char(byte)), span: Span { start, end: self.position() } })
        } else {
            Err(Error { kind: ErrorKind::UnterminatedChar, span: Span { start, end: self.position() } })
        }
    }

    /// A string literal with the escapes `\n \t \r \0 \\ \"`.
    pub fn string(&mut self) -> (r: Result<Token, Error>)
        requires
            old(self).wf(),
            old(self).index() < old(self).src().len(),
        ensures
            final(self).wf(),
            final(self).src() == old(self).src(),
            final(self).base() == old(self).base(),
            ({
                let s = old(self).src();
                let i = old(self).index();
                let b = old(self).base();
                match scan_string(s, i) {
                    Scan::Emit { kind, next } => r matches Ok(t) && kind_view(t.kind) == kind
                        && t.span == span_at(s, b, i, next) && final(self).index() == next,
                    Scan::Fail { err, start, end } => r matches Err(e) && err_view(e.kind) == err
                        && e.span == span_at(s, b, start, end) && final(self).index() == end,
                    Scan::Skip { .. } => false,
                }
            }),
    {
        let ghost s = self.src();
        let ghost i0 = self.index();
        let start = self.position();
        self.bump();
        let mut acc = String::new();
        loop
            invariant
                self.wf(),
                self.src() == s,
                s == old(self).src(),
                self.base() == old(self).base(),
                i0 == old(self).index(),
                start == pos_at(s, self.base(), i0),
                i0 < self.index() <= s.len(),
                scan_string_from(s, i0, self.index(), acc@) == scan_string(s, i0),
            decreases s.len() - self.index(),
        {
            let c = self.peek();
            match c {
                None => {
                    return Err(Error { kind: ErrorKind::UnterminatedString, span: Span { start, end: self.position() } });
                },
                Some(ch) => {
                    if ch == '\n' {
                        return Err(Error { kind: ErrorKind::UnterminatedString, span: Span { start, end: self.position() } });
                    } else if ch == '"' {
                        self.bump();
                        return Ok(Token { kind: TokenKind::Literal(Literal::Str(acc)), span: Span { start, end: self.position() } });
                    } else if ch == '\\' {
                        self.bump();
                        let esc_start = self.position();
                        let e = self.peek();
                        match e {
                            None => {
                                return Err(Error { kind: ErrorKind::UnterminatedString, span: Span { start, end: self.position() } });
                            },
                            Some(other) => {
                                let decoded = if other == 'n' {
                                    '\n'
                                } else if other == 't' {
                                    '\t'
                                } else if other == 'r' {
                                    '\r'
                                } else if other == '0' {
                                    '\0'
                                } else if other == '\\' {
                                    '\\'
                                } else if other == '"' {
                                    '"'
                                } else {
                                    self.bump();
                                    return Err(Error { kind: ErrorKind::InvalidEscape(other), span: Span { start: esc_start, end: self.position() } });
                                };
                                self.bump();
                                push_char(&mut acc, decoded);
                            },
                        }
                    } else {
                        self.bump();
                        push_char(&mut acc, ch);
                    }
                },
            }
        }
    }
}

} // verus!
