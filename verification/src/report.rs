//! Rendering a diagnostic: the message, where it is, the offending source
//! line and carets under the span.

use crate::lexer::cursor::push_char;
use crate::lexer::display::{append_str, decimal, push_decimal};
use crate::lexer::types::Span;
use vstd::prelude::*;

verus! {

/// The lines of `s` as `str::split('\n')` gives them: at least one, the
/// last possibly empty.
pub open spec fn split_lines(s: Seq<char>) -> Seq<Seq<char>>
    decreases s.len(),
{
    if s.len() == 0 {
        seq![Seq::empty()]
    } else {
        let lines = split_lines(s.drop_last());
        if s.last() == '\n' {
            lines.push(Seq::empty())
        } else {
            lines.update(lines.len() - 1, lines.last().push(s.last()))
        }
    }
}

/// `t` without the carriage returns at its end.
pub open spec fn trim_cr(t: Seq<char>) -> Seq<char>
    decreases t.len(),
{
    if t.len() > 0 && t.last() == '\r' {
        trim_cr(t.drop_last())
    } else {
        t
    }
}

/// Line `k` (from 0) of `s`, without trailing carriage returns; empty past
/// the end.
pub open spec fn line_text(s: Seq<char>, k: int) -> Seq<char> {
    if 0 <= k < split_lines(s).len() {
        trim_cr(split_lines(s)[k])
    } else {
        Seq::empty()
    }
}

pub open spec fn spaces(n: nat) -> Seq<char> {
    Seq::new(n, |i: int| ' ')
}

pub open spec fn carets(n: nat) -> Seq<char> {
    Seq::new(n, |i: int| '^')
}

/// `path` without the Windows verbatim prefix `\\?\`.
pub open spec fn display_path(path: Seq<char>) -> Seq<char> {
    if path.len() >= 4 && path.subrange(0, 4) == seq!['\\', '\\', '?', '\\'] {
        path.subrange(4, path.len() as int)
    } else {
        path
    }
}

/// How many carets mark the span: its width on a one-line span, else the
/// rest of the line from the span's column; at least one.
pub open spec fn caret_count(span: Span, line: Seq<char>) -> nat {
    let n: int = if span.end.line == span.start.line {
        span.end.column - span.start.column
    } else {
        line.len() - (span.start.column - 1)
    };
    if n < 1 {
        1
    } else {
        n as nat
    }
}

/// How far the carets are indented: one space less than the column, none
/// for column 0.
pub open spec fn indent_width(column: usize) -> nat {
    if column >= 1 {
        (column - 1) as nat
    } else {
        0
    }
}

pub open spec fn red() -> Seq<char> {
    seq!['\x1b', '[', '3', '1', ';', '1', 'm']
}

pub open spec fn blue() -> Seq<char> {
    seq!['\x1b', '[', '3', '4', ';', '1', 'm']
}

pub open spec fn reset() -> Seq<char> {
    seq!['\x1b', '[', '0', 'm']
}

/// The first line of every diagnostic: `error: message`, in color.
pub open spec fn headline(message: Seq<char>) -> Seq<char> {
    red() + "error"@ + reset() + ": "@ + message
}

/// The lines printed for an error at `span` in the file at `path` with text
/// `src`: the message, the location, and the source line with carets under
/// the span.
pub open spec fn diagnostic_spec(path: Seq<char>, src: Seq<char>, span: Span, message: Seq<char>) -> Seq<
    Seq<char>,
> {
    let line = line_text(src, span.start.line - 1);
    let gutter = decimal(span.start.line as nat);
    let pad = spaces(gutter.len());
    seq![
        headline(message),
        pad + " "@ + blue() + "-->"@ + reset() + " "@ + display_path(path) + ":"@ + gutter + ":"@
            + decimal(span.start.column as nat),
        pad + " "@ + blue() + "|"@ + reset(),
        blue() + gutter + " |"@ + reset() + " "@ + line,
        pad + " "@ + blue() + "|"@ + reset() + " "@ + spaces(indent_width(span.start.column)) + red()
            + carets(caret_count(span, line)) + reset(),
    ]
}

fn push_repeated(s: &mut String, c: char, n: usize)
    ensures
        final(s)@ == old(s)@ + Seq::new(n as nat, |i: int| c),
{
    let ghost start = s@;
    let mut i: usize = 0;
    while i < n
        invariant
            i <= n,
            s@ == start + Seq::new(i as nat, |j: int| c),
        decreases n - i,
    {
        push_char(s, c);
        i = i + 1;
        assert(s@ =~= start + Seq::new(i as nat, |j: int| c));
    }
}

fn push_color(s: &mut String, code: char)
    ensures
        final(s)@ == old(s)@ + seq!['\x1b', '[', '3', code, ';', '1', 'm'],
{
    push_char(s, '\x1b');
    push_char(s, '[');
    push_char(s, '3');
    push_char(s, code);
    push_char(s, ';');
    push_char(s, '1');
    push_char(s, 'm');
    assert(final(s)@ =~= old(s)@ + seq!['\x1b', '[', '3', code, ';', '1', 'm']);
}

fn push_reset(s: &mut String)
    ensures
        final(s)@ == old(s)@ + reset(),
{
    push_char(s, '\x1b');
    push_char(s, '[');
    push_char(s, '0');
    push_char(s, 'm');
    assert(final(s)@ =~= old(s)@ + reset());
}

fn chars_of(s: &str) -> (v: Vec<char>)
    ensures
        v@ == s@,
{
    let mut v: Vec<char> = Vec::new();
    for c in it: s.chars()
        invariant
            v@ == it.seq().take(it.index() as int),
    {
        v.push(c);
    }
    assert(v@ =~= s@);
    v
}

/// Line `k` of `chars`, as `line_text` says.
fn nth_line(chars: &Vec<char>, k: usize) -> (r: Vec<char>)
    ensures
        r@ == line_text(chars@, k as int),
{
    let mut i: usize = 0;
    let mut idx: usize = 0;
    let mut current: Vec<char> = Vec::new();
    let mut found: Vec<char> = Vec::new();
    while i < chars.len()
        invariant
            i <= chars.len(),
            idx + 1 == split_lines(chars@.subrange(0, i as int)).len(),
            idx <= i,
            idx == k ==> current@ == split_lines(chars@.subrange(0, i as int))[idx as int],
            idx > k ==> found@ == split_lines(chars@.subrange(0, i as int))[k as int],
        decreases chars.len() - i,
    {
        let c = chars[i];
        let ghost p = chars@.subrange(0, i as int);
        proof {
            assert(chars@.subrange(0, i + 1).drop_last() =~= p);
        }
        if c == '\n' {
            if idx == k {
                found = current;
                current = Vec::new();
            }
            idx = idx + 1;
            if idx == k {
                current = Vec::new();
            }
        } else if idx == k {
            current.push(c);
        }
        i = i + 1;
    }
    assert(chars@.subrange(0, chars.len() as int) =~= chars@);
    let mut line = if idx == k {
        current
    } else if idx > k {
        found
    } else {
        Vec::new()
    };
    proof {
        if idx < k {
            assert(line@ =~= line_text(chars@, k as int));
        }
    }
    let ghost untrimmed = line@;
    while line.len() > 0 && line[line.len() - 1] == '\r'
        invariant
            trim_cr(untrimmed) == trim_cr(line@),
        decreases line.len(),
    {
        line.pop();
    }
    line
}

/// The lines printed for an error at `span` in the file at `path` with text
/// `src`.
pub fn diagnostic_lines(path: &str, src: &str, span: Span, message: &str) -> (r: Vec<String>)
    requires
        span.start.line >= 1,
        span.start.column >= 1 || span.end.line == span.start.line,
        span.start.line < usize::MAX,
    ensures
        r@.map_values(|l: String| l@) == diagnostic_spec(path@, src@, span, message@),
{
    let chars = chars_of(src);
    let line = nth_line(&chars, span.start.line - 1);
    let mut gutter = String::new();
    push_decimal(&mut gutter, span.start.line as u64);
    let glen = chars_of(gutter.as_str()).len();
    let col = span.start.column;
    let mut l0 = String::new();
    push_color(&mut l0, '1');
    append_str(&mut l0, "error");
    push_reset(&mut l0);
    append_str(&mut l0, ": ");
    append_str(&mut l0, message);
    let mut l1 = String::new();
    push_repeated(&mut l1, ' ', glen);
    append_str(&mut l1, " ");
    push_color(&mut l1, '4');
    append_str(&mut l1, "-->");
    push_reset(&mut l1);
    append_str(&mut l1, " ");
    push_display_path(&mut l1, path);
    append_str(&mut l1, ":");
    append_str(&mut l1, gutter.as_str());
    append_str(&mut l1, ":");
    push_decimal(&mut l1, col as u64);
    let mut l2 = String::new();
    push_repeated(&mut l2, ' ', glen);
    append_str(&mut l2, " ");
    push_color(&mut l2, '4');
    append_str(&mut l2, "|");
    push_reset(&mut l2);
    let mut l3 = String::new();
    push_color(&mut l3, '4');
    append_str(&mut l3, gutter.as_str());
    append_str(&mut l3, " |");
    push_reset(&mut l3);
    append_str(&mut l3, " ");
    push_chars(&mut l3, &line);
    let count: usize = if span.end.line == span.start.line {
        if span.end.column > col {
            span.end.column - col
        } else {
            1
        }
    } else if line.len() > col - 1 {
        line.len() - (col - 1)
    } else {
        1
    };
    let mut l4 = String::new();
    push_repeated(&mut l4, ' ', glen);
    append_str(&mut l4, " ");
    push_color(&mut l4, '4');
    append_str(&mut l4, "|");
    push_reset(&mut l4);
    append_str(&mut l4, " ");
    let indent: usize = if col >= 1 {
        col - 1
    } else {
        0
    };
    push_repeated(&mut l4, ' ', indent);
    push_color(&mut l4, '1');
    push_repeated(&mut l4, '^', count);
    push_reset(&mut l4);
    let r = vec![l0, l1, l2, l3, l4];
    proof {
        let d = diagnostic_spec(path@, src@, span, message@);
        assert(r@.map_values(|l: String| l@) =~= d);
    }
    r
}

fn push_chars(s: &mut String, v: &Vec<char>)
    ensures
        final(s)@ == old(s)@ + v@,
{
    let ghost start = s@;
    let mut i: usize = 0;
    while i < v.len()
        invariant
            i <= v.len(),
            s@ == start + v@.subrange(0, i as int),
        decreases v.len() - i,
    {
        push_char(s, v[i]);
        i = i + 1;
        assert(s@ =~= start + v@.subrange(0, i as int));
    }
    assert(v@.subrange(0, v.len() as int) =~= v@);
}

fn push_display_path(s: &mut String, path: &str)
    ensures
        final(s)@ == old(s)@ + display_path(path@),
{
    let p = chars_of(path);
    let verbatim = p.len() >= 4 && p[0] == '\\' && p[1] == '\\' && p[2] == '?' && p[3] == '\\';
    let ghost start = s@;
    let from: usize = if verbatim {
        4
    } else {
        0
    };
    let mut i: usize = from;
    while i < p.len()
        invariant
            from <= i <= p.len(),
            s@ == start + p@.subrange(from as int, i as int),
        decreases p.len() - i,
    {
        push_char(s, p[i]);
        i = i + 1;
        assert(s@ =~= start + p@.subrange(from as int, i as int));
    }
    proof {
        if verbatim {
            assert(p@.subrange(0, 4) =~= seq!['\\', '\\', '?', '\\']);
        } else if p@.len() >= 4 && p@.subrange(0, 4) == seq!['\\', '\\', '?', '\\'] {
            assert(p@.subrange(0, 4)[0] == p@[0]);
            assert(p@.subrange(0, 4)[1] == p@[1]);
            assert(p@.subrange(0, 4)[2] == p@[2]);
            assert(p@.subrange(0, 4)[3] == p@[3]);
        }
        assert(p@.subrange(0, p.len() as int) =~= p@);
    }
}

} // verus!
