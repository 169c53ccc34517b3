use crate::lexer::types::{kind_tag, kind_view, Token};
use vstd::prelude::*;

verus! {

/// A stream of tokens that ends with the end marker. The end marker is
/// never consumed: reading past it keeps returning it.
pub struct TokenIter {
    tokens: Vec<Token>,
    pos: usize,
}

impl TokenIter {
    pub closed spec fn toks(&self) -> Seq<Token> {
        self.tokens@
    }

    pub closed spec fn pos(&self) -> int {
        self.pos as int
    }

    pub closed spec fn wf(&self) -> bool {
        self.pos < self.tokens@.len()
    }

    pub proof fn lemma_wf(&self)
        requires
            self.wf(),
        ensures
            0 <= self.pos() < self.toks().len(),
    {
    }

    pub fn new(tokens: Vec<Token>) -> (r: Self)
        requires
            tokens@.len() > 0,
        ensures
            r.wf(),
            r.toks() == tokens@,
            r.pos() == 0,
            0 <= r.pos() < r.toks().len(),
    {
        TokenIter { tokens, pos: 0 }
    }

    pub fn peek(&self) -> (r: Option<&Token>)
        requires
            self.wf(),
        ensures
            r == Some(&self.toks()[self.pos()]),
    {
        Some(&self.tokens[self.pos])
    }

    pub fn current(&self) -> (r: &Token)
        requires
            self.wf(),
        ensures
            *r == self.toks()[self.pos()],
    {
        &self.tokens[self.pos]
    }

    pub fn peek_nth(&self, n: usize) -> (r: Option<&Token>)
        requires
            self.wf(),
        ensures
            match r {
                Some(t) => self.pos() + n < self.toks().len() && *t == self.toks()[self.pos() + n],
                None => self.pos() + n >= self.toks().len(),
            },
    {
        if n < self.tokens.len() - self.pos {
            Some(&self.tokens[self.pos + n])
        } else {
            None
        }
    }

    /// How many tokens are left, the current one included.
    pub fn len_left(&self) -> (r: usize)
        requires
            self.wf(),
        ensures
            r == self.toks().len() - self.pos(),
    {
        self.tokens.len() - self.pos
    }

    /// The next token; the stream moves on unless it is at its last token.
    pub fn consume(&mut self) -> (r: Option<Token>)
        requires
            old(self).wf(),
        ensures
            final(self).wf(),
            final(self).toks() == old(self).toks(),
            0 <= final(self).pos() < final(self).toks().len(),
            final(self).pos() == if old(self).pos() + 1 < old(self).toks().len() {
                old(self).pos() + 1
            } else {
                old(self).pos()
            },
            r matches Some(t) && kind_view(t.kind) == kind_view(old(self).toks()[old(self).pos()].kind)
                && kind_tag(t.kind) == kind_tag(old(self).toks()[old(self).pos()].kind)
                && t.span == old(self).toks()[old(self).pos()].span,
    {
        let t = self.tokens[self.pos].duplicate();
        if self.pos < self.tokens.len() - 1 {
            self.pos = self.pos + 1;
        }
        Some(t)
    }
}

} // verus!
