//! The token vocabulary and a cursor over a lexed token stream.

use crate::text::span_valid;
use std::ops::Range;
use vstd::prelude::*;
use vstd::string::*;

verus! {

/// The kinds of token that the lexer produces.
#[derive(Debug, PartialEq, Eq, Clone, Copy, Structural)]
pub enum Token {
    Echo,
    Function,
    If,
    Else,
    While,
    String,
    Comment,
    Number,
    Plus,
    Minus,
    Multiply,
    Divide,
    Open,
    Close,
    Begin,
    End,
    Next,
    Assign,
    Spread,
    Identifier,
    Variable,
    Whitespace,
    Error,
}

/// A cursor over a lexed program: the token kinds, the byte span of each
/// token in the source text and, for numeric tokens, the bit pattern of the
/// binary64 value that the token's text denotes (`None` where the text
/// denotes no number).
pub struct Tokens<'a> {
    items: &'a [Token],
    spans: &'a [Range<usize>],
    numbers: &'a [Option<u64>],
    next: usize,
}

impl<'a> Tokens<'a> {
    /// The token kinds, in source order.
    pub closed spec fn items(&self) -> Seq<Token> {
        self.items@
    }

    /// The byte span of each token.
    pub closed spec fn spans(&self) -> Seq<Range<usize>> {
        self.spans@
    }

    /// The numeric value attached to each token.
    pub closed spec fn numbers(&self) -> Seq<Option<u64>> {
        self.numbers@
    }

    /// The index of the token that `next` hands out.
    pub closed spec fn position(&self) -> nat {
        self.next as nat
    }

    /// The span of the token consumed last, if the cursor stands behind one.
    pub open spec fn last_span(&self) -> Option<Range<usize>> {
        if 1 <= self.position() <= self.spans().len() {
            Some(self.spans()[self.position() - 1])
        } else {
            None
        }
    }

    /// The span that error reports carry: that of the token consumed last,
    /// or the empty span at the start of the text.
    pub open spec fn report_span(&self) -> Range<usize> {
        match self.last_span() {
            Some(span) => span,
            None => 0..0,
        }
    }

    pub fn new(
        items: &'a [Token],
        spans: &'a [Range<usize>],
        numbers: &'a [Option<u64>],
    ) -> (tokens: Tokens<'a>)
        ensures
            tokens.items() == items@,
            tokens.spans() == spans@,
            tokens.numbers() == numbers@,
            tokens.position() == 0,
    {
        Tokens { items, spans, numbers, next: 0 }
    }

    /// The token under the cursor, without consuming it.
    pub fn peek(&self) -> (token: Option<&'a Token>)
        ensures
            self.position() < self.items().len() ==> token == Some(
                &self.items()[self.position() as int],
            ),
            self.position() >= self.items().len() ==> token is None,
    {
        self.get_token(self.next)
    }

    pub fn advance(&mut self)
        requires
            old(self).position() < usize::MAX,
        ensures
            final(self).position() == old(self).position() + 1,
            final(self).items() == old(self).items(),
            final(self).spans() == old(self).spans(),
            final(self).numbers() == old(self).numbers(),
    {
        self.next += 1
    }

    pub fn advance_by(&mut self, count: usize)
        requires
            old(self).position() + count <= usize::MAX,
        ensures
            final(self).position() == old(self).position() + count,
            final(self).items() == old(self).items(),
            final(self).spans() == old(self).spans(),
            final(self).numbers() == old(self).numbers(),
    {
        self.next += count
    }

    /// The cursor's position, to return to with `backtrack`.
    pub fn remember(&self) -> (position: usize)
        ensures
            position == self.position(),
    {
        self.next
    }

    pub fn backtrack(&mut self, next_idx: usize)
        ensures
            final(self).position() == next_idx,
            final(self).items() == old(self).items(),
            final(self).spans() == old(self).spans(),
            final(self).numbers() == old(self).numbers(),
    {
        self.next = next_idx
    }

    pub fn span(&self) -> (span: Range<usize>)
        ensures
            span == self.report_span(),
    {
        match self.span_explicit() {
            Some(span) => span,
            None => 0..0,
        }
    }

    pub fn span_explicit(&self) -> (span: Option<Range<usize>>)
        ensures
            span == self.last_span(),
    {
        if 1 <= self.next && self.next <= self.spans.len() {
            let span = &self.spans[self.next - 1];
            Some(span.start..span.end)
        } else {
            None
        }
    }

    pub fn get_token(&self, index: usize) -> (token: Option<&'a Token>)
        ensures
            index < self.items().len() ==> token == Some(&self.items()[index as int]),
            index >= self.items().len() ==> token is None,
    {
        if index < self.items.len() {
            Some(&self.items[index])
        } else {
            None
        }
    }

    pub fn get_span(&self, index: usize) -> (span: Option<&'a Range<usize>>)
        ensures
            index < self.spans().len() ==> span == Some(&self.spans()[index as int]),
            index >= self.spans().len() ==> span is None,
    {
        if index < self.spans.len() {
            Some(&self.spans[index])
        } else {
            None
        }
    }

    /// The numeric value attached to the token consumed last.
    pub fn number(&self) -> (value: Option<u64>)
        ensures
            value == self.last_number(),
    {
        if 1 <= self.next && self.next <= self.numbers.len() {
            self.numbers[self.next - 1]
        } else {
            None
        }
    }

    /// The numeric value of the token consumed last; `None` where the cursor
    /// stands behind no token or the token carries no number.
    pub open spec fn last_number(&self) -> Option<u64> {
        if 1 <= self.position() <= self.numbers().len() {
            self.numbers()[self.position() - 1]
        } else {
            None
        }
    }

    /// Whether every span of the stream cuts a well-formed piece out of
    /// `contents`: what the parser asks of its input.
    pub fn spans_within(&self, contents: &str) -> (ok: bool)
        ensures
            ok == (forall|i: int|
                0 <= i < self.spans().len() ==> span_valid(contents@, #[trigger] self.spans()[i])),
    {
        let limit = contents.as_bytes().len();
        let mut i: usize = 0;
        while i < self.spans.len()
            invariant
                i <= self.spans@.len(),
                limit == contents.spec_bytes().len(),
                forall|k: int| 0 <= k < i ==> span_valid(contents@, #[trigger] self.spans@[k]),
            decreases self.spans@.len() - i,
        {
            let span = &self.spans[i];
            if !(span.start <= span.end && span.end <= limit && contents.is_char_boundary(
                span.start,
            ) && contents.is_char_boundary(span.end)) {
                assert(!span_valid(contents@, self.spans()[i as int]));
                return false;
            }
            i += 1;
        }
        true
    }

    pub fn has_next(&self) -> (more: bool)
        ensures
            more == (self.position() < self.items().len()),
    {
        self.next < self.items.len()
    }

    /// Consumes the token under the cursor and hands it out; at the end of
    /// the stream the cursor stays where it is.
    pub fn next(&mut self) -> (token: Option<&'a Token>)
        ensures
            final(self).position() <= usize::MAX,
            final(self).items() == old(self).items(),
            final(self).spans() == old(self).spans(),
            final(self).numbers() == old(self).numbers(),
            old(self).position() < old(self).items().len() ==> {
                &&& token == Some(&old(self).items()[old(self).position() as int])
                &&& final(self).position() == old(self).position() + 1
            },
            old(self).position() >= old(self).items().len() ==> {
                &&& token is None
                &&& final(self).position() == old(self).position()
            },
    {
        if self.next < self.items.len() {
            self.next += 1;
            Some(&self.items[self.next - 1])
        } else {
            None
        }
    }
}

} // verus!
