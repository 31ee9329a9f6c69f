//! The token cursor and peek protocol.
//!
//! A cursor is a read-only position into a token sequence. Copying one is
//! cheap and never touches the sequence, so lookahead is free: each `peek_`
//! method answers "does this construct start here?" and hands back the
//! cursor placed after the construct, leaving the original untouched — the
//! caller commits by using the returned cursor, or backtracks by keeping the
//! old one.

use vstd::prelude::*;
use crate::ast::Node;
use crate::diag::{diags_view, Diagnostic};
use crate::parser::{at_punct, opt_node_view, spec_parse_node};
use crate::tokens::{deep, Token, TokV};

verus! {

/// A read-only position into a token sequence.
pub struct Cursor<'a> {
    pub toks: &'a Vec<Token>,
    pub pos: usize,
}

impl<'a> Clone for Cursor<'a> {
    fn clone(&self) -> (r: Self)
        ensures
            r == *self,
    {
        Cursor { toks: self.toks, pos: self.pos }
    }
}

impl<'a> Copy for Cursor<'a> {

}

impl<'a> Cursor<'a> {
    pub open spec fn wf(self) -> bool {
        self.pos <= self.toks@.len()
    }

    /// Places a cursor at the start of a sequence.
    pub fn start(toks: &'a Vec<Token>) -> (r: Cursor<'a>)
        ensures
            r.toks == toks,
            r.pos == 0,
            r.wf(),
    {
        Cursor { toks, pos: 0 }
    }

    /// Is the whole sequence consumed?
    pub fn done(&self) -> (r: bool)
        ensures
            r == (self.pos >= self.toks@.len()),
    {
        self.pos >= self.toks.len()
    }

    /// Peeks one punctuation token: the cursor after it on a match, nothing
    /// otherwise; this cursor is unconsumed either way.
    pub fn peek_punct(&self, c: char) -> (r: Option<Cursor<'a>>)
        requires
            self.wf(),
        ensures
            r is Some <==> at_punct(deep(self.toks@), self.pos as int, c),
            r matches Some(n) ==> n.toks == self.toks && n.pos == self.pos + 1 && n.wf(),
    {
        if self.pos < self.toks.len() {
            match &self.toks[self.pos] {
                Token::Punct { ch, .. } if *ch == c => Some(
                    Cursor { toks: self.toks, pos: self.pos + 1 },
                ),
                _ => None,
            }
        } else {
            None
        }
    }

    /// Peeks one identifier: its text and the cursor after it.
    pub fn peek_ident(&self) -> (r: Option<(String, Cursor<'a>)>)
        requires
            self.wf(),
        ensures
            r is Some <==> (self.pos < self.toks@.len() && deep(self.toks@)[self.pos as int]
                matches TokV::Ident { .. }),
            r matches Some((t, n)) ==> n.toks == self.toks && n.pos == self.pos + 1 && n.wf() && t@
                == deep(self.toks@)[self.pos as int]->Ident_text,
    {
        if self.pos < self.toks.len() {
            match &self.toks[self.pos] {
                Token::Ident { text, .. } => Some(
                    (text.clone(), Cursor { toks: self.toks, pos: self.pos + 1 }),
                ),
                _ => None,
            }
        } else {
            None
        }
    }

    /// Peeks one literal: its text and the cursor after it.
    pub fn peek_lit(&self) -> (r: Option<(String, Cursor<'a>)>)
        requires
            self.wf(),
        ensures
            r is Some <==> (self.pos < self.toks@.len() && deep(self.toks@)[self.pos as int]
                matches TokV::Lit { .. }),
            r matches Some((t, n)) ==> n.toks == self.toks && n.pos == self.pos + 1 && n.wf() && t@
                == deep(self.toks@)[self.pos as int]->Lit_text,
    {
        if self.pos < self.toks.len() {
            match &self.toks[self.pos] {
                Token::Lit { text, .. } => Some(
                    (text.clone(), Cursor { toks: self.toks, pos: self.pos + 1 }),
                ),
                _ => None,
            }
        } else {
            None
        }
    }

    /// Structural peek: does a whole markup construct start here? Parses one
    /// node ahead and returns it with the cursor after it and the
    /// diagnostics that parse recorded; this cursor itself is unconsumed.
    pub fn peek_node(&self) -> (r: Option<(Option<Node>, Cursor<'a>, Vec<Diagnostic>)>)
        requires
            self.wf(),
        ensures
            r is Some <==> self.pos < self.toks@.len(),
            r matches Some((n, c, ds)) ==> ({
                let s = spec_parse_node(deep(self.toks@), self.pos as int);
                &&& opt_node_view(n) == s.0
                &&& c.toks == self.toks
                &&& c.pos as int == s.1
                &&& diags_view(ds@) == s.2
                &&& c.wf()
            }),
    {
        if self.pos < self.toks.len() {
            let (n, j, ds) = crate::parser::parse_node(self.toks, self.pos);
            Some((n, Cursor { toks: self.toks, pos: j }, ds))
        } else {
            None
        }
    }
}

} // verus!
