//! The lexical token model.
//!
//! The host language's lexer hands the compiler an ordered sequence of tokens;
//! the compiler only ever reads it through a [`crate::cursor::Cursor`], so
//! lookahead never consumes input. A group's contents are opaque to the markup
//! grammar: an embedded host expression is carried through unchanged.

use vstd::prelude::*;

verus! {

broadcast use
    vstd::std_specs::vec::axiom_vec_index_decreases,
    vstd::std_specs::vec::axiom_vec_decreases_to_view,
    vstd::seq::axiom_seq_index_decreases,
    vstd::seq::axiom_seq_subrange_decreases;

/// The delimiter a group was written with. The markup grammar gives braces
/// a special role (embedded expressions); the others are carried through
/// unchanged so generated code reproduces the source exactly.
#[derive(Debug, Clone, Copy, PartialEq, Eq, Structural)]
pub enum Delim {
    Paren,
    Brace,
    Bracket,
    /// An invisible delimiter, as host lexers produce around interpolations.
    Invisible,
}

/// One lexical token, with `pos` the index of the token in the source region
/// it came from (used for diagnostic spans).
#[derive(Debug, PartialEq, Eq)]
pub enum Token {
    Ident { text: String, pos: usize },
    Punct { ch: char, pos: usize },
    Lit { text: String, pos: usize },
    Group { delim: Delim, tokens: Vec<Token>, pos: usize },
}

/// Ghost image of a token: the same shape over mathematical values.
#[verifier::ext_equal]
pub enum TokV {
    Ident { text: Seq<char>, pos: int },
    Punct { ch: char, pos: int },
    Lit { text: Seq<char>, pos: int },
    Group { delim: Delim, tokens: Seq<TokV>, pos: int },
}

/// The ghost image of one token.
pub open spec fn tok_view(t: Token) -> TokV
    decreases t,
{
    match t {
        Token::Ident { text, pos } => TokV::Ident { text: text@, pos: pos as int },
        Token::Punct { ch, pos } => TokV::Punct { ch, pos: pos as int },
        Token::Lit { text, pos } => TokV::Lit { text: text@, pos: pos as int },
        Token::Group { delim, tokens, pos } => TokV::Group {
            delim,
            tokens: deep_seq(tokens@),
            pos: pos as int,
        },
    }
}

/// The ghost image of a token sequence, defined head-first.
pub open spec fn deep_seq(ts: Seq<Token>) -> Seq<TokV>
    decreases ts,
{
    if ts.len() == 0 {
        Seq::empty()
    } else {
        seq![tok_view(ts[0])] + deep_seq(ts.drop_first())
    }
}

/// `deep_seq` maps `tok_view` over the sequence, element by element.
pub broadcast proof fn lemma_deep_seq(ts: Seq<Token>)
    ensures
        (#[trigger] deep_seq(ts)).len() == ts.len(),
        forall|i: int| 0 <= i < ts.len() ==> deep_seq(ts)[i] == tok_view(ts[i]),
    decreases ts.len(),
{
    if ts.len() > 0 {
        lemma_deep_seq(ts.drop_first());
    }
}

impl View for Token {
    type V = TokV;

    open spec fn view(&self) -> TokV {
        tok_view(*self)
    }
}

/// The ghost image of a whole token sequence.
pub open spec fn deep(ts: Seq<Token>) -> Seq<TokV> {
    Seq::new(ts.len(), |i: int| ts[i]@)
}

/// `deep` and `deep_seq` agree.
pub broadcast proof fn lemma_deep(ts: Seq<Token>)
    ensures
        #[trigger] deep(ts) == deep_seq(ts),
{
    lemma_deep_seq(ts);
    assert(deep(ts) =~= deep_seq(ts));
}

/// The source position a token carries.
pub open spec fn tok_pos(t: TokV) -> int {
    match t {
        TokV::Ident { pos, .. } => pos,
        TokV::Punct { pos, .. } => pos,
        TokV::Lit { pos, .. } => pos,
        TokV::Group { pos, .. } => pos,
    }
}

pub open spec fn is_punct(t: TokV, c: char) -> bool {
    t matches TokV::Punct { ch, .. } && ch == c
}

impl Token {
    /// Structural copy of a token; groups are copied element by element.
    #[verifier::loop_isolation(false)]
    pub fn dup(&self) -> (r: Token)
        ensures
            r@ == self@,
        decreases *self,
    {
        match self {
            Token::Ident { text, pos } => Token::Ident { text: text.clone(), pos: *pos },
            Token::Punct { ch, pos } => Token::Punct { ch: *ch, pos: *pos },
            Token::Lit { text, pos } => Token::Lit { text: text.clone(), pos: *pos },
            Token::Group { delim, tokens, pos } => {
                let mut inner: Vec<Token> = Vec::new();
                let mut i: usize = 0;
                while i < tokens.len()
                    invariant
                        i <= tokens.len(),
                        inner@.len() == i,
                        forall|j: int|
                            0 <= j < i ==> tok_view(inner@[j]) == #[trigger] tok_view(tokens@[j]),
                    decreases tokens.len() - i,
                {
                    let t = tokens[i].dup();
                    inner.push(t);
                    i = i + 1;
                }
                proof {
                    lemma_deep_seq(inner@);
                    lemma_deep_seq(tokens@);
                    assert(deep_seq(inner@) =~= deep_seq(tokens@));
                }
                Token::Group { delim: *delim, tokens: inner, pos: *pos }
            },
        }
    }
}

/// Structural copy of a token sequence.
pub fn dup_tokens(ts: &Vec<Token>) -> (r: Vec<Token>)
    ensures
        deep(r@) == deep(ts@),
{
    let mut out: Vec<Token> = Vec::new();
    let mut i: usize = 0;
    while i < ts.len()
        invariant
            i <= ts.len(),
            out@.len() == i,
            forall|j: int| 0 <= j < i ==> tok_view(out@[j]) == #[trigger] tok_view(ts@[j]),
        decreases ts.len() - i,
    {
        let t = ts[i].dup();
        out.push(t);
        i = i + 1;
    }
    proof {
        assert(deep(out@) =~= deep(ts@));
    }
    out
}

} // verus!
