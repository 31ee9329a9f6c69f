//! The tree parser.
//!
//! A recursive-descent parse over a token sequence. Every function works on a
//! position into the sequence and never mutates it: looking ahead is reading
//! `toks[i]` without moving `i`, committing is returning a larger position.
//! Each local failure is recorded as a diagnostic and parsing continues, so a
//! single pass surfaces every independent mistake. Tag names are `::` type
//! paths; attribute values are literals, brace groups, or unbraced
//! expression runs.
//!
//! The `spec_` functions are the grammar: they say, position by position,
//! what is parsed, what is skipped, and which diagnostics are recorded. The
//! executable parser is proved to return exactly their value.

use vstd::prelude::*;
use crate::ast::{
    attr_view, attrs_view, lemma_nodes_view, nodes_view, Attr, AttrV, AttrValue, AttrValueV, Node,
    NodeV,
};
use crate::diag::{diags_view, DiagV, Diagnostic};
use crate::non_capitalized_ascii_spec;
use crate::tokens::{deep, is_punct, tok_pos, Token, TokV};

verus! {

/// Position reported in a diagnostic raised at `i`: the source position of
/// the token there, or the index itself at the end of input.
pub open spec fn pos_at(toks: Seq<TokV>, i: int) -> int {
    if 0 <= i < toks.len() {
        tok_pos(toks[i])
    } else {
        i
    }
}

pub open spec fn at_punct(toks: Seq<TokV>, i: int, c: char) -> bool {
    0 <= i < toks.len() && is_punct(toks[i], c)
}

/// Does a closing tag start at `i`?
pub open spec fn at_close(toks: Seq<TokV>, i: int) -> bool {
    at_punct(toks, i, '<') && at_punct(toks, i + 1, '/')
}

pub open spec fn dg(pos: int, msg: Seq<char>) -> DiagV {
    DiagV { pos, msg }
}

/// An attribute whose name registers an event listener instead of setting
/// an attribute. The convention is exactly this: the name is longer than two
/// characters and starts with `on`. It is deliberately a single prefix rule,
/// not a list of known events — so a plain attribute named, say, `once`
/// would be treated as a listener registration; pick attribute names
/// accordingly.
pub open spec fn is_listener_name(name: Seq<char>) -> bool {
    name.len() > 2 && name[0] == 'o' && name[1] == 'n'
}

/// A tag name at `i`: an identifier, continued over `::` into a type path.
/// Returns the joined path text and the position after it.
pub open spec fn spec_scan_path(toks: Seq<TokV>, i: int) -> (Seq<char>, int)
    decreases toks.len() - i,
{
    if !(0 <= i < toks.len()) || !(toks[i] matches TokV::Ident { .. }) {
        (Seq::empty(), i)
    } else {
        let t = toks[i]->Ident_text;
        if at_punct(toks, i + 1, ':') && at_punct(toks, i + 2, ':') && i + 3 < toks.len() && (
        toks[i + 3] matches TokV::Ident { .. }) {
            let rec = spec_scan_path(toks, i + 3);
            (t + "::"@ + rec.0, rec.1)
        } else {
            (t, i + 1)
        }
    }
}

/// The path scan never moves backwards nor past the end, and consumes at
/// least the identifier it starts on.
pub proof fn lemma_scan_path_bounds(toks: Seq<TokV>, i: int)
    requires
        0 <= i <= toks.len(),
    ensures
        i <= spec_scan_path(toks, i).1 <= toks.len(),
        i < toks.len() && (toks[i] matches TokV::Ident { .. }) ==> i < spec_scan_path(toks, i).1,
    decreases toks.len() - i,
{
    if i < toks.len() && (toks[i] matches TokV::Ident { .. }) {
        if at_punct(toks, i + 1, ':') && at_punct(toks, i + 2, ':') && i + 3 < toks.len() && (
        toks[i + 3] matches TokV::Ident { .. }) {
            lemma_scan_path_bounds(toks, i + 3);
        }
    }
}

/// A name with no `::` separator: a single identifier rather than a path.
pub open spec fn no_path_sep(name: Seq<char>) -> bool {
    forall|x: int| 0 <= x < name.len() ==> name[x] != ':'
}

/// One step of an unbraced attribute-value expression: after its leading
/// identifier, the run extends over `.` followed by an identifier, `::`
/// followed by an identifier, and any group (a call's arguments, an index).
/// Returns the position after the run.
pub open spec fn spec_scan_expr_rest(toks: Seq<TokV>, p: int) -> int
    decreases toks.len() - p,
{
    if at_punct(toks, p, '.') && p + 1 < toks.len() && (toks[p + 1] matches TokV::Ident { .. }) {
        spec_scan_expr_rest(toks, p + 2)
    } else if at_punct(toks, p, ':') && at_punct(toks, p + 1, ':') && p + 2 < toks.len() && (
    toks[p + 2] matches TokV::Ident { .. }) {
        spec_scan_expr_rest(toks, p + 3)
    } else if 0 <= p < toks.len() && (toks[p] matches TokV::Group { .. }) {
        spec_scan_expr_rest(toks, p + 1)
    } else {
        p
    }
}

/// The expression run never moves backwards nor past the end.
pub proof fn lemma_scan_expr_rest_bounds(toks: Seq<TokV>, p: int)
    requires
        0 <= p <= toks.len(),
    ensures
        p <= spec_scan_expr_rest(toks, p) <= toks.len(),
    decreases toks.len() - p,
{
    if at_punct(toks, p, '.') && p + 1 < toks.len() && (toks[p + 1] matches TokV::Ident { .. }) {
        lemma_scan_expr_rest_bounds(toks, p + 2);
    } else if at_punct(toks, p, ':') && at_punct(toks, p + 1, ':') && p + 2 < toks.len() && (
    toks[p + 2] matches TokV::Ident { .. }) {
        lemma_scan_expr_rest_bounds(toks, p + 3);
    } else if 0 <= p < toks.len() && (toks[p] matches TokV::Group { .. }) {
        lemma_scan_expr_rest_bounds(toks, p + 1);
    }
}

/// Attribute scan: `name = "lit"`, `name = { expr }`, `name = expr` for an
/// unbraced expression (an identifier continued per
/// [`spec_scan_expr_rest`], as in a method-call chain), or bare `name`
/// (boolean-true shorthand), repeated while an identifier is next. Only a
/// brace group is a braced value; other delimiters can stand inside an
/// unbraced run but not open a value. Returns the attributes in source
/// order, the position after the last one, and the diagnostics recorded.
pub open spec fn spec_scan_attrs(toks: Seq<TokV>, i: int) -> (Seq<AttrV>, int, Seq<DiagV>)
    decreases toks.len() - i,
{
    if !(0 <= i < toks.len()) {
        (Seq::empty(), i, Seq::empty())
    } else {
        match toks[i] {
            TokV::Ident { text: name, pos: npos } => {
                if at_punct(toks, i + 1, '=') {
                    if i + 2 < toks.len() && toks[i + 2] matches TokV::Lit { text, .. } {
                        let rec = spec_scan_attrs(toks, i + 3);
                        (
                            seq![
                                AttrV {
                                    name,
                                    value: AttrValueV::Str {
                                        text: toks[i + 2]->Lit_text,
                                    },
                                    pos: npos,
                                },
                            ] + rec.0,
                            rec.1,
                            rec.2,
                        )
                    } else if i + 2 < toks.len() && (toks[i + 2] matches TokV::Group { .. })
                        && toks[i + 2]->Group_delim is Brace {
                        let rec = spec_scan_attrs(toks, i + 3);
                        (
                            seq![
                                AttrV {
                                    name,
                                    value: AttrValueV::Expr {
                                        tokens: toks[i + 2]->Group_tokens,
                                    },
                                    pos: npos,
                                },
                            ] + rec.0,
                            rec.1,
                            rec.2,
                        )
                    } else if i + 2 < toks.len() && (toks[i + 2] matches TokV::Ident { .. }) {
                        let e = clamp_after(
                            spec_scan_expr_rest(toks, i + 3),
                            i + 2,
                            toks.len() as int,
                        );
                        let rec = spec_scan_attrs(toks, e);
                        (
                            seq![
                                AttrV {
                                    name,
                                    value: AttrValueV::Expr {
                                        tokens: toks.subrange(i + 2, e),
                                    },
                                    pos: npos,
                                },
                            ] + rec.0,
                            rec.1,
                            rec.2,
                        )
                    } else {
                        // `name =` with no usable value: record and rescan at
                        // the offending token.
                        let rec = spec_scan_attrs(toks, i + 2);
                        (rec.0, rec.1, seq![dg(pos_at(toks, i + 2), "expected attribute value"@)] + rec.2)
                    }
                } else {
                    let rec = spec_scan_attrs(toks, i + 1);
                    (
                        seq![AttrV { name, value: AttrValueV::True, pos: npos }] + rec.0,
                        rec.1,
                        rec.2,
                    )
                }
            },
            _ => (Seq::empty(), i, Seq::empty()),
        }
    }
}

/// Attribute names must be unique: a repeated name keeps its first
/// occurrence and records one "duplicate attribute" diagnostic.
pub open spec fn spec_dedup_attrs(attrs: Seq<AttrV>, k: int) -> (Seq<AttrV>, Seq<DiagV>)
    decreases attrs.len() - k,
{
    if !(0 <= k < attrs.len()) {
        (Seq::empty(), Seq::empty())
    } else {
        let rec = spec_dedup_attrs(attrs, k + 1);
        if exists|j: int| 0 <= j < k && (#[trigger] attrs[j]).name == attrs[k].name {
            (rec.0, seq![dg(attrs[k].pos, "duplicate attribute"@)] + rec.1)
        } else {
            (seq![attrs[k]] + rec.0, rec.1)
        }
    }
}

/// Splits a deduplicated attribute list into plain attributes and event
/// listeners, both keeping source order.
pub open spec fn spec_split_listeners(attrs: Seq<AttrV>, k: int) -> (Seq<AttrV>, Seq<AttrV>)
    decreases attrs.len() - k,
{
    if !(0 <= k < attrs.len()) {
        (Seq::empty(), Seq::empty())
    } else {
        let rec = spec_split_listeners(attrs, k + 1);
        if is_listener_name(attrs[k].name) {
            (rec.0, seq![attrs[k]] + rec.1)
        } else {
            (seq![attrs[k]] + rec.0, rec.1)
        }
    }
}

/// Consumes the closing tag expected at `k` for the opener named `name`
/// (`None` for a fragment). A close tag with the wrong name still closes the
/// construct — one "mismatched closing tag" diagnostic is recorded and
/// parsing continues past it. A missing close tag records "unclosed tag" at
/// the opener and consumes nothing.
pub open spec fn spec_close(toks: Seq<TokV>, k: int, name: Option<Seq<char>>, open_pos: int) -> (
    int,
    Seq<DiagV>,
) {
    if at_close(toks, k) {
        if at_punct(toks, k + 2, '>') {
            if name is None {
                (k + 3, Seq::empty())
            } else {
                (k + 3, seq![dg(pos_at(toks, k + 2), "mismatched closing tag"@)])
            }
        } else if k + 2 < toks.len() && (toks[k + 2] matches TokV::Ident { text, .. }) {
            let sp = spec_scan_path(toks, k + 2);
            let e = clamp_after(sp.1, k + 2, toks.len() as int);
            if at_punct(toks, e, '>') {
                if name matches Some(n) && n == sp.0 {
                    (e + 1, Seq::empty())
                } else {
                    (e + 1, seq![dg(pos_at(toks, k + 2), "mismatched closing tag"@)])
                }
            } else {
                (e, seq![dg(pos_at(toks, e), "malformed closing tag"@)])
            }
        } else {
            (k + 2, seq![dg(pos_at(toks, k + 2), "malformed closing tag"@)])
        }
    } else {
        (k, seq![dg(open_pos, "unclosed tag"@)])
    }
}

pub open spec fn clamp_after(j: int, i: int, len: int) -> int {
    if j <= i {
        i + 1
    } else if j > len {
        len
    } else {
        j
    }
}

/// Builds the node for an open tag once its attributes and children are
/// known: a single identifier whose first character is a lowercase ASCII
/// letter is a plain element; any other name — including every `::` type
/// path — is a component. A component carries properties and no children;
/// children parsed inside one are dropped with a diagnostic.
pub open spec fn spec_make_tag_node(
    name: Seq<char>,
    attrs: Seq<AttrV>,
    children: Seq<NodeV>,
    pos: int,
) -> (NodeV, Seq<DiagV>) {
    if non_capitalized_ascii_spec(name) && no_path_sep(name) {
        let split = spec_split_listeners(attrs, 0);
        (
            NodeV::Element {
                tag: name,
                attrs: split.0,
                listeners: split.1,
                children,
                pos,
            },
            Seq::empty(),
        )
    } else {
        if children.len() == 0 {
            (NodeV::Component { path: name, props: attrs, pos }, Seq::empty())
        } else {
            (
                NodeV::Component { path: name, props: attrs, pos },
                seq![dg(pos, "component cannot have children"@)],
            )
        }
    }
}

/// Parses one node starting at `i`. Returns the node if one was produced,
/// the position after everything consumed, and the diagnostics recorded.
pub open spec fn spec_parse_node(toks: Seq<TokV>, i: int) -> (Option<NodeV>, int, Seq<DiagV>)
    decreases toks.len() - i, 0int,
{
    if !(0 <= i < toks.len()) {
        (None, i, Seq::empty())
    } else {
        match toks[i] {
            TokV::Lit { text, pos } => (Some(NodeV::Text { text, pos }), i + 1, Seq::empty()),
            TokV::Group { delim, tokens, pos } => if delim is Brace {
                (Some(NodeV::Block { tokens, pos }), i + 1, Seq::empty())
            } else {
                (None, i + 1, seq![dg(pos, "unexpected token"@)])
            },
            TokV::Punct { ch, pos } => {
                if ch == '<' {
                    if at_punct(toks, i + 1, '>') {
                        // fragment
                        let body = spec_parse_nodes(toks, i + 2);
                        let k = clamp_after(body.1, i + 1, toks.len() as int);
                        let close = spec_close(toks, k, None, pos);
                        (
                            Some(NodeV::Fragment { children: body.0, pos }),
                            close.0,
                            body.2 + close.1,
                        )
                    } else if i + 1 < toks.len() && toks[i + 1] matches TokV::Ident { text, .. } {
                        let sp = spec_scan_path(toks, i + 1);
                        let name = sp.0;
                        let ap = clamp_after(sp.1, i + 1, toks.len() as int);
                        let scanned = spec_scan_attrs(toks, ap);
                        let j = clamp_after(scanned.1, ap - 1, toks.len() as int);
                        let ded = spec_dedup_attrs(scanned.0, 0);
                        if at_punct(toks, j, '/') && at_punct(toks, j + 1, '>') {
                            let made = spec_make_tag_node(name, ded.0, Seq::empty(), pos);
                            (Some(made.0), j + 2, scanned.2 + ded.1 + made.1)
                        } else if at_punct(toks, j, '>') {
                            let body = spec_parse_nodes(toks, j + 1);
                            let k = clamp_after(body.1, j, toks.len() as int);
                            let close = spec_close(toks, k, Some(name), pos);
                            let made = spec_make_tag_node(name, ded.0, body.0, pos);
                            (
                                Some(made.0),
                                close.0,
                                scanned.2 + ded.1 + body.2 + close.1 + made.1,
                            )
                        } else {
                            // open tag never finished: treat it as self-closing
                            let made = spec_make_tag_node(name, ded.0, Seq::empty(), pos);
                            (
                                Some(made.0),
                                if j < toks.len() {
                                    j + 1
                                } else {
                                    j
                                },
                                scanned.2 + ded.1 + seq![dg(pos_at(toks, j), "malformed tag"@)]
                                    + made.1,
                            )
                        }
                    } else if at_punct(toks, i + 1, '/') {
                        // a close tag with no open construct
                        let skip = spec_close(toks, i, Some(Seq::empty()), pos);
                        (None, skip.0, seq![dg(pos, "unexpected closing tag"@)])
                    } else {
                        (None, i + 1, seq![dg(pos, "expected tag name"@)])
                    }
                } else {
                    (None, i + 1, seq![dg(pos, "unexpected token"@)])
                }
            },
            TokV::Ident { text, pos } => (None, i + 1, seq![dg(pos, "unexpected token"@)]),
        }
    }
}

/// Parses sibling nodes until a closing tag or the end of input.
pub open spec fn spec_parse_nodes(toks: Seq<TokV>, i: int) -> (Seq<NodeV>, int, Seq<DiagV>)
    decreases toks.len() - i, 1int,
{
    if !(0 <= i < toks.len()) {
        (Seq::empty(), i, Seq::empty())
    } else if at_close(toks, i) {
        (Seq::empty(), i, Seq::empty())
    } else {
        let one = spec_parse_node(toks, i);
        let j = clamp_after(one.1, i, toks.len() as int);
        let rest = spec_parse_nodes(toks, j);
        (
            match one.0 {
                Some(n) => seq![n] + rest.0,
                None => rest.0,
            },
            rest.1,
            one.2 + rest.2,
        )
    }
}

/// Parses a whole region: sibling nodes, with any stray closing tag skipped
/// under its own diagnostic, until the end of input.
pub open spec fn spec_parse_root(toks: Seq<TokV>, i: int) -> (Seq<NodeV>, Seq<DiagV>)
    decreases toks.len() - i, 2int,
{
    if !(0 <= i <= toks.len()) {
        (Seq::empty(), Seq::empty())
    } else {
        let body = spec_parse_nodes(toks, i);
        let j = clamp_after(body.1, i - 1, toks.len() as int);
        if j >= toks.len() {
            (body.0, body.2)
        } else {
            let skip = spec_close(toks, j, Some(Seq::empty()), pos_at(toks, j));
            let j2 = clamp_after(skip.0, j, toks.len() as int);
            let rest = spec_parse_root(toks, j2);
            (
                body.0 + rest.0,
                body.2 + seq![dg(pos_at(toks, j), "unexpected closing tag"@)] + rest.1,
            )
        }
    }
}

/// The attribute scan never moves backwards nor past the end.
pub proof fn lemma_scan_attrs_bounds(toks: Seq<TokV>, i: int)
    requires
        0 <= i <= toks.len(),
    ensures
        i <= spec_scan_attrs(toks, i).1 <= toks.len(),
    decreases toks.len() - i,
{
    if i < toks.len() {
        if toks[i] matches TokV::Ident { .. } {
            if at_punct(toks, i + 1, '=') {
                if i + 2 < toks.len() && (toks[i + 2] matches TokV::Lit { .. } || ((toks[i + 2]
                    matches TokV::Group { .. }) && toks[i + 2]->Group_delim is Brace)) {
                    lemma_scan_attrs_bounds(toks, i + 3);
                } else if i + 2 < toks.len() && (toks[i + 2] matches TokV::Ident { .. }) {
                    let e = clamp_after(
                        spec_scan_expr_rest(toks, i + 3),
                        i + 2,
                        toks.len() as int,
                    );
                    lemma_scan_attrs_bounds(toks, e);
                } else {
                    lemma_scan_attrs_bounds(toks, i + 2);
                }
            } else {
                lemma_scan_attrs_bounds(toks, i + 1);
            }
        }
    }
}

/// Consuming a close tag never moves backwards nor past the end.
pub proof fn lemma_close_bounds(toks: Seq<TokV>, k: int, name: Option<Seq<char>>, open_pos: int)
    requires
        0 <= k <= toks.len(),
    ensures
        k <= spec_close(toks, k, name, open_pos).0 <= toks.len(),
{
}

/// Parsing one node consumes at least one token and stops at the end.
pub proof fn lemma_parse_node_bounds(toks: Seq<TokV>, i: int)
    requires
        0 <= i < toks.len(),
    ensures
        i < spec_parse_node(toks, i).1 <= toks.len(),
    decreases toks.len() - i, 0int,
{
    match toks[i] {
        TokV::Punct { ch, pos } => {
            if ch == '<' {
                if at_punct(toks, i + 1, '>') {
                    lemma_parse_nodes_bounds(toks, i + 2);
                    let body = spec_parse_nodes(toks, i + 2);
                    let k = clamp_after(body.1, i + 1, toks.len() as int);
                    lemma_close_bounds(toks, k, None, pos);
                } else if i + 1 < toks.len() && (toks[i + 1] matches TokV::Ident { .. }) {
                    lemma_scan_path_bounds(toks, i + 1);
                    let sp = spec_scan_path(toks, i + 1);
                    let ap = clamp_after(sp.1, i + 1, toks.len() as int);
                    lemma_scan_attrs_bounds(toks, ap);
                    let scanned = spec_scan_attrs(toks, ap);
                    let j = clamp_after(scanned.1, ap - 1, toks.len() as int);
                    if at_punct(toks, j, '/') && at_punct(toks, j + 1, '>') {
                    } else if at_punct(toks, j, '>') {
                        lemma_parse_nodes_bounds(toks, j + 1);
                        let body = spec_parse_nodes(toks, j + 1);
                        let k = clamp_after(body.1, j, toks.len() as int);
                        lemma_close_bounds(toks, k, Some(sp.0), pos);
                    }
                } else if at_punct(toks, i + 1, '/') {
                    lemma_close_bounds(toks, i, Some(Seq::empty()), pos);
                }
            }
        },
        _ => {},
    }
}

/// Parsing siblings never moves backwards; it stops at a closing tag or at
/// the end of input.
pub proof fn lemma_parse_nodes_bounds(toks: Seq<TokV>, i: int)
    requires
        0 <= i <= toks.len(),
    ensures
        i <= spec_parse_nodes(toks, i).1 <= toks.len(),
        spec_parse_nodes(toks, i).1 == toks.len() || at_close(toks, spec_parse_nodes(toks, i).1),
    decreases toks.len() - i, 1int,
{
    if i < toks.len() && !at_close(toks, i) {
        lemma_parse_node_bounds(toks, i);
        let one = spec_parse_node(toks, i);
        let j = clamp_after(one.1, i, toks.len() as int);
        lemma_parse_nodes_bounds(toks, j);
    }
}

/// No two attributes share a name.
pub open spec fn attrs_unique(attrs: Seq<AttrV>) -> bool {
    forall|x: int, y: int| 0 <= x < y < attrs.len() ==> attrs[x].name != attrs[y].name
}

/// Does some attribute in `attrs[a..b]` carry this name?
pub open spec fn name_in(attrs: Seq<AttrV>, a: int, b: int, name: Seq<char>) -> bool {
    exists|j: int| a <= j < b && #[trigger] attrs[j].name == name
}

/// The structural invariant of a parsed node: attribute and property names
/// are unique, event listeners and plain attributes are kept apart by the
/// naming convention (so the two classes can never conflict), and children
/// satisfy the same invariant.
pub open spec fn node_wf(n: NodeV) -> bool
    decreases n, 0int, 0int,
{
    match n {
        NodeV::Element { attrs, listeners, children, .. } => {
            &&& attrs_unique(attrs)
            &&& attrs_unique(listeners)
            &&& forall|x: int| 0 <= x < attrs.len() ==> !is_listener_name(#[trigger] attrs[x].name)
            &&& forall|x: int|
                0 <= x < listeners.len() ==> is_listener_name(#[trigger] listeners[x].name)
            &&& nodes_wf(children, 0)
        },
        NodeV::Component { props, .. } => attrs_unique(props),
        NodeV::Fragment { children, .. } => nodes_wf(children, 0),
        NodeV::Block { .. } => true,
        NodeV::Text { .. } => true,
    }
}

/// Every node from `k` on is well-formed.
pub open spec fn nodes_wf(ns: Seq<NodeV>, k: int) -> bool
    decreases ns, ns.len() - k, 1int,
{
    if !(0 <= k < ns.len()) {
        true
    } else {
        node_wf(ns[k]) && nodes_wf(ns, k + 1)
    }
}

/// Deduplication leaves unique names, none of them already seen before `k`.
pub proof fn lemma_dedup_attrs_unique(attrs: Seq<AttrV>, k: int)
    ensures
        attrs_unique(spec_dedup_attrs(attrs, k).0),
        forall|x: int|
            0 <= x < spec_dedup_attrs(attrs, k).0.len() ==> !name_in(
                attrs,
                0,
                k,
                #[trigger] spec_dedup_attrs(attrs, k).0[x].name,
            ),
    decreases attrs.len() - k,
{
    if 0 <= k < attrs.len() {
        lemma_dedup_attrs_unique(attrs, k + 1);
        let rec = spec_dedup_attrs(attrs, k + 1).0;
        let out = spec_dedup_attrs(attrs, k).0;
        if !(exists|j: int| 0 <= j < k && (#[trigger] attrs[j]).name == attrs[k].name) {
            assert forall|x: int| 0 <= x < out.len() implies !name_in(
                attrs,
                0,
                k,
                #[trigger] out[x].name,
            ) by {
                if x == 0 {
                    if name_in(attrs, 0, k, attrs[k].name) {
                        let j = choose|j: int| 0 <= j < k && #[trigger] attrs[j].name
                            == attrs[k].name;
                        assert(false);
                    }
                } else {
                    assert(out[x] == rec[x - 1]);
                    assert(!name_in(attrs, 0, k + 1, rec[x - 1].name));
                    if name_in(attrs, 0, k, out[x].name) {
                        let j = choose|j: int| 0 <= j < k && #[trigger] attrs[j].name
                            == out[x].name;
                        assert(attrs[j].name == rec[x - 1].name && 0 <= j < k + 1);
                    }
                }
            }
            assert forall|x: int, y: int| 0 <= x < y < out.len() implies out[x].name
                != out[y].name by {
                if x == 0 {
                    assert(out[y] == rec[y - 1]);
                    assert(!name_in(attrs, 0, k + 1, rec[y - 1].name));
                    if out[0].name == out[y].name {
                        assert(attrs[k].name == rec[y - 1].name);
                    }
                } else {
                    assert(out[x] == rec[x - 1] && out[y] == rec[y - 1]);
                }
            }
        } else {
            assert forall|x: int| 0 <= x < out.len() implies !name_in(
                attrs,
                0,
                k,
                #[trigger] out[x].name,
            ) by {
                assert(!name_in(attrs, 0, k + 1, rec[x].name));
                if name_in(attrs, 0, k, out[x].name) {
                    let j = choose|j: int| 0 <= j < k && #[trigger] attrs[j].name == out[x].name;
                    assert(attrs[j].name == rec[x].name && 0 <= j < k + 1);
                }
            }
        }
    }
}

/// Splitting a unique attribute list gives two unique lists: the plain ones,
/// none listener-named, and the listeners, all listener-named.
pub proof fn lemma_split_listeners_wf(attrs: Seq<AttrV>, k: int)
    requires
        attrs_unique(attrs),
        0 <= k <= attrs.len(),
    ensures
        attrs_unique(spec_split_listeners(attrs, k).0),
        attrs_unique(spec_split_listeners(attrs, k).1),
        forall|x: int|
            0 <= x < spec_split_listeners(attrs, k).0.len() ==> !is_listener_name(
                #[trigger] spec_split_listeners(attrs, k).0[x].name,
            ) && name_in(attrs, k, attrs.len() as int, spec_split_listeners(attrs, k).0[x].name),
        forall|x: int|
            0 <= x < spec_split_listeners(attrs, k).1.len() ==> is_listener_name(
                #[trigger] spec_split_listeners(attrs, k).1[x].name,
            ) && name_in(attrs, k, attrs.len() as int, spec_split_listeners(attrs, k).1[x].name),
    decreases attrs.len() - k,
{
    if k < attrs.len() {
        lemma_split_listeners_wf(attrs, k + 1);
        let rec = spec_split_listeners(attrs, k + 1);
        let out = spec_split_listeners(attrs, k);
        let kept = if is_listener_name(attrs[k].name) {
            out.1
        } else {
            out.0
        };
        let rest = if is_listener_name(attrs[k].name) {
            rec.1
        } else {
            rec.0
        };
        assert(kept == seq![attrs[k]] + rest);
        assert forall|x: int, y: int| 0 <= x < y < kept.len() implies kept[x].name
            != kept[y].name by {
            if x == 0 {
                assert(kept[y] == rest[y - 1]);
                assert(name_in(attrs, k + 1, attrs.len() as int, rest[y - 1].name));
                if kept[0].name == kept[y].name {
                    let j = choose|j: int|
                        k + 1 <= j < attrs.len() && #[trigger] attrs[j].name == rest[y - 1].name;
                    assert(attrs[k].name != attrs[j].name);
                }
            } else {
                assert(kept[x] == rest[x - 1] && kept[y] == rest[y - 1]);
            }
        }
        assert forall|x: int| 0 <= x < kept.len() implies name_in(
            attrs,
            k,
            attrs.len() as int,
            #[trigger] kept[x].name,
        ) by {
            if x == 0 {
                assert(attrs[k].name == kept[0].name);
            } else {
                assert(kept[x] == rest[x - 1]);
                assert(name_in(attrs, k + 1, attrs.len() as int, rest[x - 1].name));
                let j = choose|j: int|
                    k + 1 <= j < attrs.len() && #[trigger] attrs[j].name == rest[x - 1].name;
                assert(k <= j < attrs.len() && attrs[j].name == kept[x].name);
            }
        }
    }
}

/// `nodes_wf` from `k` means each node from `k` on is well-formed.
pub proof fn lemma_nodes_wf_index(ns: Seq<NodeV>, k: int)
    requires
        0 <= k,
    ensures
        nodes_wf(ns, k) <==> (forall|j: int| k <= j < ns.len() ==> node_wf(#[trigger] ns[j])),
    decreases ns.len() - k,
{
    if 0 <= k < ns.len() {
        lemma_nodes_wf_index(ns, k + 1);
    }
}

/// Every node the parser produces satisfies the structural invariant, even
/// when diagnostics were recorded along the way.
pub proof fn lemma_parse_node_wf(toks: Seq<TokV>, i: int)
    requires
        0 <= i < toks.len(),
    ensures
        spec_parse_node(toks, i).0 matches Some(n) ==> node_wf(n),
    decreases toks.len() - i, 0int,
{
    match toks[i] {
        TokV::Punct { ch, pos } => {
            if ch == '<' {
                if at_punct(toks, i + 1, '>') {
                    lemma_parse_nodes_bounds(toks, i + 2);
                    lemma_parse_nodes_wf(toks, i + 2);
                } else if i + 1 < toks.len() && (toks[i + 1] matches TokV::Ident { .. }) {
                    lemma_scan_path_bounds(toks, i + 1);
                    let sp = spec_scan_path(toks, i + 1);
                    let ap = clamp_after(sp.1, i + 1, toks.len() as int);
                    lemma_scan_attrs_bounds(toks, ap);
                    let scanned = spec_scan_attrs(toks, ap);
                    let j = clamp_after(scanned.1, ap - 1, toks.len() as int);
                    let ded = spec_dedup_attrs(scanned.0, 0);
                    lemma_dedup_attrs_unique(scanned.0, 0);
                    lemma_split_listeners_wf(ded.0, 0);
                    if at_punct(toks, j, '/') && at_punct(toks, j + 1, '>') {
                    } else if at_punct(toks, j, '>') {
                        lemma_parse_nodes_bounds(toks, j + 1);
                        lemma_parse_nodes_wf(toks, j + 1);
                    }
                }
            }
        },
        _ => {},
    }
}

/// Every node in a parsed sibling list satisfies the structural invariant.
pub proof fn lemma_parse_nodes_wf(toks: Seq<TokV>, i: int)
    requires
        0 <= i <= toks.len(),
    ensures
        nodes_wf(spec_parse_nodes(toks, i).0, 0),
    decreases toks.len() - i, 1int,
{
    if i < toks.len() && !at_close(toks, i) {
        lemma_parse_node_bounds(toks, i);
        lemma_parse_node_wf(toks, i);
        let one = spec_parse_node(toks, i);
        let j = clamp_after(one.1, i, toks.len() as int);
        lemma_parse_nodes_wf(toks, j);
        let rest = spec_parse_nodes(toks, j).0;
        lemma_nodes_wf_index(rest, 0);
        lemma_nodes_wf_index(spec_parse_nodes(toks, i).0, 0);
    }
}

/// Every node a whole parsed region holds satisfies the structural
/// invariant: well-formedness is guaranteed whether or not the region also
/// produced diagnostics.
pub proof fn lemma_parse_root_wf(toks: Seq<TokV>, i: int)
    requires
        0 <= i <= toks.len(),
    ensures
        nodes_wf(spec_parse_root(toks, i).0, 0),
    decreases toks.len() - i, 2int,
{
    lemma_parse_nodes_bounds(toks, i);
    lemma_parse_nodes_wf(toks, i);
    let body = spec_parse_nodes(toks, i);
    let j = clamp_after(body.1, i - 1, toks.len() as int);
    if j < toks.len() {
        let skip = spec_close(toks, j, Some(Seq::empty()), pos_at(toks, j));
        let j2 = clamp_after(skip.0, j, toks.len() as int);
        lemma_parse_root_wf(toks, j2);
        let rest = spec_parse_root(toks, j2).0;
        lemma_nodes_wf_index(body.0, 0);
        lemma_nodes_wf_index(rest, 0);
        lemma_nodes_wf_index(spec_parse_root(toks, i).0, 0);
        assert forall|x: int| 0 <= x < (body.0 + rest).len() implies node_wf(
            #[trigger] (body.0 + rest)[x],
        ) by {
            if x < body.0.len() {
                assert((body.0 + rest)[x] == body.0[x]);
            } else {
                assert((body.0 + rest)[x] == rest[x - body.0.len()]);
            }
        }
    }
}

/// Lookahead: is the punctuation `c` at `i`? Never consumes input.
pub fn punct_at(toks: &Vec<Token>, i: usize, c: char) -> (r: bool)
    ensures
        r == at_punct(deep(toks@), i as int, c),
{
    if i < toks.len() {
        match &toks[i] {
            Token::Punct { ch, .. } => *ch == c,
            _ => false,
        }
    } else {
        false
    }
}

/// The source position for a diagnostic raised at `i`.
pub fn pos_of(toks: &Vec<Token>, i: usize) -> (r: usize)
    ensures
        r as int == pos_at(deep(toks@), i as int),
{
    if i < toks.len() {
        match &toks[i] {
            Token::Ident { pos, .. } => *pos,
            Token::Punct { pos, .. } => *pos,
            Token::Lit { pos, .. } => *pos,
            Token::Group { pos, .. } => *pos,
        }
    } else {
        i
    }
}

/// One diagnostic as a fresh list.
fn diag1(pos: usize, msg: &str) -> (r: Vec<Diagnostic>)
    ensures
        diags_view(r@) == seq![dg(pos as int, msg@)],
{
    let d = Diagnostic::new(pos, msg);
    let r = vec![d];
    proof {
        assert(diags_view(r@) =~= seq![dg(pos as int, msg@)]);
    }
    r
}

/// Appends `more` to `acc`.
fn push_diags(acc: &mut Vec<Diagnostic>, more: Vec<Diagnostic>)
    ensures
        diags_view(final(acc)@) == diags_view(old(acc)@) + diags_view(more@),
{
    let mut m = more;
    let ghost mv = m@;
    acc.append(&mut m);
    proof {
        assert(diags_view(acc@) =~= diags_view(old(acc)@) + diags_view(mv));
    }
}

/// Does this attribute name register an event listener?
pub fn is_listener(name: &String) -> (r: bool)
    ensures
        r == is_listener_name(name@),
{
    let s = name.as_str();
    s.unicode_len() > 2 && s.get_char(0) == 'o' && s.get_char(1) == 'n'
}

/// Expression run; see [`spec_scan_expr_rest`].
pub fn scan_expr_rest(toks: &Vec<Token>, p: usize) -> (r: usize)
    requires
        p <= toks@.len(),
    ensures
        r as int == spec_scan_expr_rest(deep(toks@), p as int),
        p <= r <= toks@.len(),
    decreases toks@.len() - p,
{
    proof {
        lemma_scan_expr_rest_bounds(deep(toks@), p as int);
    }
    let n = toks.len();
    if punct_at(toks, p, '.') && p + 1 < n && (matches!(&toks[p + 1], Token::Ident { .. })) {
        scan_expr_rest(toks, p + 2)
    } else if punct_at(toks, p, ':') && punct_at(toks, p + 1, ':') && p + 2 < n && (matches!(
        &toks[p + 2],
        Token::Ident { .. },
    )) {
        scan_expr_rest(toks, p + 3)
    } else if p < n && (matches!(&toks[p], Token::Group { .. })) {
        scan_expr_rest(toks, p + 1)
    } else {
        p
    }
}

/// Path scan; see [`spec_scan_path`].
pub fn scan_path(toks: &Vec<Token>, i: usize) -> (r: (String, usize))
    requires
        i <= toks@.len(),
    ensures
        ({
            let s = spec_scan_path(deep(toks@), i as int);
            &&& r.0@ == s.0
            &&& r.1 as int == s.1
            &&& i <= r.1 <= toks@.len()
        }),
    decreases toks@.len() - i,
{
    proof {
        lemma_scan_path_bounds(deep(toks@), i as int);
    }
    let n = toks.len();
    if i >= n {
        (String::new(), i)
    } else {
        match &toks[i] {
            Token::Ident { text, .. } => {
                let more = punct_at(toks, i + 1, ':') && punct_at(toks, i + 2, ':') && i + 3 < n
                    && (matches!(&toks[i + 3], Token::Ident { .. }));
                if more {
                    let (rest, e) = scan_path(toks, i + 3);
                    let joined = text.clone().concat("::").concat(rest.as_str());
                    proof {
                        assert(joined@ =~= spec_scan_path(deep(toks@), i as int).0);
                    }
                    (joined, e)
                } else {
                    (text.clone(), i + 1)
                }
            },
            _ => (String::new(), i),
        }
    }
}

/// Does the name hold a `::` path separator?
pub fn has_path_sep(name: &String) -> (r: bool)
    ensures
        r == !no_path_sep(name@),
{
    let st = name.as_str();
    let n = st.unicode_len();
    let mut i: usize = 0;
    while i < n
        invariant
            i <= n,
            n == name@.len(),
            st@ == name@,
            forall|j: int| 0 <= j < i ==> name@[j] != ':',
        decreases n - i,
    {
        if st.get_char(i) == ':' {
            return true;
        }
        i = i + 1;
    }
    false
}

/// Structural copy of the tokens in `[a, b)`.
fn dup_range(toks: &Vec<Token>, a: usize, b: usize) -> (r: Vec<Token>)
    requires
        a <= b <= toks@.len(),
    ensures
        crate::tokens::deep_seq(r@) == deep(toks@).subrange(a as int, b as int),
{
    let mut out: Vec<Token> = Vec::new();
    let mut i: usize = a;
    while i < b
        invariant
            a <= i <= b <= toks@.len(),
            out@.len() == i - a,
            forall|j: int|
                0 <= j < out@.len() ==> crate::tokens::tok_view(out@[j])
                    == #[trigger] crate::tokens::tok_view(toks@[a + j]),
        decreases b - i,
    {
        let t = toks[i].dup();
        out.push(t);
        i = i + 1;
    }
    proof {
        crate::tokens::lemma_deep_seq(out@);
        let sub = deep(toks@).subrange(a as int, b as int);
        assert forall|j: int| 0 <= j < out@.len() implies crate::tokens::deep_seq(out@)[j]
            == sub[j] by {
            assert(sub[j] == deep(toks@)[a as int + j]);
            assert(crate::tokens::tok_view(out@[j]) == crate::tokens::tok_view(
                toks@[a as int + j],
            ));
        }
        assert(crate::tokens::deep_seq(out@) =~= sub);
    }
    out
}

/// Attribute scan; see [`spec_scan_attrs`].
pub fn scan_attrs(toks: &Vec<Token>, i: usize) -> (r: (Vec<Attr>, usize, Vec<Diagnostic>))
    requires
        i <= toks@.len(),
    ensures
        ({
            let s = spec_scan_attrs(deep(toks@), i as int);
            &&& attrs_view(r.0@) == s.0
            &&& r.1 as int == s.1
            &&& diags_view(r.2@) == s.2
            &&& i <= r.1 <= toks@.len()
        }),
    decreases toks@.len() - i,
{
    proof {
        lemma_scan_attrs_bounds(deep(toks@), i as int);
    }
    let n = toks.len();
    if i >= n {
        (Vec::new(), i, Vec::new())
    } else {
        match &toks[i] {
            Token::Ident { text, pos } => {
                let name = text.clone();
                let npos: usize = *pos;
                if punct_at(toks, i + 1, '=') {
                    let has_lit = i + 2 < n && (matches!(&toks[i + 2], Token::Lit { .. }));
                    let has_group = i + 2 < n && (match &toks[i + 2] {
                        Token::Group { delim, .. } => matches!(
                            delim,
                            crate::tokens::Delim::Brace,
                        ),
                        _ => false,
                    });
                    let has_expr = i + 2 < n && (matches!(&toks[i + 2], Token::Ident { .. }));
                    if has_lit || has_group {
                        let value = match &toks[i + 2] {
                            Token::Lit { text: t, .. } => AttrValue::Str { text: t.clone() },
                            Token::Group { tokens: g, .. } => {
                                let g2 = crate::tokens::dup_tokens(g);
                                proof {
                                    crate::tokens::lemma_deep(g2@);
                                    crate::tokens::lemma_deep(g@);
                                }
                                AttrValue::Expr { tokens: g2 }
                            },
                            _ => AttrValue::True,
                        };
                        let a = Attr { name, value, pos: npos };
                        proof {
                            let s = spec_scan_attrs(deep(toks@), i as int);
                            assert(attr_view(a) == s.0[0]);
                        }
                        let (rest, j, ds) = scan_attrs(toks, i + 3);
                        let mut out = vec![a];
                        let mut restv = rest;
                        out.append(&mut restv);
                        proof {
                            let s = spec_scan_attrs(deep(toks@), i as int);
                            assert(attrs_view(out@) =~= s.0);
                        }
                        (out, j, ds)
                    } else if has_expr {
                        let e = scan_expr_rest(toks, i + 3);
                        proof {
                            assert(clamp_after(
                                spec_scan_expr_rest(deep(toks@), i as int + 3),
                                i as int + 2,
                                toks@.len() as int,
                            ) == e as int);
                        }
                        let v = dup_range(toks, i + 2, e);
                        let a = Attr {
                            name,
                            value: AttrValue::Expr { tokens: v },
                            pos: npos,
                        };
                        proof {
                            let s = spec_scan_attrs(deep(toks@), i as int);
                            assert(attr_view(a) =~~= s.0[0]);
                        }
                        let (rest, j, ds) = scan_attrs(toks, e);
                        let mut out = vec![a];
                        let mut restv = rest;
                        out.append(&mut restv);
                        proof {
                            let s = spec_scan_attrs(deep(toks@), i as int);
                            assert(attrs_view(out@) =~= s.0);
                        }
                        (out, j, ds)
                    } else {
                        let (rest, j, ds) = scan_attrs(toks, i + 2);
                        let p2 = pos_of(toks, i + 2);
                        let mut out_ds = diag1(p2, "expected attribute value");
                        push_diags(&mut out_ds, ds);
                        (rest, j, out_ds)
                    }
                } else {
                    let (rest, j, ds) = scan_attrs(toks, i + 1);
                    let mut out = vec![Attr { name, value: AttrValue::True, pos: npos }];
                    let mut restv = rest;
                    out.append(&mut restv);
                    proof {
                        let s = spec_scan_attrs(deep(toks@), i as int);
                        assert(attrs_view(out@) =~= s.0);
                    }
                    (out, j, ds)
                }
            },
            _ => (Vec::new(), i, Vec::new()),
        }
    }
}

/// Attribute deduplication; see [`spec_dedup_attrs`].
pub fn dedup_attrs(attrs: &Vec<Attr>, k: usize) -> (r: (Vec<Attr>, Vec<Diagnostic>))
    requires
        k <= attrs@.len(),
    ensures
        ({
            let s = spec_dedup_attrs(attrs_view(attrs@), k as int);
            &&& attrs_view(r.0@) == s.0
            &&& diags_view(r.1@) == s.1
        }),
    decreases attrs@.len() - k,
{
    if k >= attrs.len() {
        (Vec::new(), Vec::new())
    } else {
        let (kept, ds) = dedup_attrs(attrs, k + 1);
        let mut dup = false;
        let mut j: usize = 0;
        while j < k
            invariant
                j <= k < attrs@.len(),
                dup == exists|l: int|
                    #![trigger attrs_view(attrs@)[l]]
                    0 <= l < j && attrs_view(attrs@)[l].name == attrs_view(attrs@)[k as int].name,
            decreases k - j,
        {
            if attrs[j].name == attrs[k].name {
                dup = true;
                proof {
                    assert(attrs_view(attrs@)[j as int].name == attrs_view(attrs@)[k as int].name);
                }
            }
            j = j + 1;
        }
        if dup {
            let mut out_ds = diag1(attrs[k].pos, "duplicate attribute");
            push_diags(&mut out_ds, ds);
            (kept, out_ds)
        } else {
            let mut out = vec![attrs[k].dup()];
            let mut keptv = kept;
            out.append(&mut keptv);
            proof {
                let s = spec_dedup_attrs(attrs_view(attrs@), k as int);
                assert(attrs_view(out@) =~= s.0);
            }
            (out, ds)
        }
    }
}

/// Listener split; see [`spec_split_listeners`].
pub fn split_listeners(attrs: &Vec<Attr>, k: usize) -> (r: (Vec<Attr>, Vec<Attr>))
    requires
        k <= attrs@.len(),
    ensures
        ({
            let s = spec_split_listeners(attrs_view(attrs@), k as int);
            &&& attrs_view(r.0@) == s.0
            &&& attrs_view(r.1@) == s.1
        }),
    decreases attrs@.len() - k,
{
    if k >= attrs.len() {
        (Vec::new(), Vec::new())
    } else {
        let (plain, listeners) = split_listeners(attrs, k + 1);
        let a = attrs[k].dup();
        if is_listener(&a.name) {
            let mut out = vec![a];
            let mut lv = listeners;
            out.append(&mut lv);
            proof {
                let s = spec_split_listeners(attrs_view(attrs@), k as int);
                assert(attrs_view(out@) =~= s.1);
            }
            (plain, out)
        } else {
            let mut out = vec![a];
            let mut pv = plain;
            out.append(&mut pv);
            proof {
                let s = spec_split_listeners(attrs_view(attrs@), k as int);
                assert(attrs_view(out@) =~= s.0);
            }
            (out, listeners)
        }
    }
}

pub open spec fn opt_name_view(name: Option<&String>) -> Option<Seq<char>> {
    match name {
        Some(s) => Some(s@),
        None => None,
    }
}

/// Close-tag consumption; see [`spec_close`].
pub fn close_tag(toks: &Vec<Token>, k: usize, name: Option<&String>, open_pos: usize) -> (r: (
    usize,
    Vec<Diagnostic>,
))
    requires
        k <= toks@.len(),
    ensures
        ({
            let s = spec_close(deep(toks@), k as int, opt_name_view(name), open_pos as int);
            &&& r.0 as int == s.0
            &&& diags_view(r.1@) == s.1
            &&& k <= r.0 <= toks@.len()
        }),
{
    proof {
        lemma_close_bounds(deep(toks@), k as int, opt_name_view(name), open_pos as int);
    }
    let n = toks.len();
    if punct_at(toks, k, '<') && punct_at(toks, k + 1, '/') {
        if punct_at(toks, k + 2, '>') {
            match name {
                None => (k + 3, Vec::new()),
                Some(_) => {
                    let p = pos_of(toks, k + 2);
                    (k + 3, diag1(p, "mismatched closing tag"))
                },
            }
        } else {
            let has_ident = k + 2 < n && (matches!(&toks[k + 2], Token::Ident { .. }));
            if has_ident {
                let (m, e) = scan_path(toks, k + 2);
                proof {
                    lemma_scan_path_bounds(deep(toks@), k as int + 2);
                    assert(clamp_after(
                        spec_scan_path(deep(toks@), k as int + 2).1,
                        k as int + 2,
                        toks@.len() as int,
                    ) == e as int);
                }
                if punct_at(toks, e, '>') {
                    let same = match name {
                        Some(nm) => m == *nm,
                        None => false,
                    };
                    if same {
                        (e + 1, Vec::new())
                    } else {
                        let p = pos_of(toks, k + 2);
                        (e + 1, diag1(p, "mismatched closing tag"))
                    }
                } else {
                    let p = pos_of(toks, e);
                    (e, diag1(p, "malformed closing tag"))
                }
            } else {
                let p = pos_of(toks, k + 2);
                (k + 2, diag1(p, "malformed closing tag"))
            }
        }
    } else {
        (k, diag1(open_pos, "unclosed tag"))
    }
}

pub open spec fn opt_node_view(o: Option<Node>) -> Option<NodeV> {
    match o {
        Some(n) => Some(n@),
        None => None,
    }
}

/// Node construction for an open tag; see [`spec_make_tag_node`].
pub fn make_tag_node(name: String, attrs: Vec<Attr>, children: Vec<Node>, pos: usize) -> (r: (
    Node,
    Vec<Diagnostic>,
))
    ensures
        ({
            let s = spec_make_tag_node(name@, attrs_view(attrs@), nodes_view(children@), pos as int);
            &&& r.0@ == s.0
            &&& diags_view(r.1@) == s.1
        }),
{
    proof {
        lemma_nodes_view(children@);
    }
    if crate::non_capitalized_ascii(name.as_str()) && !has_path_sep(&name) {
        let (plain, listeners) = split_listeners(&attrs, 0);
        (
            Node::Element { tag: name, attrs: plain, listeners, children, pos },
            Vec::new(),
        )
    } else {
        if children.len() == 0 {
            (Node::Component { path: name, props: attrs, pos }, Vec::new())
        } else {
            let ds = diag1(pos, "component cannot have children");
            (Node::Component { path: name, props: attrs, pos }, ds)
        }
    }
}

/// Parses one node; see [`spec_parse_node`].
pub fn parse_node(toks: &Vec<Token>, i: usize) -> (r: (Option<Node>, usize, Vec<Diagnostic>))
    requires
        i < toks@.len(),
    ensures
        ({
            let s = spec_parse_node(deep(toks@), i as int);
            &&& opt_node_view(r.0) == s.0
            &&& r.1 as int == s.1
            &&& diags_view(r.2@) == s.2
            &&& i < r.1 <= toks@.len()
        }),
    decreases toks@.len() - i, 0int,
{
    proof {
        lemma_parse_node_bounds(deep(toks@), i as int);
    }
    let n = toks.len();
    match &toks[i] {
        Token::Lit { text, pos } => (
            Some(Node::Text { text: text.clone(), pos: *pos }),
            i + 1,
            Vec::new(),
        ),
        Token::Group { delim, tokens, pos } => {
            if matches!(delim, crate::tokens::Delim::Brace) {
                let g2 = crate::tokens::dup_tokens(tokens);
                proof {
                    crate::tokens::lemma_deep(g2@);
                    crate::tokens::lemma_deep(tokens@);
                }
                (Some(Node::Block { tokens: g2, pos: *pos }), i + 1, Vec::new())
            } else {
                (None, i + 1, diag1(*pos, "unexpected token"))
            }
        },
        Token::Ident { pos, .. } => (None, i + 1, diag1(*pos, "unexpected token")),
        Token::Punct { ch, pos } => {
            let p: usize = *pos;
            if *ch == '<' {
                if punct_at(toks, i + 1, '>') {
                    let (children, k, mut ds) = parse_nodes(toks, i + 2);
                    proof {
                        assert(clamp_after(k as int, i as int + 1, toks@.len() as int) == k as int);
                    }
                    let (end, ds2) = close_tag(toks, k, None, p);
                    push_diags(&mut ds, ds2);
                    (Some(Node::Fragment { children, pos: p }), end, ds)
                } else {
                    let is_id = i + 1 < n && (matches!(&toks[i + 1], Token::Ident { .. }));
                    if is_id {
                        let (name, ap) = scan_path(toks, i + 1);
                        proof {
                            lemma_scan_path_bounds(deep(toks@), i as int + 1);
                            assert(clamp_after(
                                spec_scan_path(deep(toks@), i as int + 1).1,
                                i as int + 1,
                                toks@.len() as int,
                            ) == ap as int);
                        }
                        let (attrs_raw, j, mut ds) = scan_attrs(toks, ap);
                        let (attrs, ds_dup) = dedup_attrs(&attrs_raw, 0);
                        push_diags(&mut ds, ds_dup);
                        proof {
                            assert(clamp_after(
                                spec_scan_attrs(deep(toks@), ap as int).1,
                                ap as int - 1,
                                toks@.len() as int,
                            ) == j as int);
                        }
                        if punct_at(toks, j, '/') && punct_at(toks, j + 1, '>') {
                            let (node, ds_mk) = make_tag_node(name, attrs, Vec::new(), p);
                            push_diags(&mut ds, ds_mk);
                            (Some(node), j + 2, ds)
                        } else if punct_at(toks, j, '>') {
                            let (children, k, ds_body) = parse_nodes(toks, j + 1);
                            push_diags(&mut ds, ds_body);
                            proof {
                                assert(clamp_after(k as int, j as int, toks@.len() as int)
                                    == k as int);
                            }
                            let (end, ds_close) = close_tag(toks, k, Some(&name), p);
                            push_diags(&mut ds, ds_close);
                            let (node, ds_mk) = make_tag_node(name, attrs, children, p);
                            push_diags(&mut ds, ds_mk);
                            (Some(node), end, ds)
                        } else {
                            let pj = pos_of(toks, j);
                            push_diags(&mut ds, diag1(pj, "malformed tag"));
                            let (node, ds_mk) = make_tag_node(name, attrs, Vec::new(), p);
                            push_diags(&mut ds, ds_mk);
                            let end: usize = if j < n {
                                j + 1
                            } else {
                                j
                            };
                            (Some(node), end, ds)
                        }
                    } else if punct_at(toks, i + 1, '/') {
                        let empty_name = String::new();
                        let (end, _skip_diags) = close_tag(toks, i, Some(&empty_name), p);
                        (None, end, diag1(p, "unexpected closing tag"))
                    } else {
                        (None, i + 1, diag1(p, "expected tag name"))
                    }
                }
            } else {
                (None, i + 1, diag1(p, "unexpected token"))
            }
        },
    }
}

/// Parses sibling nodes; see [`spec_parse_nodes`].
pub fn parse_nodes(toks: &Vec<Token>, i: usize) -> (r: (Vec<Node>, usize, Vec<Diagnostic>))
    requires
        i <= toks@.len(),
    ensures
        ({
            let s = spec_parse_nodes(deep(toks@), i as int);
            &&& nodes_view(r.0@) == s.0
            &&& r.1 as int == s.1
            &&& diags_view(r.2@) == s.2
            &&& i <= r.1 <= toks@.len()
        }),
    decreases toks@.len() - i, 1int,
{
    proof {
        lemma_parse_nodes_bounds(deep(toks@), i as int);
    }
    let n = toks.len();
    if i >= n {
        (Vec::new(), i, Vec::new())
    } else if punct_at(toks, i, '<') && punct_at(toks, i + 1, '/') {
        (Vec::new(), i, Vec::new())
    } else {
        let (one, j, mut ds) = parse_node(toks, i);
        proof {
            assert(clamp_after(
                spec_parse_node(deep(toks@), i as int).1,
                i as int,
                toks@.len() as int,
            ) == j as int);
        }
        let (rest, end, ds2) = parse_nodes(toks, j);
        push_diags(&mut ds, ds2);
        let mut out: Vec<Node> = Vec::new();
        match one {
            Some(node) => {
                out.push(node);
            },
            None => {},
        }
        let mut restv = rest;
        let ghost rest0 = restv@;
        out.append(&mut restv);
        proof {
            let s = spec_parse_nodes(deep(toks@), i as int);
            lemma_nodes_view(out@);
            lemma_nodes_view(rest0);
            assert(nodes_view(out@) =~= s.0);
        }
        (out, end, ds)
    }
}

/// Parses a whole region from `i` on; see [`spec_parse_root`].
pub fn parse_root_from(toks: &Vec<Token>, i: usize) -> (r: (Vec<Node>, Vec<Diagnostic>))
    requires
        i <= toks@.len(),
    ensures
        ({
            let s = spec_parse_root(deep(toks@), i as int);
            &&& nodes_view(r.0@) == s.0
            &&& diags_view(r.1@) == s.1
        }),
    decreases toks@.len() - i, 2int,
{
    let n = toks.len();
    let (mut nodes, k, mut ds) = parse_nodes(toks, i);
    proof {
        lemma_parse_nodes_bounds(deep(toks@), i as int);
        assert(clamp_after(
            spec_parse_nodes(deep(toks@), i as int).1,
            i as int - 1,
            toks@.len() as int,
        ) == k as int);
    }
    if k >= n {
        (nodes, ds)
    } else {
        let pk = pos_of(toks, k);
        let empty_name = String::new();
        let (k2, _skip_diags) = close_tag(toks, k, Some(&empty_name), pk);
        proof {
            assert(at_close(deep(toks@), k as int));
            assert(k2 > k);
        }
        push_diags(&mut ds, diag1(pk, "unexpected closing tag"));
        let (rest_nodes, rest_ds) = parse_root_from(toks, k2);
        push_diags(&mut ds, rest_ds);
        let mut restv = rest_nodes;
        let ghost rest0 = restv@;
        let ghost nodes0 = nodes@;
        nodes.append(&mut restv);
        proof {
            let s = spec_parse_root(deep(toks@), i as int);
            lemma_nodes_view(nodes@);
            lemma_nodes_view(rest0);
            lemma_nodes_view(nodes0);
            assert(nodes_view(nodes@) =~= s.0);
            assert(diags_view(ds@) =~= s.1);
        }
        (nodes, ds)
    }
}

/// Parses one whole token region into its sibling nodes and the diagnostics
/// recorded along the way. Whatever was malformed, every node returned
/// satisfies the structural invariant.
pub fn parse_root(toks: &Vec<Token>) -> (r: (Vec<Node>, Vec<Diagnostic>))
    ensures
        ({
            let s = spec_parse_root(deep(toks@), 0);
            &&& nodes_view(r.0@) == s.0
            &&& diags_view(r.1@) == s.1
        }),
        nodes_wf(nodes_view(r.0@), 0),
{
    proof {
        lemma_parse_root_wf(deep(toks@), 0);
    }
    parse_root_from(toks, 0)
}

} // verus!
