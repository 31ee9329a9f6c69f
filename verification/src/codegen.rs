//! The code generator.
//!
//! Lowers a markup tree into the tokens of an expression that, evaluated at
//! runtime, builds the corresponding node graph. Every node lowers to exactly
//! two tokens — a constructor name and one group holding its payload — so the
//! output is syntactically deterministic and children stay in source order:
//!
//! - element:   `vtag ( "tag" { attrs } { listeners } { children } )`
//! - component: `vcomp ( Path { props } )`
//! - fragment:  `vlist ( children )` — no wrapping element identity
//! - block:     `vnode_iter ( tokens )` — the minimal conversion that turns
//!   the embedded expression into zero or more child nodes
//! - text:      `vtext ( "text" )`
//!
//! An attribute or property lowers to the four tokens `name = value ,`.

use vstd::prelude::*;
use crate::ast::{
    attrs_view, lemma_nodes_view, nodes_view, Attr, AttrV, AttrValue, AttrValueV, Node, NodeV,
};
use crate::tokens::{deep, Token, TokV};

verus! {

broadcast use
    vstd::std_specs::vec::axiom_vec_index_decreases,
    vstd::std_specs::vec::axiom_vec_decreases_to_view,
    vstd::seq::axiom_seq_index_decreases,
    vstd::seq::axiom_seq_subrange_decreases,
    crate::tokens::lemma_deep,
    crate::tokens::lemma_deep_seq;

/// The four tokens of one lowered attribute.
pub open spec fn gen_attr(a: AttrV) -> Seq<TokV> {
    seq![
        TokV::Ident { text: a.name, pos: a.pos },
        TokV::Punct { ch: '=', pos: a.pos },
        match a.value {
            AttrValueV::Str { text } => TokV::Lit { text, pos: a.pos },
            AttrValueV::Expr { tokens } => TokV::Group {
                delim: crate::tokens::Delim::Brace,
                tokens,
                pos: a.pos,
            },
            AttrValueV::True => TokV::Ident { text: "true"@, pos: a.pos },
        },
        TokV::Punct { ch: ',', pos: a.pos },
    ]
}

/// The attributes from `k` on, lowered in source order.
pub open spec fn gen_attrs(attrs: Seq<AttrV>, k: int) -> Seq<TokV>
    decreases attrs.len() - k,
{
    if !(0 <= k < attrs.len()) {
        Seq::empty()
    } else {
        gen_attr(attrs[k]) + gen_attrs(attrs, k + 1)
    }
}

/// The two tokens one node lowers to.
pub open spec fn gen_node(n: NodeV) -> Seq<TokV>
    decreases n, 0int, 0int,
{
    match n {
        NodeV::Element { tag, attrs, listeners, children, pos } => seq![
            TokV::Ident { text: "vtag"@, pos },
            TokV::Group {
                delim: crate::tokens::Delim::Paren,
                tokens: seq![
                    TokV::Lit { text: tag, pos },
                    TokV::Group {
                        delim: crate::tokens::Delim::Brace,
                        tokens: gen_attrs(attrs, 0),
                        pos,
                    },
                    TokV::Group {
                        delim: crate::tokens::Delim::Brace,
                        tokens: gen_attrs(listeners, 0),
                        pos,
                    },
                    TokV::Group {
                        delim: crate::tokens::Delim::Brace,
                        tokens: gen_nodes(children, 0),
                        pos,
                    },
                ],
                pos,
            },
        ],
        NodeV::Component { path, props, pos } => seq![
            TokV::Ident { text: "vcomp"@, pos },
            TokV::Group {
                delim: crate::tokens::Delim::Paren,
                tokens: seq![
                    TokV::Ident { text: path, pos },
                    TokV::Group {
                        delim: crate::tokens::Delim::Brace,
                        tokens: gen_attrs(props, 0),
                        pos,
                    },
                ],
                pos,
            },
        ],
        NodeV::Fragment { children, pos } => seq![
            TokV::Ident { text: "vlist"@, pos },
            TokV::Group {
                delim: crate::tokens::Delim::Paren,
                tokens: gen_nodes(children, 0),
                pos,
            },
        ],
        NodeV::Block { tokens, pos } => seq![
            TokV::Ident { text: "vnode_iter"@, pos },
            TokV::Group { delim: crate::tokens::Delim::Paren, tokens, pos },
        ],
        NodeV::Text { text, pos } => seq![
            TokV::Ident { text: "vtext"@, pos },
            TokV::Group {
                delim: crate::tokens::Delim::Paren,
                tokens: seq![TokV::Lit { text, pos }],
                pos,
            },
        ],
    }
}

/// The sibling nodes from `k` on, lowered in source order with nothing in
/// between.
pub open spec fn gen_nodes(ns: Seq<NodeV>, k: int) -> Seq<TokV>
    decreases ns, ns.len() - k, 1int,
{
    if !(0 <= k < ns.len()) {
        Seq::empty()
    } else {
        gen_node(ns[k]) + gen_nodes(ns, k + 1)
    }
}

/// Lowers one attribute.
pub fn generate_attr(a: &Attr) -> (r: Vec<Token>)
    ensures
        deep(r@) == gen_attr(a@),
{
    let p: usize = a.pos;
    let value = match &a.value {
        AttrValue::Str { text } => Token::Lit { text: text.clone(), pos: p },
        AttrValue::Expr { tokens } => {
            let g2 = crate::tokens::dup_tokens(tokens);
            proof {
                crate::tokens::lemma_deep(g2@);
                crate::tokens::lemma_deep(tokens@);
            }
            Token::Group { delim: crate::tokens::Delim::Brace, tokens: g2, pos: p }
        },
        AttrValue::True => Token::Ident { text: "true".to_owned(), pos: p },
    };
    let r = vec![
        Token::Ident { text: a.name.clone(), pos: p },
        Token::Punct { ch: '=', pos: p },
        value,
        Token::Punct { ch: ',', pos: p },
    ];
    proof {
        assert(deep(r@) =~= gen_attr(a@));
    }
    r
}

/// Lowers the attributes from `k` on.
pub fn generate_attrs(attrs: &Vec<Attr>, k: usize) -> (r: Vec<Token>)
    requires
        k <= attrs@.len(),
    ensures
        deep(r@) == gen_attrs(attrs_view(attrs@), k as int),
    decreases attrs@.len() - k,
{
    if k >= attrs.len() {
        proof {
            assert(deep(Seq::<Token>::empty()) =~= Seq::<TokV>::empty());
        }
        Vec::new()
    } else {
        let mut out = generate_attr(&attrs[k]);
        let mut rest = generate_attrs(attrs, k + 1);
        let ghost out0 = out@;
        let ghost rest0 = rest@;
        out.append(&mut rest);
        proof {
            assert(deep(out@) =~= deep(out0) + deep(rest0));
            assert(deep(out@) =~= gen_attrs(attrs_view(attrs@), k as int));
        }
        out
    }
}

/// Lowers one node to its two tokens.
pub fn generate_node(n: &Node) -> (r: Vec<Token>)
    ensures
        deep(r@) == gen_node(n@),
    decreases *n, 0int, 0int,
{
    match n {
        Node::Element { tag, attrs, listeners, children, pos } => {
            let p: usize = *pos;
            let a = generate_attrs(attrs, 0);
            let l = generate_attrs(listeners, 0);
            let c = generate_nodes(children, 0);
            let r = vec![
                Token::Ident { text: "vtag".to_owned(), pos: p },
                Token::Group {
                    delim: crate::tokens::Delim::Paren,
                    tokens: vec![
                        Token::Lit { text: tag.clone(), pos: p },
                        Token::Group {
                            delim: crate::tokens::Delim::Brace,
                            tokens: a,
                            pos: p,
                        },
                        Token::Group {
                            delim: crate::tokens::Delim::Brace,
                            tokens: l,
                            pos: p,
                        },
                        Token::Group {
                            delim: crate::tokens::Delim::Brace,
                            tokens: c,
                            pos: p,
                        },
                    ],
                    pos: p,
                },
            ];
            proof {
                let gn = gen_node(n@);
                assert(deep(r@).len() == 2 && gn.len() == 2);
                assert(deep(r@)[0] == gn[0]);
                let inner = r@[1]->Group_tokens;
                assert(deep(r@)[1] == TokV::Group {
                    delim: crate::tokens::Delim::Paren,
                    tokens: crate::tokens::deep_seq(inner@),
                    pos: p as int,
                });
                assert(crate::tokens::deep_seq(inner@).len() == 4);
                assert(crate::tokens::deep_seq(inner@)[0] == gn[1]->Group_tokens[0]);
                assert(crate::tokens::deep_seq(inner@)[1] =~~= gn[1]->Group_tokens[1]);
                assert(crate::tokens::deep_seq(inner@)[2] =~~= gn[1]->Group_tokens[2]);
                assert(crate::tokens::deep_seq(inner@)[3] =~~= gn[1]->Group_tokens[3]);
                assert(crate::tokens::deep_seq(inner@) =~= gn[1]->Group_tokens);
                assert(deep(r@)[1] == gn[1]);
                assert(deep(r@) =~= gn);
            }
            r
        },
        Node::Component { path, props, pos } => {
            let p: usize = *pos;
            let pr = generate_attrs(props, 0);
            let r = vec![
                Token::Ident { text: "vcomp".to_owned(), pos: p },
                Token::Group {
                    delim: crate::tokens::Delim::Paren,
                    tokens: vec![
                        Token::Ident { text: path.clone(), pos: p },
                        Token::Group {
                            delim: crate::tokens::Delim::Brace,
                            tokens: pr,
                            pos: p,
                        },
                    ],
                    pos: p,
                },
            ];
            proof {
                let gn = gen_node(n@);
                let inner = r@[1]->Group_tokens;
                assert(crate::tokens::deep_seq(inner@)[0] == gn[1]->Group_tokens[0]);
                assert(crate::tokens::deep_seq(inner@)[1] =~~= gn[1]->Group_tokens[1]);
                assert(crate::tokens::deep_seq(inner@) =~= gn[1]->Group_tokens);
                assert(deep(r@)[1] == gn[1]);
                assert(deep(r@) =~= gn);
            }
            r
        },
        Node::Fragment { children, pos } => {
            let p: usize = *pos;
            let c = generate_nodes(children, 0);
            let r = vec![
                Token::Ident { text: "vlist".to_owned(), pos: p },
                Token::Group { delim: crate::tokens::Delim::Paren, tokens: c, pos: p },
            ];
            proof {
                assert(deep(r@) =~~= gen_node(n@));
            }
            r
        },
        Node::Block { tokens, pos } => {
            let p: usize = *pos;
            let g2 = crate::tokens::dup_tokens(tokens);
            proof {
                crate::tokens::lemma_deep(g2@);
                crate::tokens::lemma_deep(tokens@);
            }
            let r = vec![
                Token::Ident { text: "vnode_iter".to_owned(), pos: p },
                Token::Group { delim: crate::tokens::Delim::Paren, tokens: g2, pos: p },
            ];
            proof {
                assert(deep(r@) =~~= gen_node(n@));
            }
            r
        },
        Node::Text { text, pos } => {
            let p: usize = *pos;
            let r = vec![
                Token::Ident { text: "vtext".to_owned(), pos: p },
                Token::Group {
                    delim: crate::tokens::Delim::Paren,
                    tokens: vec![Token::Lit { text: text.clone(), pos: p }],
                    pos: p,
                },
            ];
            proof {
                let gn = gen_node(n@);
                let inner = r@[1]->Group_tokens;
                assert(crate::tokens::deep_seq(inner@)[0] == gn[1]->Group_tokens[0]);
                assert(crate::tokens::deep_seq(inner@) =~= gn[1]->Group_tokens);
                assert(deep(r@)[1] == gn[1]);
                assert(deep(r@) =~= gn);
            }
            r
        },
    }
}

/// Lowers the sibling nodes from `k` on.
pub fn generate_nodes(ns: &Vec<Node>, k: usize) -> (r: Vec<Token>)
    requires
        k <= ns@.len(),
    ensures
        deep(r@) == gen_nodes(nodes_view(ns@), k as int),
    decreases *ns, ns@.len() - k, 1int,
{
    proof {
        lemma_nodes_view(ns@);
    }
    if k >= ns.len() {
        proof {
            assert(deep(Seq::<Token>::empty()) =~= Seq::<TokV>::empty());
        }
        Vec::new()
    } else {
        let mut out = generate_node(&ns[k]);
        let mut rest = generate_nodes(ns, k + 1);
        let ghost out0 = out@;
        let ghost rest0 = rest@;
        out.append(&mut rest);
        proof {
            assert(deep(out@) =~= deep(out0) + deep(rest0));
            assert(deep(out@) =~= gen_nodes(nodes_view(ns@), k as int));
        }
        out
    }
}

/// The shape of a runtime node-graph value: what evaluating the generated
/// expression builds.
#[verifier::ext_equal]
pub enum VNodeV {
    Tag {
        name: Seq<char>,
        attrs: Seq<(Seq<char>, AttrValueV)>,
        listeners: Seq<(Seq<char>, AttrValueV)>,
        children: Seq<VNodeV>,
    },
    Comp { path: Seq<char>, props: Seq<(Seq<char>, AttrValueV)> },
    List { children: Seq<VNodeV> },
    Raw { tokens: Seq<TokV> },
    Text { text: Seq<char> },
}

/// The attribute pairs from `k` on, in source order.
pub open spec fn pairs_from(attrs: Seq<AttrV>, k: int) -> Seq<(Seq<char>, AttrValueV)>
    decreases attrs.len() - k,
{
    if !(0 <= k < attrs.len()) {
        Seq::empty()
    } else {
        seq![(attrs[k].name, attrs[k].value)] + pairs_from(attrs, k + 1)
    }
}

/// The node graph the tree describes: tag names, attribute order, child
/// order, all as in the source.
pub open spec fn vnode_of(n: NodeV) -> VNodeV
    decreases n, 0int, 0int,
{
    match n {
        NodeV::Element { tag, attrs, listeners, children, .. } => VNodeV::Tag {
            name: tag,
            attrs: pairs_from(attrs, 0),
            listeners: pairs_from(listeners, 0),
            children: vnodes_from(children, 0),
        },
        NodeV::Component { path, props, .. } => VNodeV::Comp {
            path,
            props: pairs_from(props, 0),
        },
        NodeV::Fragment { children, .. } => VNodeV::List { children: vnodes_from(children, 0) },
        NodeV::Block { tokens, .. } => VNodeV::Raw { tokens },
        NodeV::Text { text, .. } => VNodeV::Text { text },
    }
}

pub open spec fn vnodes_from(ns: Seq<NodeV>, k: int) -> Seq<VNodeV>
    decreases ns, ns.len() - k, 1int,
{
    if !(0 <= k < ns.len()) {
        Seq::empty()
    } else {
        seq![vnode_of(ns[k])] + vnodes_from(ns, k + 1)
    }
}

/// Evaluates a lowered attribute list: a run of `name = value ,` quads.
pub open spec fn eval_attrs(ts: Seq<TokV>) -> Option<Seq<(Seq<char>, AttrValueV)>>
    decreases ts.len(),
{
    if ts.len() == 0 {
        Some(Seq::empty())
    } else if ts.len() >= 4 && (ts[0] matches TokV::Ident { .. }) && crate::tokens::is_punct(
        ts[1],
        '=',
    ) && crate::tokens::is_punct(ts[3], ',') {
        let v = match ts[2] {
            TokV::Lit { text, .. } => Some(AttrValueV::Str { text }),
            TokV::Group { tokens, .. } => Some(AttrValueV::Expr { tokens }),
            TokV::Ident { text, .. } => if text == "true"@ {
                Some(AttrValueV::True)
            } else {
                None
            },
            _ => None,
        };
        match (v, eval_attrs(ts.subrange(4, ts.len() as int))) {
            (Some(val), Some(rest)) => Some(seq![(ts[0]->Ident_text, val)] + rest),
            _ => None,
        }
    } else {
        None
    }
}

/// Evaluates a lowered sibling list: a run of constructor-name / payload
/// pairs.
pub open spec fn eval_nodes(ts: Seq<TokV>) -> Option<Seq<VNodeV>>
    decreases ts, 0int,
{
    if ts.len() == 0 {
        Some(Seq::empty())
    } else if ts.len() >= 2 && (ts[0] matches TokV::Ident { .. }) && (ts[1]
        matches TokV::Group { .. }) {
        match (
            eval_one(ts[0]->Ident_text, ts[1]->Group_tokens),
            eval_nodes(ts.subrange(2, ts.len() as int)),
        ) {
            (Some(n), Some(rest)) => Some(seq![n] + rest),
            _ => None,
        }
    } else {
        None
    }
}

/// Evaluates one constructor call.
pub open spec fn eval_one(kind: Seq<char>, payload: Seq<TokV>) -> Option<VNodeV>
    decreases payload, 1int,
{
    if kind == "vtag"@ {
        if payload.len() == 4 && (payload[0] matches TokV::Lit { .. }) && (payload[1]
            matches TokV::Group { .. }) && (payload[2] matches TokV::Group { .. }) && (payload[3]
            matches TokV::Group { .. }) {
            match (
                eval_attrs(payload[1]->Group_tokens),
                eval_attrs(payload[2]->Group_tokens),
                eval_nodes(payload[3]->Group_tokens),
            ) {
                (Some(at), Some(ls), Some(cs)) => Some(
                    VNodeV::Tag {
                        name: payload[0]->Lit_text,
                        attrs: at,
                        listeners: ls,
                        children: cs,
                    },
                ),
                _ => None,
            }
        } else {
            None
        }
    } else if kind == "vcomp"@ {
        if payload.len() == 2 && (payload[0] matches TokV::Ident { .. }) && (payload[1]
            matches TokV::Group { .. }) {
            match eval_attrs(payload[1]->Group_tokens) {
                Some(ps) => Some(VNodeV::Comp { path: payload[0]->Ident_text, props: ps }),
                None => None,
            }
        } else {
            None
        }
    } else if kind == "vlist"@ {
        match eval_nodes(payload) {
            Some(cs) => Some(VNodeV::List { children: cs }),
            None => None,
        }
    } else if kind == "vnode_iter"@ {
        Some(VNodeV::Raw { tokens: payload })
    } else if kind == "vtext"@ {
        if payload.len() == 1 && (payload[0] matches TokV::Lit { .. }) {
            Some(VNodeV::Text { text: payload[0]->Lit_text })
        } else {
            None
        }
    } else {
        None
    }
}

/// Evaluating lowered attributes recovers exactly the source pairs, in
/// source order.
pub proof fn lemma_eval_gen_attrs(attrs: Seq<AttrV>, k: int)
    requires
        0 <= k <= attrs.len(),
    ensures
        eval_attrs(gen_attrs(attrs, k)) == Some(pairs_from(attrs, k)),
    decreases attrs.len() - k,
{
    if k < attrs.len() {
        lemma_eval_gen_attrs(attrs, k + 1);
        let ts = gen_attrs(attrs, k);
        assert(ts.subrange(4, ts.len() as int) =~= gen_attrs(attrs, k + 1));
    } else {
        assert(gen_attrs(attrs, k) =~= Seq::<TokV>::empty());
    }
}

/// Evaluating one lowered node recovers exactly its node-graph value.
pub proof fn lemma_eval_gen_node(n: NodeV)
    ensures
        gen_node(n).len() == 2,
        gen_node(n)[0] matches TokV::Ident { .. },
        gen_node(n)[1] matches TokV::Group { .. },
        eval_one(gen_node(n)[0]->Ident_text, gen_node(n)[1]->Group_tokens) == Some(vnode_of(n)),
    decreases n, 0int, 0int,
{
    reveal_strlit("vtag");
    reveal_strlit("vcomp");
    reveal_strlit("vlist");
    reveal_strlit("vnode_iter");
    reveal_strlit("vtext");
    let g = gen_node(n);
    match n {
        NodeV::Element { tag, attrs, listeners, children, pos } => {
            lemma_eval_gen_attrs(attrs, 0);
            lemma_eval_gen_attrs(listeners, 0);
            lemma_eval_gen_nodes(children, 0);
            assert(g[0]->Ident_text == "vtag"@);
            assert(eval_one(g[0]->Ident_text, g[1]->Group_tokens) == Some(vnode_of(n)));
        },
        NodeV::Component { path, props, pos } => {
            lemma_eval_gen_attrs(props, 0);
            assert(g[0]->Ident_text == "vcomp"@);
            assert(g[0]->Ident_text != "vtag"@);
            assert(eval_one(g[0]->Ident_text, g[1]->Group_tokens) == Some(vnode_of(n)));
        },
        NodeV::Fragment { children, pos } => {
            lemma_eval_gen_nodes(children, 0);
            assert(g[0]->Ident_text == "vlist"@);
            assert("vlist"@[1] == 'l' && "vcomp"@[1] == 'c' && "vlist"@.len() == 5 && "vtag"@.len()
                == 4);
            assert(g[0]->Ident_text != "vtag"@ && g[0]->Ident_text != "vcomp"@);
            assert(eval_one(g[0]->Ident_text, g[1]->Group_tokens) == Some(vnode_of(n)));
        },
        NodeV::Block { tokens, pos } => {
            assert(g[0]->Ident_text == "vnode_iter"@);
            assert(g[0]->Ident_text != "vtag"@ && g[0]->Ident_text != "vcomp"@ && g[0]->Ident_text
                != "vlist"@);
            assert(eval_one(g[0]->Ident_text, g[1]->Group_tokens) == Some(vnode_of(n)));
        },
        NodeV::Text { text, pos } => {
            assert(g[0]->Ident_text == "vtext"@);
            assert("vtext"@[1] == 't' && "vcomp"@[1] == 'c' && "vlist"@[1] == 'l');
            assert("vtext"@.len() == 5 && "vtag"@.len() == 4 && "vnode_iter"@.len() == 10);
            assert(g[0]->Ident_text != "vtag"@ && g[0]->Ident_text != "vcomp"@ && g[0]->Ident_text
                != "vlist"@ && g[0]->Ident_text != "vnode_iter"@);
            assert(eval_one(g[0]->Ident_text, g[1]->Group_tokens) == Some(vnode_of(n)));
        },
    }
}

/// Evaluating a lowered sibling list recovers exactly the source nodes'
/// graph values, in source order.
pub proof fn lemma_eval_gen_nodes(ns: Seq<NodeV>, k: int)
    requires
        0 <= k <= ns.len(),
    ensures
        eval_nodes(gen_nodes(ns, k)) == Some(vnodes_from(ns, k)),
    decreases ns, ns.len() - k, 1int,
{
    if k < ns.len() {
        lemma_eval_gen_node(ns[k]);
        lemma_eval_gen_nodes(ns, k + 1);
        let ts = gen_nodes(ns, k);
        assert(ts.subrange(2, ts.len() as int) =~= gen_nodes(ns, k + 1));
    } else {
        assert(gen_nodes(ns, k) =~= Seq::<TokV>::empty());
    }
}

} // verus!
