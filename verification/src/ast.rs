//! The markup tree.
//!
//! A parsed construct is one of a closed set of node kinds: a plain element,
//! a component invocation, a fragment (a bare child list with no wrapping
//! tag), an embedded host-language block, or literal text.

use vstd::prelude::*;
use crate::tokens::{deep_seq, tok_view, Token, TokV};

verus! {

broadcast use
    vstd::std_specs::vec::axiom_vec_index_decreases,
    vstd::std_specs::vec::axiom_vec_decreases_to_view,
    vstd::seq::axiom_seq_index_decreases,
    vstd::seq::axiom_seq_subrange_decreases;

/// The value side of one attribute or property assignment.
#[derive(Debug, PartialEq, Eq)]
pub enum AttrValue {
    /// `name="literal"`.
    Str { text: String },
    /// `name={ expression }` or an unbraced `name=expression` run: the
    /// expression's tokens, carried through opaquely and verbatim.
    Expr { tokens: Vec<Token> },
    /// Bare `name`: boolean-true shorthand.
    True,
}

/// One `name = value` pair, with the source position of the name.
#[derive(Debug, PartialEq, Eq)]
pub struct Attr {
    pub name: String,
    pub value: AttrValue,
    pub pos: usize,
}

/// One parsed markup construct.
#[derive(Debug, PartialEq, Eq)]
pub enum Node {
    /// A plain tag: a single identifier starting with a lowercase ASCII
    /// letter.
    Element {
        tag: String,
        attrs: Vec<Attr>,
        listeners: Vec<Attr>,
        children: Vec<Node>,
        pos: usize,
    },
    /// A component invocation: any other name, `::` type paths included;
    /// properties, no children.
    Component { path: String, props: Vec<Attr>, pos: usize },
    /// A bare ordered child list with no wrapping tag.
    Fragment { children: Vec<Node>, pos: usize },
    /// An embedded host expression producing zero or more children.
    Block { tokens: Vec<Token>, pos: usize },
    /// Literal text.
    Text { text: String, pos: usize },
}

#[verifier::ext_equal]
pub enum AttrValueV {
    Str { text: Seq<char> },
    Expr { tokens: Seq<TokV> },
    True,
}

#[verifier::ext_equal]
pub struct AttrV {
    pub name: Seq<char>,
    pub value: AttrValueV,
    pub pos: int,
}

#[verifier::ext_equal]
pub enum NodeV {
    Element {
        tag: Seq<char>,
        attrs: Seq<AttrV>,
        listeners: Seq<AttrV>,
        children: Seq<NodeV>,
        pos: int,
    },
    Component { path: Seq<char>, props: Seq<AttrV>, pos: int },
    Fragment { children: Seq<NodeV>, pos: int },
    Block { tokens: Seq<TokV>, pos: int },
    Text { text: Seq<char>, pos: int },
}

pub open spec fn attr_value_view(v: AttrValue) -> AttrValueV {
    match v {
        AttrValue::Str { text } => AttrValueV::Str { text: text@ },
        AttrValue::Expr { tokens } => AttrValueV::Expr { tokens: deep_seq(tokens@) },
        AttrValue::True => AttrValueV::True,
    }
}

pub open spec fn attr_view(a: Attr) -> AttrV {
    AttrV { name: a.name@, value: attr_value_view(a.value), pos: a.pos as int }
}

/// The ghost image of an attribute list.
pub open spec fn attrs_view(s: Seq<Attr>) -> Seq<AttrV> {
    Seq::new(s.len(), |i: int| attr_view(s[i]))
}

/// The ghost image of one node.
pub open spec fn node_view(n: Node) -> NodeV
    decreases n,
{
    match n {
        Node::Element { tag, attrs, listeners, children, pos } => NodeV::Element {
            tag: tag@,
            attrs: attrs_view(attrs@),
            listeners: attrs_view(listeners@),
            children: nodes_view(children@),
            pos: pos as int,
        },
        Node::Component { path, props, pos } => NodeV::Component {
            path: path@,
            props: attrs_view(props@),
            pos: pos as int,
        },
        Node::Fragment { children, pos } => NodeV::Fragment {
            children: nodes_view(children@),
            pos: pos as int,
        },
        Node::Block { tokens, pos } => NodeV::Block {
            tokens: deep_seq(tokens@),
            pos: pos as int,
        },
        Node::Text { text, pos } => NodeV::Text { text: text@, pos: pos as int },
    }
}

/// The ghost image of a node sequence, defined head-first.
pub open spec fn nodes_view(ns: Seq<Node>) -> Seq<NodeV>
    decreases ns,
{
    if ns.len() == 0 {
        Seq::empty()
    } else {
        seq![node_view(ns[0])] + nodes_view(ns.drop_first())
    }
}

/// `nodes_view` maps `node_view` over the sequence, element by element.
pub broadcast proof fn lemma_nodes_view(ns: Seq<Node>)
    ensures
        (#[trigger] nodes_view(ns)).len() == ns.len(),
        forall|i: int| 0 <= i < ns.len() ==> nodes_view(ns)[i] == node_view(ns[i]),
    decreases ns.len(),
{
    if ns.len() > 0 {
        lemma_nodes_view(ns.drop_first());
    }
}

impl View for Node {
    type V = NodeV;

    open spec fn view(&self) -> NodeV {
        node_view(*self)
    }
}

impl View for Attr {
    type V = AttrV;

    open spec fn view(&self) -> AttrV {
        attr_view(*self)
    }
}

impl AttrValue {
    /// Structural copy.
    pub fn dup(&self) -> (r: AttrValue)
        ensures
            attr_value_view(r) == attr_value_view(*self),
    {
        match self {
            AttrValue::Str { text } => AttrValue::Str { text: text.clone() },
            AttrValue::Expr { tokens } => {
                let r = AttrValue::Expr { tokens: crate::tokens::dup_tokens(tokens) };
                proof {
                    crate::tokens::lemma_deep(r->Expr_tokens@);
                    crate::tokens::lemma_deep(tokens@);
                }
                r
            },
            AttrValue::True => AttrValue::True,
        }
    }
}

impl Attr {
    /// Structural copy.
    pub fn dup(&self) -> (r: Attr)
        ensures
            r@ == self@,
    {
        Attr { name: self.name.clone(), value: self.value.dup(), pos: self.pos }
    }
}

} // verus!
