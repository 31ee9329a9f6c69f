//! The entry dispatcher.
//!
//! Five named transformation requests, each taking one token sequence and
//! returning one: generated code on success, or the compound diagnostic
//! rendered as a compile-time-error expression — failure is ordinary data
//! flow, never a raised exception. Zero recorded errors mean success; one or
//! more are merged into a single report keeping every message and span.

use vstd::prelude::*;
use crate::ast::{attrs_view, AttrV, AttrValueV, NodeV};
use crate::classes::{class_list_spec, ClassFragment, ClassFragV};
use crate::codegen::{gen_attr, gen_node, gen_nodes};
use crate::diag::{diags_view, DiagV, Diagnostic};
use crate::parser::{dg, spec_parse_root, spec_scan_attrs};
use crate::props::{
    fields_view, spec_assigned, spec_conflicts, spec_missing, FieldDef, FieldV, Marker, MarkerV,
};
use crate::tokens::{deep, Token, TokV};

verus! {

broadcast use
    crate::tokens::lemma_deep,
    crate::tokens::lemma_deep_seq;

/// A compound diagnostic rendered as tokens: `compile_error ( "msg" … )`,
/// one literal per recorded error, each carrying that error's span.
pub open spec fn spec_render_diags(ds: Seq<DiagV>) -> Seq<TokV> {
    seq![
        TokV::Ident { text: "compile_error"@, pos: 0 },
        TokV::Group {
            delim: crate::tokens::Delim::Paren,
            tokens: Seq::new(ds.len(), |i: int| TokV::Lit { text: ds[i].msg, pos: ds[i].pos }),
            pos: 0,
        },
    ]
}

/// Renders a non-empty diagnostic list; see [`spec_render_diags`].
pub fn render_diags(ds: &Vec<Diagnostic>) -> (r: Vec<Token>)
    ensures
        deep(r@) == spec_render_diags(diags_view(ds@)),
{
    let mut lits: Vec<Token> = Vec::new();
    let mut i: usize = 0;
    while i < ds.len()
        invariant
            i <= ds@.len(),
            lits@.len() == i,
            forall|j: int|
                0 <= j < i ==> crate::tokens::tok_view(lits@[j]) == (TokV::Lit {
                    text: ds@[j]@.msg,
                    pos: ds@[j]@.pos,
                }),
        decreases ds@.len() - i,
    {
        let d = &ds[i];
        lits.push(Token::Lit { text: d.msg.clone(), pos: d.pos });
        i = i + 1;
    }
    let r = vec![
        Token::Ident { text: "compile_error".to_owned(), pos: 0 },
        Token::Group { delim: crate::tokens::Delim::Paren, tokens: lits, pos: 0 },
    ];
    proof {
        let s = spec_render_diags(diags_view(ds@));
        let gt = deep(r@)[1]->Group_tokens;
        assert(gt == crate::tokens::deep_seq(lits@));
        assert(gt.len() == ds@.len());
        assert(s[1]->Group_tokens.len() == ds@.len());
        assert(forall|j: int|
            0 <= j < ds@.len() ==> gt[j] == #[trigger] crate::tokens::tok_view(lits@[j]));
        assert(forall|j: int| 0 <= j < ds@.len() ==> gt[j] == s[1]->Group_tokens[j]);
        assert(gt =~= s[1]->Group_tokens);
        assert(deep(r@)[1] == s[1]);
        assert(deep(r@) =~= s);
    }
    r
}

/// The parse-root-template request: one node, or a virtual fragment root
/// when the region holds zero or several siblings.
pub open spec fn spec_html(input: Seq<TokV>) -> Seq<TokV> {
    let parsed = spec_parse_root(input, 0);
    if parsed.1.len() == 0 {
        if parsed.0.len() == 1 {
            gen_node(parsed.0[0])
        } else {
            gen_node(NodeV::Fragment { children: parsed.0, pos: 0 })
        }
    } else {
        spec_render_diags(parsed.1)
    }
}

/// The parse-nested-fragment request: the siblings' code, in source order.
pub open spec fn spec_html_nested(input: Seq<TokV>) -> Seq<TokV> {
    let parsed = spec_parse_root(input, 0);
    if parsed.1.len() == 0 {
        gen_nodes(parsed.0, 0)
    } else {
        spec_render_diags(parsed.1)
    }
}

/// Compiles a root template; see [`spec_html`].
pub fn html(input: Vec<Token>) -> (r: Vec<Token>)
    ensures
        deep(r@) == spec_html(deep(input@)),
{
    let (mut nodes, errors) = crate::parser::parse_root(&input);
    match crate::diag::join_errors(errors) {
        Ok(()) => {
            proof {
                crate::ast::lemma_nodes_view(nodes@);
            }
            if nodes.len() == 1 {
                let ghost nodes0 = nodes@;
                let n = nodes.remove(0);
                proof {
                    crate::ast::lemma_nodes_view(nodes0);
                }
                crate::codegen::generate_node(&n)
            } else {
                let frag = crate::ast::Node::Fragment { children: nodes, pos: 0 };
                crate::codegen::generate_node(&frag)
            }
        },
        Err(compound) => render_diags(&compound.errors),
    }
}

/// Compiles a nested fragment region; see [`spec_html_nested`].
pub fn html_nested(input: Vec<Token>) -> (r: Vec<Token>)
    ensures
        deep(r@) == spec_html_nested(deep(input@)),
{
    let (nodes, errors) = crate::parser::parse_root(&input);
    match crate::diag::join_errors(errors) {
        Ok(()) => crate::codegen::generate_nodes(&nodes, 0),
        Err(compound) => render_diags(&compound.errors),
    }
}

/// Exact keyword test.
fn is_kw(text: &String, kw: &str) -> (r: bool)
    ensures
        r == (text@ == kw@),
{
    *text == kw.to_owned()
}

/// Record scan: zero or more default-policy markers, then `name ( type )`,
/// repeated to the end of the region. `pending` holds markers seen before
/// the field name they belong to.
pub open spec fn spec_scan_fields(toks: Seq<TokV>, i: int, pending: Seq<MarkerV>) -> (
    Seq<FieldV>,
    Seq<DiagV>,
)
    decreases toks.len() - i,
{
    if !(0 <= i < toks.len()) {
        (
            Seq::empty(),
            if pending.len() > 0 {
                seq![dg(i, "dangling default marker"@)]
            } else {
                Seq::empty()
            },
        )
    } else {
        match toks[i] {
            TokV::Ident { text, pos } => {
                if text == "prop_or"@ || text == "prop_or_else"@ {
                    if i + 1 < toks.len() && (toks[i + 1] matches TokV::Group { .. }) {
                        let m = if text == "prop_or"@ {
                            MarkerV::Or { tokens: toks[i + 1]->Group_tokens }
                        } else {
                            MarkerV::OrElse { tokens: toks[i + 1]->Group_tokens }
                        };
                        spec_scan_fields(toks, i + 2, pending.push(m))
                    } else {
                        let rec = spec_scan_fields(toks, i + 1, pending);
                        (rec.0, seq![dg(pos, "malformed default marker"@)] + rec.1)
                    }
                } else if text == "prop_or_default"@ {
                    spec_scan_fields(toks, i + 1, pending.push(MarkerV::OrDefault))
                } else {
                    if i + 1 < toks.len() && (toks[i + 1] matches TokV::Group { .. }) {
                        let f = FieldV {
                            name: text,
                            ty: toks[i + 1]->Group_tokens,
                            markers: pending,
                            pos,
                        };
                        let rec = spec_scan_fields(toks, i + 2, Seq::empty());
                        (seq![f] + rec.0, rec.1)
                    } else {
                        let f = FieldV { name: text, ty: Seq::empty(), markers: pending, pos };
                        let rec = spec_scan_fields(toks, i + 1, Seq::empty());
                        (seq![f] + rec.0, seq![dg(pos, "expected field type"@)] + rec.1)
                    }
                }
            },
            _ => {
                let rec = spec_scan_fields(toks, i + 1, pending);
                (
                    rec.0,
                    seq![dg(crate::parser::pos_at(toks, i), "unexpected token in record"@)]
                        + rec.1,
                )
            },
        }
    }
}

/// Record scan; see [`spec_scan_fields`].
pub fn scan_fields(toks: &Vec<Token>, i: usize, pending: Vec<Marker>) -> (r: (
    Vec<FieldDef>,
    Vec<Diagnostic>,
))
    requires
        i <= toks@.len(),
    ensures
        ({
            let s = spec_scan_fields(deep(toks@), i as int, crate::props::markers_view(pending@));
            &&& fields_view(r.0@) == s.0
            &&& diags_view(r.1@) == s.1
        }),
    decreases toks@.len() - i,
{
    let ghost pend_v = crate::props::markers_view(pending@);
    let n = toks.len();
    if i >= n {
        if pending.len() > 0 {
            let d = Diagnostic::new(i, "dangling default marker");
            let r = (Vec::new(), vec![d]);
            proof {
                assert(fields_view(r.0@) =~= Seq::<FieldV>::empty());
                assert(diags_view(r.1@) =~= seq![dg(i as int, "dangling default marker"@)]);
            }
            r
        } else {
            let r = (Vec::new(), Vec::new());
            proof {
                assert(fields_view(r.0@) =~= Seq::<FieldV>::empty());
                assert(diags_view(r.1@) =~= Seq::<DiagV>::empty());
            }
            r
        }
    } else {
        match &toks[i] {
            Token::Ident { text, pos } => {
                let p: usize = *pos;
                let kw_or = is_kw(text, "prop_or");
                let kw_or_else = is_kw(text, "prop_or_else");
                if kw_or || kw_or_else {
                    let has_group = i + 1 < n && (matches!(&toks[i + 1], Token::Group { .. }));
                    if has_group {
                        let g = match &toks[i + 1] {
                            Token::Group { tokens, .. } => crate::tokens::dup_tokens(tokens),
                            _ => Vec::new(),
                        };
                        let m = if kw_or {
                            Marker::Or { tokens: g }
                        } else {
                            Marker::OrElse { tokens: g }
                        };
                        let mut pend = pending;
                        let ghost pend0 = pend@;
                        pend.push(m);
                        proof {
                            assert(crate::props::markers_view(pend@) =~= crate::props::markers_view(
                                pend0,
                            ).push(pend@[pend0.len() as int]@));
                        }
                        scan_fields(toks, i + 2, pend)
                    } else {
                        let (fs, ds) = scan_fields(toks, i + 1, pending);
                        let mut out_ds = vec![Diagnostic::new(p, "malformed default marker")];
                        let ghost d0 = out_ds@;
                        let mut dsv = ds;
                        out_ds.append(&mut dsv);
                        proof {
                            assert(diags_view(out_ds@) =~= spec_scan_fields(
                                deep(toks@),
                                i as int,
                                pend_v,
                            ).1);
                        }
                        (fs, out_ds)
                    }
                } else if is_kw(text, "prop_or_default") {
                    let mut pend = pending;
                    let ghost pend0 = pend@;
                    pend.push(Marker::OrDefault);
                    proof {
                        assert(crate::props::markers_view(pend@) =~= crate::props::markers_view(
                            pend0,
                        ).push(MarkerV::OrDefault));
                    }
                    scan_fields(toks, i + 1, pend)
                } else {
                    let has_group = i + 1 < n && (matches!(&toks[i + 1], Token::Group { .. }));
                    if has_group {
                        let ty = match &toks[i + 1] {
                            Token::Group { tokens, .. } => crate::tokens::dup_tokens(tokens),
                            _ => Vec::new(),
                        };
                        let f = FieldDef { name: text.clone(), ty, markers: pending, pos: p };
                        proof {
                            let s = spec_scan_fields(deep(toks@), i as int, pend_v);
                            assert(f@ =~= s.0[0]);
                        }
                        let (fs, ds) = scan_fields(toks, i + 2, Vec::new());
                        let mut out = vec![f];
                        let mut fsv = fs;
                        out.append(&mut fsv);
                        proof {
                            assert(crate::props::markers_view(Seq::<Marker>::empty())
                                =~= Seq::<MarkerV>::empty());
                            assert(fields_view(out@) =~= spec_scan_fields(
                                deep(toks@),
                                i as int,
                                pend_v,
                            ).0);
                        }
                        (out, ds)
                    } else {
                        let f = FieldDef {
                            name: text.clone(),
                            ty: Vec::new(),
                            markers: pending,
                            pos: p,
                        };
                        proof {
                            let s = spec_scan_fields(deep(toks@), i as int, pend_v);
                            assert(f@ =~= s.0[0]);
                        }
                        proof {
                            assert(crate::props::markers_view(Seq::<Marker>::empty())
                                =~= Seq::<MarkerV>::empty());
                        }
                        let (fs, ds) = scan_fields(toks, i + 1, Vec::new());
                        let mut out = vec![f];
                        let mut fsv = fs;
                        out.append(&mut fsv);
                        let mut out_ds = vec![Diagnostic::new(p, "expected field type")];
                        let mut dsv = ds;
                        out_ds.append(&mut dsv);
                        proof {
                            let s = spec_scan_fields(deep(toks@), i as int, pend_v);
                            assert(fields_view(out@) =~= s.0);
                            assert(diags_view(out_ds@) =~= s.1);
                        }
                        (out, out_ds)
                    }
                }
            },
            _ => {
                let pk = crate::parser::pos_of(toks, i);
                let (fs, ds) = scan_fields(toks, i + 1, pending);
                let mut out_ds = vec![Diagnostic::new(pk, "unexpected token in record")];
                let mut dsv = ds;
                out_ds.append(&mut dsv);
                proof {
                    assert(diags_view(out_ds@) =~= spec_scan_fields(
                        deep(toks@),
                        i as int,
                        pend_v,
                    ).1);
                }
                (fs, out_ds)
            },
        }
    }
}

/// One field of the derived builder: `name ( type ) policy [( expr )] ,`.
/// A field with no marker carries the `required` policy; the builder's
/// rejection of an unset required field happens where the builder is
/// consumed — the assemble-properties request ([`spec_props`]) refuses to
/// construct and reports "missing required field" instead.
pub open spec fn gen_field(f: FieldV) -> Seq<TokV> {
    seq![
        TokV::Ident { text: f.name, pos: f.pos },
        TokV::Group { delim: crate::tokens::Delim::Paren, tokens: f.ty, pos: f.pos },
    ] + (if f.markers.len() == 0 {
        seq![TokV::Ident { text: "required"@, pos: f.pos }]
    } else {
        match f.markers[0] {
            MarkerV::Or { tokens } => seq![
                TokV::Ident { text: "prop_or"@, pos: f.pos },
                TokV::Group { delim: crate::tokens::Delim::Paren, tokens, pos: f.pos },
            ],
            MarkerV::OrElse { tokens } => seq![
                TokV::Ident { text: "prop_or_else"@, pos: f.pos },
                TokV::Group { delim: crate::tokens::Delim::Paren, tokens, pos: f.pos },
            ],
            MarkerV::OrDefault => seq![TokV::Ident { text: "prop_or_default"@, pos: f.pos }],
        }
    }) + seq![TokV::Punct { ch: ',', pos: f.pos }]
}

/// The whole derived builder body, field by field.
pub open spec fn gen_fields(fs: Seq<FieldV>, k: int) -> Seq<TokV>
    decreases fs.len() - k,
{
    if !(0 <= k < fs.len()) {
        Seq::empty()
    } else {
        gen_field(fs[k]) + gen_fields(fs, k + 1)
    }
}

/// The derive-properties request: scan the record, reject conflicting
/// default markers, and emit the builder body.
pub open spec fn spec_derive_props(input: Seq<TokV>) -> Seq<TokV> {
    let scanned = spec_scan_fields(input, 0, Seq::empty());
    let all = scanned.1 + spec_conflicts(scanned.0, 0);
    if all.len() == 0 {
        gen_fields(scanned.0, 0)
    } else {
        spec_render_diags(all)
    }
}

/// Lowers one field of the builder; see [`gen_field`].
fn generate_field(f: &FieldDef) -> (r: Vec<Token>)
    ensures
        deep(r@) == gen_field(f@),
{
    let p: usize = f.pos;
    let mut r = vec![
        Token::Ident { text: f.name.clone(), pos: p },
        Token::Group {
            delim: crate::tokens::Delim::Paren,
            tokens: crate::tokens::dup_tokens(&f.ty),
            pos: p,
        },
    ];
    if f.markers.len() == 0 {
        r.push(Token::Ident { text: "required".to_owned(), pos: p });
    } else {
        match &f.markers[0] {
            Marker::Or { tokens } => {
                r.push(Token::Ident { text: "prop_or".to_owned(), pos: p });
                r.push(Token::Group {
                    delim: crate::tokens::Delim::Paren,
                    tokens: crate::tokens::dup_tokens(tokens),
                    pos: p,
                });
            },
            Marker::OrElse { tokens } => {
                r.push(Token::Ident { text: "prop_or_else".to_owned(), pos: p });
                r.push(Token::Group {
                    delim: crate::tokens::Delim::Paren,
                    tokens: crate::tokens::dup_tokens(tokens),
                    pos: p,
                });
            },
            Marker::OrDefault => {
                r.push(Token::Ident { text: "prop_or_default".to_owned(), pos: p });
            },
        }
    }
    r.push(Token::Punct { ch: ',', pos: p });
    proof {
        assert(deep(r@) =~~= gen_field(f@));
    }
    r
}

/// Lowers the fields from `k` on; see [`gen_fields`].
fn generate_fields(fs: &Vec<FieldDef>, k: usize) -> (r: Vec<Token>)
    requires
        k <= fs@.len(),
    ensures
        deep(r@) == gen_fields(fields_view(fs@), k as int),
    decreases fs@.len() - k,
{
    if k >= fs.len() {
        proof {
            assert(deep(Seq::<Token>::empty()) =~= Seq::<TokV>::empty());
        }
        Vec::new()
    } else {
        let mut out = generate_field(&fs[k]);
        let mut rest = generate_fields(fs, k + 1);
        let ghost out0 = out@;
        let ghost rest0 = rest@;
        out.append(&mut rest);
        proof {
            assert(deep(out@) =~= deep(out0) + deep(rest0));
            assert(deep(out@) =~= gen_fields(fields_view(fs@), k as int));
        }
        out
    }
}

/// Derives the builder for a property record; see [`spec_derive_props`].
pub fn derive_props(input: Vec<Token>) -> (r: Vec<Token>)
    ensures
        deep(r@) == spec_derive_props(deep(input@)),
{
    proof {
        assert(crate::props::markers_view(Seq::<Marker>::empty()) =~= Seq::<MarkerV>::empty());
    }
    let (fields, mut ds) = scan_fields(&input, 0, Vec::new());
    let conflicts = crate::props::check_conflicts(&fields, 0);
    let ghost ds0 = ds@;
    let mut cv = conflicts;
    let ghost cv0 = cv@;
    ds.append(&mut cv);
    proof {
        assert(diags_view(ds@) =~= diags_view(ds0) + diags_view(cv0));
    }
    if ds.len() == 0 {
        proof {
            assert(diags_view(ds@).len() == 0);
        }
        generate_fields(&fields, 0)
    } else {
        render_diags(&ds)
    }
}

/// The value a field is built from: the explicit assignment when present,
/// else a delegation to the default its marker provides. The three policies
/// stay distinguishable in the assembled output: a `prop_or` expression is
/// taken verbatim, a `prop_or_else` expression is wrapped under a
/// `prop_or_else` head (the build step invokes it rather than taking its
/// value), and `prop_or_default` becomes the bare `prop_or_default` head
/// (the build step calls the field type's own default mechanism). A required
/// field only reaches this once the missing-field check has passed.
pub open spec fn spec_field_value(f: FieldV, assigns: Seq<AttrV>) -> AttrValueV {
    match spec_assigned(assigns, f.name, 0) {
        Some(v) => v,
        None => if f.markers.len() >= 1 {
            match f.markers[0] {
                MarkerV::Or { tokens } => AttrValueV::Expr { tokens },
                MarkerV::OrElse { tokens } => AttrValueV::Expr {
                    tokens: seq![
                        TokV::Ident { text: "prop_or_else"@, pos: f.pos },
                        TokV::Group {
                            delim: crate::tokens::Delim::Paren,
                            tokens,
                            pos: f.pos,
                        },
                    ],
                },
                MarkerV::OrDefault => AttrValueV::Expr {
                    tokens: seq![TokV::Ident { text: "prop_or_default"@, pos: f.pos }],
                },
            }
        } else {
            AttrValueV::True
        },
    }
}

/// The assembled record, one `name = value ,` group of tokens per field.
pub open spec fn gen_props(fs: Seq<FieldV>, assigns: Seq<AttrV>, k: int) -> Seq<TokV>
    decreases fs.len() - k,
{
    if !(0 <= k < fs.len()) {
        Seq::empty()
    } else {
        gen_attr(
            AttrV { name: fs[k].name, value: spec_field_value(fs[k], assigns), pos: fs[k].pos },
        ) + gen_props(fs, assigns, k + 1)
    }
}

/// The assemble-properties request: the input is two groups, the record's
/// fields and the explicit assignments. Conflicting markers, malformed
/// assignments and unset required fields are all reported together.
pub open spec fn spec_props(input: Seq<TokV>) -> Seq<TokV> {
    if input.len() == 2 && (input[0] matches TokV::Group { .. }) && (input[1]
        matches TokV::Group { .. }) {
        let ftoks = input[0]->Group_tokens;
        let atoks = input[1]->Group_tokens;
        let scanned_f = spec_scan_fields(ftoks, 0, Seq::empty());
        let scanned_a = spec_scan_attrs(atoks, 0);
        let ads = if scanned_a.1 == atoks.len() {
            scanned_a.2
        } else {
            scanned_a.2 + seq![
                dg(crate::parser::pos_at(atoks, scanned_a.1), "malformed property assignment"@),
            ]
        };
        let all = scanned_f.1 + spec_conflicts(scanned_f.0, 0) + ads + spec_missing(
            scanned_f.0,
            scanned_a.0,
            0,
        );
        if all.len() == 0 {
            gen_props(scanned_f.0, scanned_a.0, 0)
        } else {
            spec_render_diags(all)
        }
    } else {
        spec_render_diags(seq![dg(0, "malformed properties request"@)])
    }
}

/// Assembles one field; see [`gen_props`].
fn generate_prop(f: &FieldDef, assigns: &Vec<crate::ast::Attr>) -> (r: Vec<Token>)
    ensures
        deep(r@) == gen_attr(
            AttrV { name: f@.name, value: spec_field_value(f@, attrs_view(assigns@)), pos: f@.pos },
        ),
{
    let value = match crate::props::find_assigned(assigns, &f.name, 0) {
        Some(v) => v,
        None => {
            if f.markers.len() >= 1 {
                match &f.markers[0] {
                    Marker::Or { tokens } => crate::ast::AttrValue::Expr {
                        tokens: crate::tokens::dup_tokens(tokens),
                    },
                    Marker::OrElse { tokens } => crate::ast::AttrValue::Expr {
                        tokens: vec![
                            Token::Ident { text: "prop_or_else".to_owned(), pos: f.pos },
                            Token::Group {
                                delim: crate::tokens::Delim::Paren,
                                tokens: crate::tokens::dup_tokens(tokens),
                                pos: f.pos,
                            },
                        ],
                    },
                    Marker::OrDefault => crate::ast::AttrValue::Expr {
                        tokens: vec![
                            Token::Ident { text: "prop_or_default".to_owned(), pos: f.pos },
                        ],
                    },
                }
            } else {
                crate::ast::AttrValue::True
            }
        },
    };
    let a = crate::ast::Attr { name: f.name.clone(), value, pos: f.pos };
    proof {
        assert(a@ =~~= (AttrV {
            name: f@.name,
            value: spec_field_value(f@, attrs_view(assigns@)),
            pos: f@.pos,
        }));
    }
    crate::codegen::generate_attr(&a)
}

/// Assembles the fields from `k` on; see [`gen_props`].
fn generate_props(fs: &Vec<FieldDef>, assigns: &Vec<crate::ast::Attr>, k: usize) -> (r: Vec<Token>)
    requires
        k <= fs@.len(),
    ensures
        deep(r@) == gen_props(fields_view(fs@), attrs_view(assigns@), k as int),
    decreases fs@.len() - k,
{
    if k >= fs.len() {
        proof {
            assert(deep(Seq::<Token>::empty()) =~= Seq::<TokV>::empty());
        }
        Vec::new()
    } else {
        let mut out = generate_prop(&fs[k], assigns);
        let mut rest = generate_props(fs, assigns, k + 1);
        let ghost out0 = out@;
        let ghost rest0 = rest@;
        out.append(&mut rest);
        proof {
            assert(deep(out@) =~= deep(out0) + deep(rest0));
            assert(deep(out@) =~= gen_props(fields_view(fs@), attrs_view(assigns@), k as int));
        }
        out
    }
}

/// Assembles a properties record; see [`spec_props`].
pub fn props(input: Vec<Token>) -> (r: Vec<Token>)
    ensures
        deep(r@) == spec_props(deep(input@)),
{
    let shape_ok = input.len() == 2 && (matches!(&input[0], Token::Group { .. })) && (matches!(
        &input[1],
        Token::Group { .. },
    ));
    if !shape_ok {
        let ds = vec![Diagnostic::new(0, "malformed properties request")];
        proof {
            assert(diags_view(ds@) =~= seq![dg(0, "malformed properties request"@)]);
        }
        render_diags(&ds)
    } else {
        let ftoks = match &input[0] {
            Token::Group { tokens, .. } => crate::tokens::dup_tokens(tokens),
            _ => Vec::new(),
        };
        let atoks = match &input[1] {
            Token::Group { tokens, .. } => crate::tokens::dup_tokens(tokens),
            _ => Vec::new(),
        };
        proof {
            assert(crate::props::markers_view(Seq::<Marker>::empty()) =~= Seq::<
                MarkerV,
            >::empty());
            assert(deep(ftoks@) == deep(input@)[0]->Group_tokens);
            assert(deep(atoks@) == deep(input@)[1]->Group_tokens);
        }
        let (fields, mut ds) = scan_fields(&ftoks, 0, Vec::new());
        let conflicts = crate::props::check_conflicts(&fields, 0);
        let ghost ds0 = ds@;
        let mut cv = conflicts;
        let ghost cv0 = cv@;
        ds.append(&mut cv);
        proof {
            assert(diags_view(ds@) =~= diags_view(ds0) + diags_view(cv0));
        }
        let (assigns, apos, mut ads) = crate::parser::scan_attrs(&atoks, 0);
        if apos < atoks.len() {
            let pk = crate::parser::pos_of(&atoks, apos);
            let d = Diagnostic::new(pk, "malformed property assignment");
            ads.push(d);
            proof {
                let s = spec_scan_attrs(deep(atoks@), 0);
                assert(diags_view(ads@) =~= s.2 + seq![
                    dg(
                        crate::parser::pos_at(deep(atoks@), s.1),
                        "malformed property assignment"@,
                    ),
                ]);
            }
        }
        let ghost ds1 = ds@;
        let ghost ads0 = ads@;
        ds.append(&mut ads);
        proof {
            assert(diags_view(ds@) =~= diags_view(ds1) + diags_view(ads0));
        }
        let missing = crate::props::check_missing(&fields, &assigns, 0);
        let ghost ds2 = ds@;
        let mut mv = missing;
        let ghost mv0 = mv@;
        ds.append(&mut mv);
        proof {
            assert(diags_view(ds@) =~= diags_view(ds2) + diags_view(mv0));
        }
        if ds.len() == 0 {
            proof {
                assert(diags_view(ds@).len() == 0);
            }
            generate_props(&fields, &assigns, 0)
        } else {
            render_diags(&ds)
        }
    }
}

/// Class-fragment scan: a literal is a static fragment; a group of a truth
/// identifier and a literal is a conditional one.
pub open spec fn spec_scan_frags(toks: Seq<TokV>, i: int) -> (Seq<ClassFragV>, Seq<DiagV>)
    decreases toks.len() - i,
{
    if !(0 <= i < toks.len()) {
        (Seq::empty(), Seq::empty())
    } else {
        let rec = spec_scan_frags(toks, i + 1);
        match toks[i] {
            TokV::Lit { text, .. } => (seq![ClassFragV::Static { text }] + rec.0, rec.1),
            TokV::Group { tokens, pos, .. } => {
                if tokens.len() == 2 && (tokens[0] matches TokV::Ident { .. }) && (tokens[1]
                    matches TokV::Lit { .. }) {
                    (
                        seq![
                            ClassFragV::Cond {
                                cond: tokens[0]->Ident_text == "true"@,
                                text: tokens[1]->Lit_text,
                            },
                        ] + rec.0,
                        rec.1,
                    )
                } else {
                    (rec.0, seq![dg(pos, "malformed class fragment"@)] + rec.1)
                }
            },
            _ => (rec.0, seq![dg(crate::parser::pos_at(toks, i), "malformed class fragment"@)] + rec.1),
        }
    }
}

/// The build-class-list request: the merged class string as one literal.
pub open spec fn spec_classes(input: Seq<TokV>) -> Seq<TokV> {
    let scanned = spec_scan_frags(input, 0);
    if scanned.1.len() == 0 {
        seq![TokV::Lit { text: class_list_spec(scanned.0), pos: 0 }]
    } else {
        spec_render_diags(scanned.1)
    }
}

/// Class-fragment scan; see [`spec_scan_frags`].
pub fn scan_frags(toks: &Vec<Token>, i: usize) -> (r: (Vec<ClassFragment>, Vec<Diagnostic>))
    requires
        i <= toks@.len(),
    ensures
        ({
            let s = spec_scan_frags(deep(toks@), i as int);
            &&& crate::classes::frags_view(r.0@) == s.0
            &&& diags_view(r.1@) == s.1
        }),
    decreases toks@.len() - i,
{
    if i >= toks.len() {
        let r = (Vec::new(), Vec::new());
        proof {
            assert(crate::classes::frags_view(r.0@) =~= Seq::<ClassFragV>::empty());
            assert(diags_view(r.1@) =~= Seq::<DiagV>::empty());
        }
        r
    } else {
        let (rest, ds) = scan_frags(toks, i + 1);
        match &toks[i] {
            Token::Lit { text, .. } => {
                let mut out = vec![ClassFragment::Static { text: text.clone() }];
                let mut restv = rest;
                out.append(&mut restv);
                proof {
                    assert(crate::classes::frags_view(out@) =~= spec_scan_frags(
                        deep(toks@),
                        i as int,
                    ).0);
                }
                (out, ds)
            },
            Token::Group { tokens, pos, .. } => {
                let shape_ok = tokens.len() == 2 && (matches!(&tokens[0], Token::Ident { .. }))
                    && (matches!(&tokens[1], Token::Lit { .. }));
                proof {
                    let tv = deep(toks@)[i as int];
                    assert(tv matches TokV::Group { .. });
                    assert(tv->Group_tokens == crate::tokens::deep_seq(tokens@));
                    assert(tv->Group_tokens.len() == tokens@.len());
                    if tokens@.len() == 2 {
                        assert(tv->Group_tokens[0] == crate::tokens::tok_view(tokens@[0]));
                        assert(tv->Group_tokens[1] == crate::tokens::tok_view(tokens@[1]));
                    }
                    assert(shape_ok == (tv->Group_tokens.len() == 2 && (tv->Group_tokens[0]
                        matches TokV::Ident { .. }) && (tv->Group_tokens[1]
                        matches TokV::Lit { .. })));
                }
                if shape_ok {
                    let cond = match &tokens[0] {
                        Token::Ident { text, .. } => is_kw(text, "true"),
                        _ => false,
                    };
                    let ctext = match &tokens[1] {
                        Token::Lit { text, .. } => text.clone(),
                        _ => String::new(),
                    };
                    let mut out = vec![ClassFragment::Cond { cond, text: ctext }];
                    let mut restv = rest;
                    out.append(&mut restv);
                    proof {
                        assert(crate::classes::frags_view(out@) =~= spec_scan_frags(
                            deep(toks@),
                            i as int,
                        ).0);
                    }
                    (out, ds)
                } else {
                    let mut out_ds = vec![Diagnostic::new(*pos, "malformed class fragment")];
                    let mut dsv = ds;
                    out_ds.append(&mut dsv);
                    proof {
                        assert(diags_view(out_ds@) =~= spec_scan_frags(deep(toks@), i as int).1);
                    }
                    (rest, out_ds)
                }
            },
            _ => {
                let pk = crate::parser::pos_of(toks, i);
                let mut out_ds = vec![Diagnostic::new(pk, "malformed class fragment")];
                let mut dsv = ds;
                out_ds.append(&mut dsv);
                proof {
                    assert(diags_view(out_ds@) =~= spec_scan_frags(deep(toks@), i as int).1);
                }
                (rest, out_ds)
            },
        }
    }
}

/// Builds a class list; see [`spec_classes`].
pub fn classes(input: Vec<Token>) -> (r: Vec<Token>)
    ensures
        deep(r@) == spec_classes(deep(input@)),
{
    let (frags, errors) = scan_frags(&input, 0);
    match crate::diag::join_errors(errors) {
        Ok(()) => {
            let joined = crate::classes::build_class_list(&frags);
            let r = vec![Token::Lit { text: joined, pos: 0 }];
            proof {
                assert(deep(r@) =~= spec_classes(deep(input@)));
            }
            r
        },
        Err(compound) => render_diags(&compound.errors),
    }
}

/// The five named transformation requests.
#[derive(Debug, PartialEq, Eq, Structural, Clone, Copy)]
pub enum Request {
    DeriveProps,
    HtmlNested,
    Html,
    Props,
    Classes,
}

/// What a request maps to.
pub open spec fn spec_dispatch(req: Request, input: Seq<TokV>) -> Seq<TokV> {
    match req {
        Request::DeriveProps => spec_derive_props(input),
        Request::HtmlNested => spec_html_nested(input),
        Request::Html => spec_html(input),
        Request::Props => spec_props(input),
        Request::Classes => spec_classes(input),
    }
}

/// Maps a named request to its pipeline: one token sequence in, one out —
/// generated code, or the compound diagnostic rendered as tokens.
pub fn dispatch(req: Request, input: Vec<Token>) -> (r: Vec<Token>)
    ensures
        deep(r@) == spec_dispatch(req, deep(input@)),
{
    match req {
        Request::DeriveProps => derive_props(input),
        Request::HtmlNested => html_nested(input),
        Request::Html => html(input),
        Request::Props => props(input),
        Request::Classes => classes(input),
    }
}

} // verus!
