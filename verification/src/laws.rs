//! Laws of the compiler, stated and proved once for all inputs.

use vstd::prelude::*;
use crate::ast::{AttrV, NodeV};
use crate::codegen::{gen_node, gen_nodes};
use crate::non_capitalized_ascii_spec;
use crate::parser::{dg, spec_make_tag_node, spec_parse_node, spec_parse_root};
use crate::tokens::TokV;

verus! {

/// Classification never depends on parse order or surrounding context: for
/// any attributes, children and position, an open tag makes a plain element
/// exactly when its name is a single identifier (no `::` path separator)
/// whose first character is a lowercase ASCII letter, and a component
/// exactly otherwise — every `::` type path is a component.
pub proof fn lemma_classification(
    name: Seq<char>,
    attrs: Seq<AttrV>,
    children: Seq<NodeV>,
    pos: int,
)
    ensures
        (non_capitalized_ascii_spec(name) && crate::parser::no_path_sep(name))
            <==> spec_make_tag_node(name, attrs, children, pos).0 is Element,
        !(non_capitalized_ascii_spec(name) && crate::parser::no_path_sep(name))
            <==> spec_make_tag_node(name, attrs, children, pos).0 is Component,
{
}

/// Classification at any open tag of any input: wherever `< name …` stands
/// in a token sequence, whatever precedes or follows it, the parse produces
/// a node there, and that node is a plain element exactly when the scanned
/// tag name is a single identifier whose first character is a lowercase
/// ASCII letter — a component exactly otherwise, every `::` type path
/// included.
pub proof fn lemma_open_tag_classification(toks: Seq<TokV>, i: int)
    requires
        0 <= i < toks.len(),
        crate::tokens::is_punct(toks[i], '<'),
        i + 1 < toks.len(),
        toks[i + 1] matches TokV::Ident { .. },
    ensures
        spec_parse_node(toks, i).0 is Some,
        (spec_parse_node(toks, i).0->Some_0 is Element) <==> (non_capitalized_ascii_spec(
            crate::parser::spec_scan_path(toks, i + 1).0,
        ) && crate::parser::no_path_sep(crate::parser::spec_scan_path(toks, i + 1).0)),
        (spec_parse_node(toks, i).0->Some_0 is Component) <==> !(non_capitalized_ascii_spec(
            crate::parser::spec_scan_path(toks, i + 1).0,
        ) && crate::parser::no_path_sep(crate::parser::spec_scan_path(toks, i + 1).0)),
{
    let pos = crate::tokens::tok_pos(toks[i]);
    crate::parser::lemma_scan_path_bounds(toks, i + 1);
    let sp = crate::parser::spec_scan_path(toks, i + 1);
    let ap = crate::parser::clamp_after(sp.1, i + 1, toks.len() as int);
    crate::parser::lemma_scan_attrs_bounds(toks, ap);
    let scanned = crate::parser::spec_scan_attrs(toks, ap);
    let j = crate::parser::clamp_after(scanned.1, ap - 1, toks.len() as int);
    let ded = crate::parser::spec_dedup_attrs(scanned.0, 0);
    if crate::parser::at_punct(toks, j, '/') && crate::parser::at_punct(toks, j + 1, '>') {
        lemma_classification(sp.0, ded.0, Seq::empty(), pos);
    } else if crate::parser::at_punct(toks, j, '>') {
        let body = crate::parser::spec_parse_nodes(toks, j + 1);
        lemma_classification(sp.0, ded.0, body.0, pos);
    } else {
        lemma_classification(sp.0, ded.0, Seq::empty(), pos);
    }
}

/// The derive-properties request never emits builder code for a record with
/// a conflicted field: its conflict diagnostics number exactly one per field
/// carrying two or more markers, and any such field turns the whole result
/// into the rendered report.
pub proof fn lemma_derive_props_rejects_conflicts(input: Seq<TokV>)
    ensures
        ({
            let scanned = crate::entry::spec_scan_fields(input, 0, Seq::empty());
            let conflicts = crate::props::spec_conflicts(scanned.0, 0);
            &&& conflicts.len() == crate::props::count_conflicted(scanned.0, 0)
            &&& crate::props::count_conflicted(scanned.0, 0) > 0
                ==> crate::entry::spec_derive_props(input) == crate::entry::spec_render_diags(
                scanned.1 + conflicts,
            )
        }),
{
    let scanned = crate::entry::spec_scan_fields(input, 0, Seq::empty());
    crate::props::lemma_conflicts_count(scanned.0, 0);
}

/// Wherever a named close tag stands, in any token sequence and under any
/// opener: if its name differs from the opener's, consuming it records
/// exactly one "mismatched closing tag" diagnostic at the close name's span
/// and moves past the whole close tag — parsing continues, no total
/// failure. The parse applies this rule ([`crate::parser::spec_close`]) at
/// the close of every element and fragment, so it holds in every
/// surrounding context.
pub proof fn lemma_mismatched_close_general(
    toks: Seq<TokV>,
    k: int,
    opener: Seq<char>,
    open_pos: int,
)
    requires
        crate::parser::at_close(toks, k),
        k + 2 < toks.len(),
        toks[k + 2] matches TokV::Ident { .. },
        crate::parser::at_punct(
            toks,
            crate::parser::clamp_after(
                crate::parser::spec_scan_path(toks, k + 2).1,
                k + 2,
                toks.len() as int,
            ),
            '>',
        ),
        crate::parser::spec_scan_path(toks, k + 2).0 != opener,
    ensures
        crate::parser::spec_close(toks, k, Some(opener), open_pos).0 == crate::parser::clamp_after(
            crate::parser::spec_scan_path(toks, k + 2).1,
            k + 2,
            toks.len() as int,
        ) + 1,
        crate::parser::spec_close(toks, k, Some(opener), open_pos).1 =~= seq![
            dg(crate::parser::pos_at(toks, k + 2), "mismatched closing tag"@),
        ],
{
}

/// The token family `< a > < / b >`: an element opened as `a` and closed as
/// `b`.
pub open spec fn mismatch_toks(a: Seq<char>, b: Seq<char>) -> Seq<TokV> {
    seq![
        TokV::Punct { ch: '<', pos: 0 },
        TokV::Ident { text: a, pos: 1 },
        TokV::Punct { ch: '>', pos: 2 },
        TokV::Punct { ch: '<', pos: 3 },
        TokV::Punct { ch: '/', pos: 4 },
        TokV::Ident { text: b, pos: 5 },
        TokV::Punct { ch: '>', pos: 6 },
    ]
}

/// A close tag whose name does not match the nearest open tag records
/// exactly one "mismatched closing tag" diagnostic, and parsing still
/// produces the node and continues past the close tag — no total failure,
/// whatever the two names are.
pub proof fn lemma_mismatched_close(a: Seq<char>, b: Seq<char>)
    requires
        a != b,
    ensures
        spec_parse_root(mismatch_toks(a, b), 0).0.len() == 1,
        spec_parse_root(mismatch_toks(a, b), 0).1 =~= seq![dg(5, "mismatched closing tag"@)],
{
    let toks = mismatch_toks(a, b);
    assert(crate::parser::spec_scan_attrs(toks, 2).1 == 2);
    assert(crate::parser::spec_parse_nodes(toks, 3).1 == 3);
    assert(crate::parser::spec_close(toks, 3, Some(a), 0).0 == 7);
    assert(crate::parser::spec_close(toks, 3, Some(a), 0).1 =~= seq![
        dg(5, "mismatched closing tag"@),
    ]);
    let one = crate::parser::spec_parse_node(toks, 0);
    assert(one.1 == 7);
    assert(one.2 =~= seq![dg(5, "mismatched closing tag"@)]);
    assert(crate::parser::spec_parse_nodes(toks, 7).1 == 7);
    let ns = crate::parser::spec_parse_nodes(toks, 0);
    assert(ns.0.len() == 1 && ns.1 == 7);
    assert(ns.2 =~= seq![dg(5, "mismatched closing tag"@)]);
    assert(spec_parse_root(toks, 0).0.len() == 1);
    assert(spec_parse_root(toks, 0).1 =~= seq![dg(5, "mismatched closing tag"@)]);
}

/// The token family `< / a > < / b >`: two independent stray close tags.
pub open spec fn two_strays_toks(a: Seq<char>, b: Seq<char>) -> Seq<TokV> {
    seq![
        TokV::Punct { ch: '<', pos: 0 },
        TokV::Punct { ch: '/', pos: 1 },
        TokV::Ident { text: a, pos: 2 },
        TokV::Punct { ch: '>', pos: 3 },
        TokV::Punct { ch: '<', pos: 4 },
        TokV::Punct { ch: '/', pos: 5 },
        TokV::Ident { text: b, pos: 6 },
        TokV::Punct { ch: '>', pos: 7 },
    ]
}

/// Two independent malformed constructs in one input give two diagnostics,
/// one at each site — not just the first: parsing recovers after the first
/// mistake and keeps reading.
pub proof fn lemma_independent_errors(a: Seq<char>, b: Seq<char>)
    ensures
        spec_parse_root(two_strays_toks(a, b), 0).1 =~= seq![
            dg(0, "unexpected closing tag"@),
            dg(4, "unexpected closing tag"@),
        ],
{
    let toks = two_strays_toks(a, b);
    assert(crate::parser::spec_parse_nodes(toks, 0).1 == 0);
    assert(crate::parser::spec_close(toks, 0, Some(Seq::empty()), 0).0 == 4);
    assert(crate::parser::spec_parse_nodes(toks, 4).1 == 4);
    assert(crate::parser::spec_close(toks, 4, Some(Seq::empty()), 4).0 == 8);
    assert(crate::parser::spec_parse_nodes(toks, 8).1 == 8);
    assert(spec_parse_root(toks, 8).1 =~= Seq::<crate::diag::DiagV>::empty());
    assert(spec_parse_root(toks, 4).1 =~= seq![dg(4, "unexpected closing tag"@)]);
    assert(spec_parse_root(toks, 0).1 =~= seq![
        dg(0, "unexpected closing tag"@),
        dg(4, "unexpected closing tag"@),
    ]);
}

/// For valid markup — a parse with no diagnostics — parsing followed by
/// generation followed by evaluation of the generated expression yields
/// exactly the node graph of the parsed tree: tag names, attribute order and
/// child order all mirror the source, never reordered.
pub proof fn lemma_pipeline_mirror(input: Seq<TokV>)
    requires
        spec_parse_root(input, 0).1.len() == 0,
    ensures
        crate::codegen::eval_nodes(crate::entry::spec_html_nested(input)) == Some(
            crate::codegen::vnodes_from(spec_parse_root(input, 0).0, 0),
        ),
{
    crate::codegen::lemma_eval_gen_nodes(spec_parse_root(input, 0).0, 0);
}

/// A fragment of two children generates exactly the two children's code, in
/// order, inside the list constructor — no wrapping element identity.
pub proof fn lemma_fragment_two_children(c1: NodeV, c2: NodeV, pos: int)
    ensures
        gen_node(NodeV::Fragment { children: seq![c1, c2], pos }) =~~= seq![
            TokV::Ident { text: "vlist"@, pos },
            TokV::Group {
                delim: crate::tokens::Delim::Paren,
                tokens: gen_node(c1) + gen_node(c2),
                pos,
            },
        ],
{
    let cs = seq![c1, c2];
    assert(gen_nodes(cs, 2) =~= Seq::<TokV>::empty());
    assert(cs[1] == c2);
    assert(gen_nodes(cs, 1) =~= gen_node(c2));
    assert(gen_nodes(cs, 0) =~= gen_node(c1) + gen_node(c2));
}

/// A field carrying two or more default-policy markers produces exactly one
/// "conflicting default" diagnostic naming that field — whatever the markers
/// are, neither default is ever silently picked. A field carrying at most
/// one marker produces none.
pub proof fn lemma_conflicting_defaults(f: crate::props::FieldV)
    ensures
        f.markers.len() >= 2 ==> crate::props::spec_conflicts(seq![f], 0) =~= seq![
            dg(f.pos, "conflicting default for field "@ + f.name),
        ],
        f.markers.len() < 2 ==> crate::props::spec_conflicts(seq![f], 0) =~= Seq::<
            crate::diag::DiagV,
        >::empty(),
{
    assert(crate::props::spec_conflicts(seq![f], 1) =~= Seq::<crate::diag::DiagV>::empty());
}

/// A required field — one with no default-policy marker — left unset by every
/// assignment yields exactly one "missing required field" diagnostic naming
/// it; once any assignment sets it, or the field carries a marker, it yields
/// none.
pub proof fn lemma_missing_required(f: crate::props::FieldV, assigns: Seq<AttrV>)
    ensures
        f.markers.len() == 0 && crate::props::spec_assigned(assigns, f.name, 0) is None
            ==> crate::props::spec_missing(seq![f], assigns, 0) =~= seq![
            dg(f.pos, "missing required field "@ + f.name),
        ],
        f.markers.len() > 0 || crate::props::spec_assigned(assigns, f.name, 0) is Some
            ==> crate::props::spec_missing(seq![f], assigns, 0) =~= Seq::<
            crate::diag::DiagV,
        >::empty(),
{
    assert(crate::props::spec_missing(seq![f], assigns, 1) =~= Seq::<
        crate::diag::DiagV,
    >::empty());
}

} // verus!
