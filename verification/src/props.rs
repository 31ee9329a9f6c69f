//! The properties deriver and assembler.
//!
//! A property record is a list of named, typed fields. A field may carry one
//! default-policy marker: `prop_or ( expr )` fills it with that expression
//! when unset, `prop_or_else ( expr )` computes it, `prop_or_default` uses
//! the type's own default. A field with no marker is required. At most one
//! marker per field: two or more raise one "conflicting default" diagnostic
//! for that field. Assembling a record from explicit assignments rejects an
//! unset required field with a "missing required field" diagnostic naming it
//! — it is never silently defaulted.
//!
//! In token form a field reads `markers… name ( type… )`, and an assignment
//! list uses the attribute syntax `name = value`.

use vstd::prelude::*;
use crate::ast::{AttrV, AttrValueV};
use crate::diag::{diags_view, DiagV, Diagnostic};
use crate::parser::dg;
use crate::tokens::{deep, Token, TokV};

verus! {

broadcast use
    crate::tokens::lemma_deep,
    crate::tokens::lemma_deep_seq;

/// One default-policy marker.
#[derive(Debug, PartialEq, Eq)]
pub enum Marker {
    /// `prop_or ( expr )`: a literal default expression.
    Or { tokens: Vec<Token> },
    /// `prop_or_else ( expr )`: a default computed by an expression.
    OrElse { tokens: Vec<Token> },
    /// `prop_or_default`: the type's own default mechanism.
    OrDefault,
}

#[verifier::ext_equal]
pub enum MarkerV {
    Or { tokens: Seq<TokV> },
    OrElse { tokens: Seq<TokV> },
    OrDefault,
}

impl View for Marker {
    type V = MarkerV;

    open spec fn view(&self) -> MarkerV {
        match self {
            Marker::Or { tokens } => MarkerV::Or { tokens: crate::tokens::deep_seq(tokens@) },
            Marker::OrElse { tokens } => MarkerV::OrElse {
                tokens: crate::tokens::deep_seq(tokens@),
            },
            Marker::OrDefault => MarkerV::OrDefault,
        }
    }
}

/// One field of a property record.
#[derive(Debug, PartialEq, Eq)]
pub struct FieldDef {
    pub name: String,
    pub ty: Vec<Token>,
    pub markers: Vec<Marker>,
    pub pos: usize,
}

#[verifier::ext_equal]
pub struct FieldV {
    pub name: Seq<char>,
    pub ty: Seq<TokV>,
    pub markers: Seq<MarkerV>,
    pub pos: int,
}

pub open spec fn markers_view(ms: Seq<Marker>) -> Seq<MarkerV> {
    Seq::new(ms.len(), |i: int| ms[i]@)
}

impl View for FieldDef {
    type V = FieldV;

    open spec fn view(&self) -> FieldV {
        FieldV {
            name: self.name@,
            ty: crate::tokens::deep_seq(self.ty@),
            markers: markers_view(self.markers@),
            pos: self.pos as int,
        }
    }
}

pub open spec fn fields_view(fs: Seq<FieldDef>) -> Seq<FieldV> {
    Seq::new(fs.len(), |i: int| fs[i]@)
}

/// A field is required exactly when it carries no default-policy marker.
pub open spec fn is_required(f: FieldV) -> bool {
    f.markers.len() == 0
}

/// One "conflicting default" diagnostic for every field carrying two or more
/// markers, in field order; a field with at most one marker contributes
/// nothing.
pub open spec fn spec_conflicts(fs: Seq<FieldV>, k: int) -> Seq<DiagV>
    decreases fs.len() - k,
{
    if !(0 <= k < fs.len()) {
        Seq::empty()
    } else {
        let rest = spec_conflicts(fs, k + 1);
        if fs[k].markers.len() >= 2 {
            seq![dg(fs[k].pos, "conflicting default for field "@ + fs[k].name)] + rest
        } else {
            rest
        }
    }
}

/// How many fields from `k` on carry two or more markers.
pub open spec fn count_conflicted(fs: Seq<FieldV>, k: int) -> nat
    decreases fs.len() - k,
{
    if !(0 <= k < fs.len()) {
        0
    } else {
        (if fs[k].markers.len() >= 2 {
            1nat
        } else {
            0nat
        }) + count_conflicted(fs, k + 1)
    }
}

/// The conflict check reports one diagnostic per conflicted field: its
/// length is exactly the number of fields carrying two or more markers.
pub proof fn lemma_conflicts_count(fs: Seq<FieldV>, k: int)
    ensures
        spec_conflicts(fs, k).len() == count_conflicted(fs, k),
    decreases fs.len() - k,
{
    if 0 <= k < fs.len() {
        lemma_conflicts_count(fs, k + 1);
    }
}

/// The first assigned value for `name`, if any.
pub open spec fn spec_assigned(assigns: Seq<AttrV>, name: Seq<char>, k: int) -> Option<AttrValueV>
    decreases assigns.len() - k,
{
    if !(0 <= k < assigns.len()) {
        None
    } else if assigns[k].name == name {
        Some(assigns[k].value)
    } else {
        spec_assigned(assigns, name, k + 1)
    }
}

/// One "missing required field" diagnostic, naming the field, for every
/// required field left unset, in field order.
pub open spec fn spec_missing(fs: Seq<FieldV>, assigns: Seq<AttrV>, k: int) -> Seq<DiagV>
    decreases fs.len() - k,
{
    if !(0 <= k < fs.len()) {
        Seq::empty()
    } else {
        let rest = spec_missing(fs, assigns, k + 1);
        if is_required(fs[k]) && spec_assigned(assigns, fs[k].name, 0) is None {
            seq![dg(fs[k].pos, "missing required field "@ + fs[k].name)] + rest
        } else {
            rest
        }
    }
}

/// Appends the field's name to a fixed message.
fn named_diag(pos: usize, prefix: &str, name: &String) -> (r: Diagnostic)
    ensures
        r@ == dg(pos as int, prefix@ + name@),
{
    let mut m = prefix.to_owned();
    m.append(name.as_str());
    Diagnostic { pos, msg: m }
}

/// Conflict check; see [`spec_conflicts`]. A field with two or more markers
/// yields exactly one diagnostic, never a silent pick of either default.
pub fn check_conflicts(fields: &Vec<FieldDef>, k: usize) -> (r: Vec<Diagnostic>)
    requires
        k <= fields@.len(),
    ensures
        diags_view(r@) == spec_conflicts(fields_view(fields@), k as int),
    decreases fields@.len() - k,
{
    if k >= fields.len() {
        proof {
            assert(diags_view(Seq::<Diagnostic>::empty()) =~= Seq::<DiagV>::empty());
        }
        Vec::new()
    } else {
        let rest = check_conflicts(fields, k + 1);
        if fields[k].markers.len() >= 2 {
            let d = named_diag(fields[k].pos, "conflicting default for field ", &fields[k].name);
            let mut out = vec![d];
            let mut restv = rest;
            out.append(&mut restv);
            proof {
                assert(diags_view(out@) =~= spec_conflicts(fields_view(fields@), k as int));
            }
            out
        } else {
            rest
        }
    }
}

/// First-match lookup of an assignment; see [`spec_assigned`].
pub fn find_assigned(assigns: &Vec<crate::ast::Attr>, name: &String, k: usize) -> (r: Option<
    crate::ast::AttrValue,
>)
    requires
        k <= assigns@.len(),
    ensures
        ({
            let s = spec_assigned(crate::ast::attrs_view(assigns@), name@, k as int);
            match r {
                Some(v) => s == Some(crate::ast::attr_value_view(v)),
                None => s is None,
            }
        }),
    decreases assigns@.len() - k,
{
    if k >= assigns.len() {
        None
    } else if assigns[k].name == *name {
        Some(assigns[k].value.dup())
    } else {
        find_assigned(assigns, name, k + 1)
    }
}

/// Missing-required check; see [`spec_missing`]. A required field left unset
/// is rejected before construction, never silently defaulted.
pub fn check_missing(fields: &Vec<FieldDef>, assigns: &Vec<crate::ast::Attr>, k: usize) -> (r: Vec<
    Diagnostic,
>)
    requires
        k <= fields@.len(),
    ensures
        diags_view(r@) == spec_missing(
            fields_view(fields@),
            crate::ast::attrs_view(assigns@),
            k as int,
        ),
    decreases fields@.len() - k,
{
    if k >= fields.len() {
        proof {
            assert(diags_view(Seq::<Diagnostic>::empty()) =~= Seq::<DiagV>::empty());
        }
        Vec::new()
    } else {
        let rest = check_missing(fields, assigns, k + 1);
        let required = fields[k].markers.len() == 0;
        let assigned = find_assigned(assigns, &fields[k].name, 0);
        if required && assigned.is_none() {
            let d = named_diag(fields[k].pos, "missing required field ", &fields[k].name);
            let mut out = vec![d];
            let mut restv = rest;
            out.append(&mut restv);
            proof {
                assert(diags_view(out@) =~= spec_missing(
                    fields_view(fields@),
                    crate::ast::attrs_view(assigns@),
                    k as int,
                ));
            }
            out
        } else {
            rest
        }
    }
}

} // verus!
