//! Diagnostics.
//!
//! Every local parse failure is recorded as a [`Diagnostic`] and parsing goes
//! on; the recorded list is merged into one compound report only at the
//! boundary that must return a single result, so one pass surfaces every
//! mistake.

use vstd::prelude::*;

verus! {

/// One recorded error: a source span (token position) and a message.
#[derive(Debug, PartialEq, Eq)]
pub struct Diagnostic {
    pub pos: usize,
    pub msg: String,
}

/// Ghost image of a diagnostic.
pub struct DiagV {
    pub pos: int,
    pub msg: Seq<char>,
}

impl View for Diagnostic {
    type V = DiagV;

    open spec fn view(&self) -> DiagV {
        DiagV { pos: self.pos as int, msg: self.msg@ }
    }
}

/// The ghost image of a diagnostic list.
pub open spec fn diags_view(ds: Seq<Diagnostic>) -> Seq<DiagV> {
    Seq::new(ds.len(), |i: int| ds[i]@)
}

impl Diagnostic {
    /// Build a diagnostic from a fixed message.
    pub fn new(pos: usize, msg: &str) -> (r: Diagnostic)
        ensures
            r@.pos == pos as int,
            r@.msg == msg@,
    {
        Diagnostic { pos, msg: msg.to_owned() }
    }
}

/// A compound report: every individual error, in the order recorded.
#[derive(Debug, PartialEq, Eq)]
pub struct CompoundDiagnostic {
    pub errors: Vec<Diagnostic>,
}

impl View for CompoundDiagnostic {
    type V = Seq<DiagV>;

    open spec fn view(&self) -> Seq<DiagV> {
        diags_view(self.errors@)
    }
}

/// Merges zero or more recorded errors into one result: an empty list means
/// the whole parse succeeded, a non-empty list becomes a single compound
/// report that keeps every message and span in order.
pub fn join_errors(errors: Vec<Diagnostic>) -> (r: Result<(), CompoundDiagnostic>)
    ensures
        errors@.len() == 0 <==> r is Ok,
        r matches Err(c) ==> c@ == diags_view(errors@),
{
    if errors.len() == 0 {
        Ok(())
    } else {
        Err(CompoundDiagnostic { errors })
    }
}

} // verus!
