//! The dialog capability.
//!
//! A marker for the host's windowing capability (alert, confirm, prompt).
//! The calls themselves are browser I/O made by the surrounding shim; the
//! compiler core never performs them.

use vstd::prelude::*;

verus! {

/// A dialog service.
#[derive(Debug, Default)]
pub struct DialogService {}

} // verus!
