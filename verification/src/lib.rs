//! Compile-time template compiler: parses a JSX-like token stream into a
//! markup tree, checks its structural rules, and generates the tokens of an
//! expression that builds the corresponding runtime node graph. A companion
//! deriver turns a property record into a builder with per-field default
//! policies, and a class-list builder merges conditional class fragments into
//! one deduplicated class string.

use vstd::prelude::*;

pub mod ast;
pub mod classes;
pub mod codegen;
pub mod cursor;
pub mod diag;
pub mod dialog;
pub mod entry;
pub mod laws;
pub mod parser;
pub mod props;
pub mod tokens;

verus! {

/// True exactly when `string` starts with a lowercase ASCII letter. This
/// single-character-class test is the one disambiguation rule of the whole
/// grammar: such a name is a plain markup tag, any other name (empty, or
/// starting with anything else) is a component type path. Only the first
/// character decides — later characters never influence classification.
pub open spec fn non_capitalized_ascii_spec(s: Seq<char>) -> bool {
    &&& s.len() > 0
    &&& 'a' <= s[0] <= 'z'
}

/// Classifies a tag name: lowercase-ASCII-leading names are plain tags.
pub fn non_capitalized_ascii(string: &str) -> (r: bool)
    ensures
        r == non_capitalized_ascii_spec(string@),
{
    if string.is_empty() {
        false
    } else {
        let c = string.get_char(0);
        'a' <= c && c <= 'z'
    }
}

} // verus!
