//! Lowering of an indentation-structured source skeleton (bare names, class
//! definitions, function definitions with parameter lists) into a typed
//! abstract syntax tree.
//!
//! The pipeline has two stages. The scanner (`scan`) turns source text into a
//! tree of tagged nodes (`node`), the shape a grammar engine for this language
//! produces. The lowering stage (`lower`) walks that tree and builds the
//! `Document` / `Block` / `Line` tree (`ast`), assigning every line of a block
//! the block's one canonical indentation depth.

use vstd::prelude::*;

pub mod ast;
pub mod error;
pub mod laws;
pub mod lower;
pub mod node;
pub mod scan;

pub use ast::{Block, Bundle, Class, Document, Function, Item, Line, Part, Variables};
pub use error::{Error, Stage};
pub use scan::Grammar;

verus! {

/// Parses source text: scans it into a tagged node tree, then lowers that
/// tree into a `Document`. Returns the first failure of either stage.
pub fn parse(input: &str) -> (r: Result<Document, Error>)
    ensures
        lower::parse_result_matches(input@, r),
{
    Document::parse(input)
}

} // verus!
