//! The failure taxonomy of the pipeline.

use vstd::prelude::*;

verus! {

/// The lowering stage at which a node tree failed to match the shape that
/// stage expects.
#[derive(Debug, PartialEq, Eq, Structural, Clone, Copy)]
pub enum Stage {
    Document,
    Part,
    Block,
    Line,
    Item,
    Class,
    Function,
    /// Parameter-list lowering met a node that is not a `Variable`; the
    /// tokenizer contract never produces such a list, so this marks a fatal
    /// internal inconsistency.
    Arguments,
}

/// A failure of parsing.
#[derive(Debug, PartialEq)]
pub enum Error {
    /// The scanner rejected the text at the character level. The payload is
    /// the char offset of the start of the line it could not read, or the
    /// text's length when the last line has no terminating line break.
    Tokenize(usize),
    /// A failure described in free text. No current path produces it.
    Custom(String),
    /// Reserved for zero-content input. No current path produces it.
    Empty,
    /// The tagged node tree did not match the shape the named lowering stage
    /// expects: a contract violation between the tokenizer and the lowering,
    /// not a user input error. Also reported by the stage at which the
    /// recursion depth limit ran out.
    Grammar(Stage),
}

} // verus!
