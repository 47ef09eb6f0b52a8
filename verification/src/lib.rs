//! A minimal language-server core: it indexes document text by line,
//! maps flat character offsets to line/character positions, and turns
//! the first syntax error reported by the SPWN parser into a single
//! positioned diagnostic for an editor.

use vstd::prelude::*;

pub mod checker;
pub mod diagnostics;
pub mod line_index;
pub mod publish;

verus! {

/// A 0-based line/character position in a line-feed-normalized document.
#[derive(Clone, Copy, PartialEq, Eq, Structural, Debug)]
pub struct Position {
    pub line: usize,
    pub character: usize,
}

/// A span of the document between two positions, start first.
#[derive(Clone, Copy, PartialEq, Eq, Structural, Debug)]
pub struct Range {
    pub start: Position,
    pub end: Position,
}

} // verus!
