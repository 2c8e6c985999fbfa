//! Where in the source a token or an error was found.

use vstd::prelude::*;

verus! {

/// A position in the source text. Only the line is tracked; lines are counted from 1.
#[derive(Debug, Clone, Copy, PartialEq, Eq, Structural)]
pub struct Location {
    pub line_number: usize,
}

} // verus!
