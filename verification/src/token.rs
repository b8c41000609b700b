//! The output value type: a classification tag plus a source range.

use vstd::prelude::*;

verus! {

/// A source location: 1-based line and column.
///
/// Column ranges are end-exclusive: a range covers the columns
/// `start.column .. end.column` on `start.line .. end.line`.
#[derive(Clone, Copy, PartialEq, Eq, Structural, Debug)]
pub struct Pos {
    pub line: usize,
    pub column: usize,
}

/// A source range: an ordered pair of positions, start at or before end.
#[derive(Clone, Copy, PartialEq, Eq, Structural, Debug)]
pub struct SourceInfo {
    pub start: Pos,
    pub end: Pos,
}

/// Classification tags understood by the highlighting consumer.
///
/// The set is closed: it must match a legend declared once at server
/// startup, outside this library.
#[derive(Clone, Copy, PartialEq, Eq, Structural, Debug)]
pub enum TokenType {
    /// The HTTP method.
    Method,
    /// A source code comment.
    Comment,
    /// A literal fragment of a templated string.
    String,
    /// A variable between `{{` and `}}`.
    Variable,
    /// A section name, like `[Asserts]` or `[Basic auth]`.
    SectionName,
}

/// One semantic token of the output stream: a classified source range.
#[derive(Clone, Copy, PartialEq, Eq, Structural, Debug)]
pub struct Token {
    pub token_type: TokenType,
    pub source_info: SourceInfo,
}

/// `a` is at or before `b` in document order.
pub open spec fn pos_le(a: Pos, b: Pos) -> bool {
    a.line < b.line || (a.line == b.line && a.column <= b.column)
}

/// A well-formed range: 1-based coordinates, start at or before end.
pub open spec fn range_wf(r: SourceInfo) -> bool {
    &&& 1 <= r.start.line
    &&& 1 <= r.start.column
    &&& 1 <= r.end.line
    &&& 1 <= r.end.column
    &&& pos_le(r.start, r.end)
}

impl SourceInfo {
    /// Build a range from its four coordinates.
    pub fn new(start_line: usize, start_column: usize, end_line: usize, end_column: usize) -> (r: SourceInfo)
        ensures
            r == (SourceInfo {
                start: Pos { line: start_line, column: start_column },
                end: Pos { line: end_line, column: end_column },
            }),
    {
        SourceInfo {
            start: Pos { line: start_line, column: start_column },
            end: Pos { line: end_line, column: end_column },
        }
    }
}

impl Token {
    /// Build a token; the producing classification rule is responsible for
    /// handing in a well-formed range.
    pub fn new(token_type: TokenType, source_info: SourceInfo) -> (r: Token)
        ensures
            r == (Token { token_type, source_info }),
    {
        Token { token_type, source_info }
    }
}

} // verus!
