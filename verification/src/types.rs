//! Plain value types the queries answer with: positions, ranges, locations,
//! diagnostics and hover fragments.

use vstd::prelude::*;
use vstd::string::StringExecFns;
use crate::tree::NodeV;

verus! {

/// A zero-based line/character position.
#[derive(Debug, Clone, Copy, PartialEq, Eq, Structural)]
pub struct Position {
    pub line: u32,
    pub character: u32,
}

/// A half-open span between two positions.
#[derive(Debug, Clone, Copy, PartialEq, Eq, Structural)]
pub struct Range {
    pub start: Position,
    pub end: Position,
}

/// A document location: a file and a span in it.
#[derive(Debug, Clone)]
pub struct Location {
    pub uri: String,
    pub range: Range,
}

/// The mathematical value of a range.
pub ghost struct RangeV {
    pub start_line: int,
    pub start_col: int,
    pub end_line: int,
    pub end_col: int,
}

/// The mathematical value of a location.
pub ghost struct LocV {
    pub uri: Seq<char>,
    pub range: RangeV,
}

impl View for Range {
    type V = RangeV;

    open spec fn view(&self) -> RangeV {
        RangeV {
            start_line: self.start.line as int,
            start_col: self.start.character as int,
            end_line: self.end.line as int,
            end_col: self.end.character as int,
        }
    }
}

impl View for Location {
    type V = LocV;

    open spec fn view(&self) -> LocV {
        LocV { uri: self.uri@, range: self.range@ }
    }
}

/// The span of node `i`, as a range value.
pub open spec fn spec_node_range(v: Seq<NodeV>, i: int) -> RangeV {
    RangeV {
        start_line: v[i].start_line,
        start_col: v[i].start_col,
        end_line: v[i].end_line,
        end_col: v[i].end_col,
    }
}

/// The location of node `i` in the file `uri`.
pub open spec fn spec_node_loc(v: Seq<NodeV>, uri: Seq<char>, i: int) -> LocV {
    LocV { uri: uri, range: spec_node_range(v, i) }
}

/// How severe a diagnostic is; all are advisory.
#[derive(Debug, Clone, Copy, PartialEq, Eq, Structural)]
pub enum Severity {
    Error,
    Warning,
}

/// One collected diagnostic.
#[derive(Debug, Clone)]
pub struct Diagnostic {
    pub range: Range,
    pub severity: Severity,
    pub message: String,
}

/// The mathematical value of a diagnostic.
pub ghost struct DiagV {
    pub range: RangeV,
    pub severity: Severity,
    pub message: Seq<char>,
}

impl View for Diagnostic {
    type V = DiagV;

    open spec fn view(&self) -> DiagV {
        DiagV { range: self.range@, severity: self.severity, message: self.message@ }
    }
}

/// One hover fragment: a code block in the given language.
#[derive(Debug, Clone)]
pub struct HoverFragment {
    pub language: String,
    pub value: String,
}

/// The mathematical value of a hover fragment.
pub ghost struct HoverV {
    pub language: Seq<char>,
    pub value: Seq<char>,
}

impl View for HoverFragment {
    type V = HoverV;

    open spec fn view(&self) -> HoverV {
        HoverV { language: self.language@, value: self.value@ }
    }
}

/// The exec range covering node `i`.
pub fn node_range(t: &crate::tree::SyntaxTree, i: usize) -> (r: Range)
    requires
        i < t@.len(),
    ensures
        r@ == spec_node_range(t@, i as int),
{
    Range {
        start: Position {
            line: t.nodes[i].start_line,
            character: t.nodes[i].start_col,
        },
        end: Position { line: t.nodes[i].end_line, character: t.nodes[i].end_col },
    }
}

/// The exec location of node `i` in the file `uri`.
pub fn node_location(t: &crate::tree::SyntaxTree, uri: &str, i: usize) -> (r: Location)
    requires
        i < t@.len(),
    ensures
        r@ == spec_node_loc(t@, uri@, i as int),
{
    Location { uri: String::from_str(uri), range: node_range(t, i) }
}

} // verus!
