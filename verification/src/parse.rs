//! Parsing source text into the arena tree.
//!
//! The grammar-driven parser is an opaque external component: given source
//! text it returns an immutable tree of typed nodes with line/column spans,
//! which is copied node for node, in preorder, into a [`SyntaxTree`] arena.

use vstd::prelude::*;
use crate::tree::{NodeV, SyntaxNode, SyntaxTree};

verus! {

#[verifier::external_type_specification]
#[verifier::external_body]
pub struct ExNode<'a>(tree_sitter::Node<'a>);

/// What parsing a given text yields: the same text always parses to the same
/// arena, or always to nothing.
pub uninterp spec fn parse_outcome(text: Seq<char>) -> Option<Seq<NodeV>>;

/// Relies on `tree_sitter::Node`'s accessors — `kind`, `child`,
/// `child_count`, `start_position`, `end_position`, `is_missing`,
/// `utf8_text` — to copy the parsed tree into an arena, walking depth first
/// with children stacked in reverse, so nodes are numbered in preorder:
/// every parent is copied before its children and document order is index
/// order, which is what the arena's well-formedness states.
#[verifier::external_body]
fn tree_to_arena(root: tree_sitter::Node<'_>, text: &str) -> (r: SyntaxTree)
    ensures
        r.wf(),
{
    let mut nodes: Vec<SyntaxNode> = Vec::new();
    let mut stack = vec![(root, 0usize)];
    while let Some((n, parent)) = stack.pop() {
        let (i, s, e) = (nodes.len(), n.start_position(), n.end_position());
        nodes.push(SyntaxNode::make(n.kind().to_string(), parent, s.row as u32, s.column as u32, e.row as u32, e.column as u32, n.is_missing(), n.utf8_text(text.as_bytes()).unwrap_or("").to_string()));
        let mut k = n.child_count();
        while k > 0 { k -= 1; stack.push((n.child(k).unwrap(), i)); }
    }
    SyntaxTree { nodes }
}

/// Relies on `tree_sitter::Parser::parse` with the `tree_sitter_adl`
/// grammar: parsing is deterministic in the source text, so the same text
/// always gives the same arena.  Aborts only if the grammar library itself
/// cannot be loaded.
#[verifier::external_body]
pub fn parse_adl(text: &str) -> (r: Option<SyntaxTree>)
    ensures
        match r {
            Some(t) => parse_outcome(text@) == Some(t@) && t.wf(),
            None => parse_outcome(text@) is None,
        },
{
    let mut parser = tree_sitter::Parser::new();
    parser.set_language(&tree_sitter_adl::LANGUAGE.into()).expect("the ADL grammar must load");
    match parser.parse(text.as_bytes(), None) {
        Some(ts) => Some(tree_to_arena(ts.root_node(), text)),
        None => None,
    }
}

} // verus!
