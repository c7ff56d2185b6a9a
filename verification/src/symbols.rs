//! Document symbols: the declarations of a file as a forest, held flat in
//! document order with parent links, the same arena shape as the syntax
//! tree itself.

use vstd::prelude::*;
use vstd::string::StringExecFns;
use crate::kind::{kind_of_str, NodeKind};
use crate::tree::{
    children_of, first_matching, first_matching_from, is_identifier_at, is_scoped_name_at,
    kind_at_is, nth_child, parent_of, spec_first_child_of_kind, text_at, first_child_of_kind,
    tree_wf, NodeV, SyntaxTree,
};
use crate::types::{node_range, spec_node_range, Range, RangeV};

verus! {

/// What kind of symbol a declaration is shown as.
#[derive(Debug, Clone, Copy, PartialEq, Eq, Structural)]
pub enum SymbolKind {
    Module,
    Class,
    Struct,
    Enum,
    Field,
    EnumMember,
}

/// One document symbol.  The forest is flat: `parent` is the index, in the
/// collected list, of the enclosing symbol; a top-level symbol holds its
/// own index.
#[derive(Debug, Clone)]
pub struct DocumentSymbol {
    pub name: String,
    pub detail: Option<String>,
    pub kind: SymbolKind,
    pub range: Range,
    pub selection_range: Range,
    pub parent: usize,
}

/// The symbol kind a node is shown as, if any: modules, type aliases and
/// newtypes, structs, unions and annotation declarations are symbols, and a
/// field is one according to the declaration two levels above it.
pub open spec fn spec_symbol_kind(v: Seq<NodeV>, i: int) -> Option<SymbolKind> {
    match kind_of_str(v[i].kind) {
        NodeKind::ModuleDefinition => Some(SymbolKind::Module),
        NodeKind::TypeDefinition => Some(SymbolKind::Class),
        NodeKind::NewtypeDefinition => Some(SymbolKind::Class),
        NodeKind::StructDefinition => Some(SymbolKind::Struct),
        NodeKind::UnionDefinition => Some(SymbolKind::Enum),
        NodeKind::AnnotationDeclaration => Some(SymbolKind::Struct),
        NodeKind::Field => {
            if i != 0 && v[i].parent != 0 {
                let gp = v[v[i].parent].parent;
                if v[gp].kind == "struct_definition"@ {
                    Some(SymbolKind::Field)
                } else if v[gp].kind == "union_definition"@ {
                    Some(SymbolKind::EnumMember)
                } else {
                    None
                }
            } else {
                Some(SymbolKind::Field)
            }
        },
        _ => None,
    }
}

/// Whether node `i` appears in the symbol list.
pub open spec fn symbol_node(v: Seq<NodeV>, i: int) -> bool {
    i != 0 && spec_symbol_kind(v, i) is Some
}

/// The symbol nodes among the first `n`, in document order.
pub open spec fn symbol_nodes_upto(v: Seq<NodeV>, n: int) -> Seq<int>
    decreases n,
{
    if n <= 0 {
        Seq::empty()
    } else if symbol_node(v, n - 1) {
        symbol_nodes_upto(v, n - 1).push(n - 1)
    } else {
        symbol_nodes_upto(v, n - 1)
    }
}

/// Whether `i` stands on the ancestor chain of `j`, itself included.
pub open spec fn is_under(v: Seq<NodeV>, j: int, i: int) -> bool
    decreases j,
    when tree_wf(v) && 0 <= j < v.len()
{
    if j == i {
        true
    } else if j == 0 {
        false
    } else {
        is_under(v, v[j].parent, i)
    }
}

/// The spec closure for the name-carrying descendants of `i`.
pub open spec fn name_site_pred(i: int) -> spec_fn(Seq<NodeV>, int) -> bool {
    |v: Seq<NodeV>, j: int|
        j != i && is_under(v, j, i) && (is_identifier_at(v, j) || is_scoped_name_at(v, j))
}

/// A symbol's name: the text of the first identifier or scoped name below
/// it, in document order; a symbol with none shows as unknown.
pub open spec fn spec_symbol_name(v: Seq<NodeV>, i: int) -> Seq<char> {
    match first_matching(v, name_site_pred(i)) {
        Some(j) => v[j].text,
        None => "unknown"@,
    }
}

/// A symbol's detail: the text of the type expression directly under a type
/// alias, newtype or field.
pub open spec fn spec_symbol_detail(v: Seq<NodeV>, i: int) -> Option<Seq<char>> {
    if v[i].kind == "type_definition"@ || v[i].kind == "newtype_definition"@ || v[i].kind
        == "field"@ {
        match spec_first_child_of_kind(v, i, "type_expression"@) {
            Some(c) => if 0 <= c < v.len() {
                Some(v[c].text)
            } else {
                None
            },
            None => None,
        }
    } else {
        None
    }
}

/// The selection range found by descending first children to an
/// identifier, if that descent meets one.
pub open spec fn sel_opt(v: Seq<NodeV>, i: int) -> Option<RangeV>
    decreases v.len() - i,
    when tree_wf(v) && 0 <= i < v.len()
{
    let ch = children_of(v, i);
    if ch.len() == 0 {
        None
    } else {
        let c = ch[0];
        if !(i < c < v.len()) {
            None
        } else if is_identifier_at(v, c) {
            Some(spec_node_range(v, c))
        } else {
            sel_opt(v, c)
        }
    }
}

/// A symbol's selection range: its identifier's span when the first-child
/// descent finds one, else the symbol's whole span.
pub open spec fn spec_selection_range(v: Seq<NodeV>, i: int) -> RangeV {
    match sel_opt(v, i) {
        Some(r) => r,
        None => spec_node_range(v, i),
    }
}

/// The nearest symbol node strictly above `i`, if any.
pub open spec fn nearest_symbol_ancestor(v: Seq<NodeV>, i: int) -> Option<int>
    decreases i,
    when tree_wf(v) && 0 <= i < v.len()
{
    if i == 0 {
        None
    } else {
        let p = v[i].parent;
        if symbol_node(v, p) {
            Some(p)
        } else {
            nearest_symbol_ancestor(v, p)
        }
    }
}

fn exec_symbol_kind(t: &SyntaxTree, i: usize) -> (r: Option<SymbolKind>)
    requires
        t.wf(),
        i < t@.len(),
    ensures
        r == spec_symbol_kind(t@, i as int),
{
    match NodeKind::from_str(t.nodes[i].kind.as_str()) {
        NodeKind::ModuleDefinition => Some(SymbolKind::Module),
        NodeKind::TypeDefinition => Some(SymbolKind::Class),
        NodeKind::NewtypeDefinition => Some(SymbolKind::Class),
        NodeKind::StructDefinition => Some(SymbolKind::Struct),
        NodeKind::UnionDefinition => Some(SymbolKind::Enum),
        NodeKind::AnnotationDeclaration => Some(SymbolKind::Struct),
        NodeKind::Field => {
            let p = parent_of(t, i);
            if i != 0 && p != 0 {
                let gp = parent_of(t, p);
                if kind_at_is(t, gp, "struct_definition") {
                    Some(SymbolKind::Field)
                } else if kind_at_is(t, gp, "union_definition") {
                    Some(SymbolKind::EnumMember)
                } else {
                    None
                }
            } else {
                Some(SymbolKind::Field)
            }
        },
        _ => None,
    }
}

fn exec_is_under(t: &SyntaxTree, j: usize, i: usize) -> (r: bool)
    requires
        t.wf(),
        j < t@.len(),
    ensures
        r == is_under(t@, j as int, i as int),
{
    let mut cur = j;
    loop
        invariant
            t.wf(),
            cur < t@.len(),
            is_under(t@, j as int, i as int) == is_under(t@, cur as int, i as int),
        decreases cur,
    {
        if cur == i {
            return true;
        }
        if cur == 0 {
            return false;
        }
        cur = parent_of(t, cur);
    }
}

fn exec_symbol_name(t: &SyntaxTree, i: usize) -> (r: String)
    requires
        t.wf(),
        i < t@.len(),
    ensures
        r@ == spec_symbol_name(t@, i as int),
{
    let n = t.len();
    let mut j: usize = 0;
    while j < n
        invariant
            t.wf(),
            i < n,
            j <= n,
            n == t@.len(),
            first_matching(t@, name_site_pred(i as int)) == first_matching_from(
                t@,
                name_site_pred(i as int),
                j as int,
            ),
        decreases n - j,
    {
        let hit = j != i && exec_is_under(t, j, i) && (kind_at_is(t, j, "identifier")
            || kind_at_is(t, j, "scoped_name"));
        proof {
            assert(name_site_pred(i as int)(t@, j as int) == hit);
        }
        if hit {
            return text_at(t, j);
        }
        j += 1;
    }
    String::from_str("unknown")
}

fn exec_selection_range(t: &SyntaxTree, i: usize) -> (r: Range)
    requires
        t.wf(),
        i < t@.len(),
    ensures
        r@ == spec_selection_range(t@, i as int),
{
    let mut cur = i;
    loop
        invariant
            t.wf(),
            i < t@.len(),
            cur < t@.len(),
            sel_opt(t@, i as int) == sel_opt(t@, cur as int),
        decreases t@.len() - cur,
    {
        match nth_child(t, cur, 0) {
            None => {
                return node_range(t, i);
            },
            Some(c) => {
                proof {
                    crate::tree::lemma_kids_elements(t@, cur as int, t@.len() as int);
                    assert(crate::tree::is_child_of(
                        t@,
                        children_of(t@, cur as int)[0],
                        cur as int,
                    ));
                    assert(t@[c as int].parent == cur as int);
                    assert((cur as int) < c as int);
                }
                if kind_at_is(t, c, "identifier") {
                    return node_range(t, c);
                }
                cur = c;
            },
        }
    }
}

fn exec_nearest_symbol_ancestor(t: &SyntaxTree, i: usize) -> (r: Option<usize>)
    requires
        t.wf(),
        i < t@.len(),
    ensures
        match r {
            Some(a) => a < t@.len() && a < i && nearest_symbol_ancestor(t@, i as int) == Some(
                a as int,
            ),
            None => nearest_symbol_ancestor(t@, i as int) is None,
        },
{
    let mut cur = i;
    loop
        invariant
            t.wf(),
            cur <= i,
            cur < t@.len(),
            nearest_symbol_ancestor(t@, i as int) == nearest_symbol_ancestor(t@, cur as int),
        decreases cur,
    {
        if cur == 0 {
            return None;
        }
        let p = parent_of(t, cur);
        let symp = match exec_symbol_kind(t, p) {
            Some(_) => p != 0,
            None => false,
        };
        if symp {
            return Some(p);
        }
        cur = p;
    }
}

/// Whether `syms` is exactly the symbol forest of the tree `v`: one entry
/// per symbol node in document order, each showing its declaration's name,
/// detail, kind and spans, and pointing at the entry of its nearest
/// enclosing symbol — at itself when it is top-level.
pub open spec fn symbols_match(v: Seq<NodeV>, syms: Seq<DocumentSymbol>) -> bool {
    &&& syms.len() == symbol_nodes_upto(v, v.len() as int).len()
    &&& forall|j: int|
        0 <= j < syms.len() ==> {
            let i = symbol_nodes_upto(v, v.len() as int)[j];
            &&& (#[trigger] syms[j]).name@ == spec_symbol_name(v, i)
            &&& (match syms[j].detail {
                Some(d) => spec_symbol_detail(v, i) == Some(d@),
                None => spec_symbol_detail(v, i) is None,
            })
            &&& Some(syms[j].kind) == spec_symbol_kind(v, i)
            &&& syms[j].range@ == spec_node_range(v, i)
            &&& syms[j].selection_range@ == spec_selection_range(v, i)
            &&& (match nearest_symbol_ancestor(v, i) {
                Some(a) => syms[j].parent == symbol_nodes_upto(v, a).len(),
                None => syms[j].parent == j,
            })
        }
}

/// Every document symbol of the tree, flat in document order.  Each entry
/// shows its declaration's name, detail, kind and spans, and points at the
/// entry of its nearest enclosing symbol; a top-level entry points at
/// itself.
pub fn collect_document_symbols(t: &SyntaxTree) -> (r: Vec<DocumentSymbol>)
    requires
        t.wf(),
    ensures
        symbols_match(t@, r@),
{
    let n = t.len();
    let mut r: Vec<DocumentSymbol> = Vec::new();
    // counts[m] is how many symbol nodes stand before node m
    let mut counts: Vec<usize> = Vec::new();
    let mut i: usize = 0;
    while i < n
        invariant
            t.wf(),
            i <= n,
            n == t@.len(),
            counts@.len() == i,
            r@.len() == symbol_nodes_upto(t@, i as int).len(),
            forall|m: int|
                0 <= m < i ==> #[trigger] counts@[m] == symbol_nodes_upto(t@, m).len(),
            forall|j: int|
                0 <= j < r@.len() ==> {
                    let si = symbol_nodes_upto(t@, i as int)[j];
                    &&& (#[trigger] r@[j]).name@ == spec_symbol_name(t@, si)
                    &&& (match r@[j].detail {
                        Some(d) => spec_symbol_detail(t@, si) == Some(d@),
                        None => spec_symbol_detail(t@, si) is None,
                    })
                    &&& Some(r@[j].kind) == spec_symbol_kind(t@, si)
                    &&& r@[j].range@ == spec_node_range(t@, si)
                    &&& r@[j].selection_range@ == spec_selection_range(t@, si)
                    &&& (match nearest_symbol_ancestor(t@, si) {
                        Some(a) => r@[j].parent == symbol_nodes_upto(t@, a).len(),
                        None => r@[j].parent == j,
                    })
                },
        decreases n - i,
    {
        counts.push(r.len());
        let eligible = if i != 0 {
            exec_symbol_kind(t, i)
        } else {
            None
        };
        match eligible {
            Some(kind) => {
                let name = exec_symbol_name(t, i);
                let detail = symbol_detail(t, i);
                let range = node_range(t, i);
                let selection_range = exec_selection_range(t, i);
                let parent = match exec_nearest_symbol_ancestor(t, i) {
                    Some(a) => counts[a],
                    None => r.len(),
                };
                let ghost prev = r@;
                r.push(DocumentSymbol { name, detail, kind, range, selection_range, parent });
                proof {
                    assert(symbol_nodes_upto(t@, i + 1) =~= symbol_nodes_upto(t@, i as int).push(
                        i as int,
                    ));
                    assert forall|j: int| 0 <= j < r@.len() implies r@[j] == (if j < prev.len() {
                        prev[j]
                    } else {
                        r@[r@.len() - 1]
                    }) by {}
                }
            },
            None => {
                proof {
                    assert(symbol_nodes_upto(t@, i + 1) =~= symbol_nodes_upto(t@, i as int));
                }
            },
        }
        i += 1;
    }
    r
}

/// The detail of a symbol: the type expression directly under a type
/// alias, newtype or field.
fn symbol_detail(t: &SyntaxTree, i: usize) -> (r: Option<String>)
    requires
        t.wf(),
        i < t@.len(),
    ensures
        match r {
            Some(d) => spec_symbol_detail(t@, i as int) == Some(d@),
            None => spec_symbol_detail(t@, i as int) is None,
        },
{
    if kind_at_is(t, i, "type_definition") || kind_at_is(t, i, "newtype_definition") || kind_at_is(
        t,
        i,
        "field",
    ) {
        match first_child_of_kind(t, i, "type_expression") {
            Some(c) => Some(text_at(t, c)),
            None => None,
        }
    } else {
        None
    }
}

} // verus!
