//! The syntax tree, held as an arena of nodes in document order.
//!
//! Nodes are numbered in preorder, so an index walk from `0` to `len` visits
//! the document in order, every child has a larger index than its parent, and
//! ancestor walks strictly decrease the index.  Each node keeps its raw
//! grammar kind string, its parent index (the root points at itself), its
//! line/column span, whether the parser synthesised it for a missing token,
//! and the source text it covers.

use vstd::prelude::*;
use vstd::string::StringExecFns;
use crate::text::str_eq;

verus! {

pub struct SyntaxNode {
    /// Raw grammar kind string, e.g. `module_definition` or `;`.
    pub kind: String,
    /// Index of the parent node; the root holds its own index.
    pub parent: usize,
    pub start_line: u32,
    pub start_col: u32,
    pub end_line: u32,
    pub end_col: u32,
    /// True for a zero-width node the parser inserted for a missing token.
    pub missing: bool,
    /// The source text this node spans.
    pub text: String,
}

/// The mathematical value of one node.
pub ghost struct NodeV {
    pub kind: Seq<char>,
    pub parent: int,
    pub start_line: int,
    pub start_col: int,
    pub end_line: int,
    pub end_col: int,
    pub missing: bool,
    pub text: Seq<char>,
}

impl View for SyntaxNode {
    type V = NodeV;

    open spec fn view(&self) -> NodeV {
        NodeV {
            kind: self.kind@,
            parent: self.parent as int,
            start_line: self.start_line as int,
            start_col: self.start_col as int,
            end_line: self.end_line as int,
            end_col: self.end_col as int,
            missing: self.missing,
            text: self.text@,
        }
    }
}

impl SyntaxNode {
    /// A node from its parts.
    pub fn make(
        kind: String,
        parent: usize,
        start_line: u32,
        start_col: u32,
        end_line: u32,
        end_col: u32,
        missing: bool,
        text: String,
    ) -> (r: SyntaxNode)
        ensures
            r@ == (NodeV {
                kind: kind@,
                parent: parent as int,
                start_line: start_line as int,
                start_col: start_col as int,
                end_line: end_line as int,
                end_col: end_col as int,
                missing: missing,
                text: text@,
            }),
    {
        SyntaxNode { kind, parent, start_line, start_col, end_line, end_col, missing, text }
    }
}

pub struct SyntaxTree {
    pub nodes: Vec<SyntaxNode>,
}

impl View for SyntaxTree {
    type V = Seq<NodeV>;

    open spec fn view(&self) -> Seq<NodeV> {
        self.nodes@.map_values(|n: SyntaxNode| n@)
    }
}

/// Well-formedness of an arena: non-empty, the root is node `0` and points at
/// itself, and every other node's parent stands strictly before it.
pub open spec fn tree_wf(v: Seq<NodeV>) -> bool {
    &&& v.len() >= 1
    &&& v[0].parent == 0
    &&& forall|i: int| 1 <= i < v.len() ==> 0 <= #[trigger] v[i].parent < i
}

impl SyntaxTree {
    pub open spec fn wf(&self) -> bool {
        tree_wf(self@)
    }

    /// Number of nodes.
    pub fn len(&self) -> (r: usize)
        ensures
            r == self@.len(),
    {
        self.nodes.len()
    }
}

/// Whether node `i` has the raw kind `k`.
pub fn kind_at_is(t: &SyntaxTree, i: usize, k: &str) -> (r: bool)
    requires
        i < t@.len(),
    ensures
        r == (t@[i as int].kind == k@),
{
    str_eq(t.nodes[i].kind.as_str(), k)
}

/// The text of node `i`, as an owned string.
pub fn text_at(t: &SyntaxTree, i: usize) -> (r: String)
    requires
        i < t@.len(),
    ensures
        r@ == t@[i as int].text,
{
    String::from_str(t.nodes[i].text.as_str())
}

/// The parent index of node `i`.
pub fn parent_of(t: &SyntaxTree, i: usize) -> (r: usize)
    requires
        i < t@.len(),
    ensures
        r == t@[i as int].parent,
{
    t.nodes[i].parent
}

// ---------------------------------------------------------------------------
// Node classification (structural, over the raw kind string)
// ---------------------------------------------------------------------------

pub open spec fn is_identifier_at(v: Seq<NodeV>, i: int) -> bool {
    v[i].kind == "identifier"@
}

pub open spec fn is_scoped_name_at(v: Seq<NodeV>, i: int) -> bool {
    v[i].kind == "scoped_name"@
}

pub open spec fn is_type_name_at(v: Seq<NodeV>, i: int) -> bool {
    v[i].kind == "type_name"@
}

/// A user-defined name: an identifier, a dotted scoped name, or a local type
/// name node.
pub open spec fn is_user_defined_name_at(v: Seq<NodeV>, i: int) -> bool {
    is_identifier_at(v, i) || is_type_name_at(v, i) || is_scoped_name_at(v, i)
}

/// A local definition: a type, newtype, struct or union definition.
pub open spec fn is_local_definition_at(v: Seq<NodeV>, i: int) -> bool {
    ||| v[i].kind == "type_definition"@
    ||| v[i].kind == "newtype_definition"@
    ||| v[i].kind == "struct_definition"@
    ||| v[i].kind == "union_definition"@
}

pub open spec fn is_import_declaration_at(v: Seq<NodeV>, i: int) -> bool {
    v[i].kind == "import_declaration"@
}

pub open spec fn is_module_definition_at(v: Seq<NodeV>, i: int) -> bool {
    v[i].kind == "module_definition"@
}

/// A node that marks a definition site: an import declaration or a type name.
pub open spec fn is_definition_mark_at(v: Seq<NodeV>, i: int) -> bool {
    is_import_declaration_at(v, i) || is_type_name_at(v, i)
}

/// Whether node `i` is an identifier whose immediate parent is a scoped name.
pub open spec fn has_scoped_name_parent_at(v: Seq<NodeV>, i: int) -> bool {
    is_identifier_at(v, i) && i != 0 && is_scoped_name_at(v, v[i].parent)
}

/// Whether node `i` can be the target of a reference: an identifier whose
/// immediate parent is a local type name.  Field names are deliberately not
/// reference targets.
pub open spec fn can_be_referenced_at(v: Seq<NodeV>, i: int) -> bool {
    is_identifier_at(v, i) && i != 0 && is_type_name_at(v, v[i].parent)
}

pub fn exec_is_user_defined_name(t: &SyntaxTree, i: usize) -> (r: bool)
    requires
        i < t@.len(),
    ensures
        r == is_user_defined_name_at(t@, i as int),
{
    kind_at_is(t, i, "identifier") || kind_at_is(t, i, "type_name") || kind_at_is(
        t,
        i,
        "scoped_name",
    )
}

pub fn exec_is_local_definition(t: &SyntaxTree, i: usize) -> (r: bool)
    requires
        i < t@.len(),
    ensures
        r == is_local_definition_at(t@, i as int),
{
    kind_at_is(t, i, "type_definition") || kind_at_is(t, i, "newtype_definition") || kind_at_is(
        t,
        i,
        "struct_definition",
    ) || kind_at_is(t, i, "union_definition")
}

pub fn exec_has_scoped_name_parent(t: &SyntaxTree, i: usize) -> (r: bool)
    requires
        i < t@.len(),
        t.wf(),
    ensures
        r == has_scoped_name_parent_at(t@, i as int),
{
    kind_at_is(t, i, "identifier") && i != 0 && kind_at_is(t, parent_of(t, i), "scoped_name")
}

pub fn exec_can_be_referenced(t: &SyntaxTree, i: usize) -> (r: bool)
    requires
        i < t@.len(),
        t.wf(),
    ensures
        r == can_be_referenced_at(t@, i as int),
{
    kind_at_is(t, i, "identifier") && i != 0 && kind_at_is(t, parent_of(t, i), "type_name")
}

// ---------------------------------------------------------------------------
// Ancestor walks
// ---------------------------------------------------------------------------

/// The nearest node of kind `k` among `i` and its ancestors.
pub open spec fn self_or_ancestor_of_kind(v: Seq<NodeV>, i: int, k: Seq<char>) -> Option<int>
    decreases i,
    when tree_wf(v) && 0 <= i < v.len()
{
    if v[i].kind == k {
        Some(i)
    } else if i == 0 {
        None
    } else {
        self_or_ancestor_of_kind(v, v[i].parent, k)
    }
}

/// Whether `i` or one of its ancestors marks a definition site.
pub open spec fn is_from_definition_at(v: Seq<NodeV>, i: int) -> bool
    decreases i,
    when tree_wf(v) && 0 <= i < v.len()
{
    if is_definition_mark_at(v, i) {
        true
    } else if i == 0 {
        false
    } else {
        is_from_definition_at(v, v[i].parent)
    }
}

/// Whether `i` or one of its ancestors is an import declaration; the nearest
/// such declaration when there is one.
pub open spec fn import_ancestor_at(v: Seq<NodeV>, i: int) -> Option<int> {
    self_or_ancestor_of_kind(v, i, "import_declaration"@)
}

/// Nearest node of kind `k` among `i` and its ancestors.
pub fn exec_self_or_ancestor_of_kind(t: &SyntaxTree, i: usize, k: &str) -> (r: Option<usize>)
    requires
        t.wf(),
        i < t@.len(),
    ensures
        match r {
            Some(a) => a < t@.len() && self_or_ancestor_of_kind(t@, i as int, k@) == Some(
                a as int,
            ),
            None => self_or_ancestor_of_kind(t@, i as int, k@) is None,
        },
{
    let mut j = i;
    loop
        invariant
            t.wf(),
            j < t@.len(),
            self_or_ancestor_of_kind(t@, i as int, k@) == self_or_ancestor_of_kind(
                t@,
                j as int,
                k@,
            ),
        decreases j,
    {
        if kind_at_is(t, j, k) {
            return Some(j);
        }
        if j == 0 {
            return None;
        }
        j = parent_of(t, j);
    }
}

/// Whether `i` or one of its ancestors marks a definition site.
pub fn exec_is_from_definition(t: &SyntaxTree, i: usize) -> (r: bool)
    requires
        t.wf(),
        i < t@.len(),
    ensures
        r == is_from_definition_at(t@, i as int),
{
    let mut j = i;
    loop
        invariant
            t.wf(),
            j < t@.len(),
            is_from_definition_at(t@, i as int) == is_from_definition_at(t@, j as int),
        decreases j,
    {
        if kind_at_is(t, j, "import_declaration") || kind_at_is(t, j, "type_name") {
            return true;
        }
        if j == 0 {
            return false;
        }
        j = parent_of(t, j);
    }
}

// ---------------------------------------------------------------------------
// Children
// ---------------------------------------------------------------------------

/// Whether `j` is a child of `i`.
pub open spec fn is_child_of(v: Seq<NodeV>, j: int, i: int) -> bool {
    0 < j < v.len() && v[j].parent == i
}

/// The children of `i` among the first `n` nodes, in document order.
pub open spec fn kids_upto(v: Seq<NodeV>, i: int, n: int) -> Seq<int>
    decreases n,
{
    if n <= 0 {
        Seq::empty()
    } else if is_child_of(v, n - 1, i) {
        kids_upto(v, i, n - 1).push(n - 1)
    } else {
        kids_upto(v, i, n - 1)
    }
}

/// The children of `i`, in document order.
pub open spec fn children_of(v: Seq<NodeV>, i: int) -> Seq<int> {
    kids_upto(v, i, v.len() as int)
}

/// A node among the first `n` has at most `n - 1` children there: the root
/// is never a child.
pub proof fn lemma_kids_len(v: Seq<NodeV>, i: int, n: int)
    requires
        0 <= n,
    ensures
        kids_upto(v, i, n).len() <= n,
        n >= 1 ==> kids_upto(v, i, n).len() <= n - 1,
    decreases n,
{
    if n > 0 {
        lemma_kids_len(v, i, n - 1);
    }
}

/// Every entry of the child list is a child.
pub proof fn lemma_kids_elements(v: Seq<NodeV>, i: int, n: int)
    ensures
        forall|m: int|
            0 <= m < kids_upto(v, i, n).len() ==> is_child_of(
                v,
                #[trigger] kids_upto(v, i, n)[m],
                i,
            ),
    decreases n,
{
    if n > 0 {
        lemma_kids_elements(v, i, n - 1);
        assert forall|m: int| 0 <= m < kids_upto(v, i, n).len() implies is_child_of(
            v,
            kids_upto(v, i, n)[m],
            i,
        ) by {
            if m < kids_upto(v, i, n - 1).len() {
                assert(kids_upto(v, i, n)[m] == kids_upto(v, i, n - 1)[m]);
            }
        }
    }
}

proof fn lemma_kids_prefix(v: Seq<NodeV>, i: int, m: int, n: int)
    requires
        0 <= m <= n,
    ensures
        kids_upto(v, i, m).is_prefix_of(kids_upto(v, i, n)),
        kids_upto(v, i, m).len() <= kids_upto(v, i, n).len(),
    decreases n - m,
{
    if m < n {
        lemma_kids_prefix(v, i, m, n - 1);
        assert(kids_upto(v, i, m).is_prefix_of(kids_upto(v, i, n)));
    }
}

/// The `k`-th child of node `i`, if it has that many children.
pub fn nth_child(t: &SyntaxTree, i: usize, k: usize) -> (r: Option<usize>)
    requires
        t.wf(),
        i < t@.len(),
    ensures
        match r {
            Some(j) => {
                &&& (j as int) < t@.len()
                &&& k < children_of(t@, i as int).len()
                &&& children_of(t@, i as int)[k as int] == j as int
            },
            None => children_of(t@, i as int).len() <= k,
        },
{
    let n = t.nodes.len();
    let mut j: usize = 0;
    let mut cnt: usize = 0;
    while j < n
        invariant
            t.wf(),
            i < t@.len(),
            j <= n,
            n == t@.len(),
            cnt == kids_upto(t@, i as int, j as int).len(),
            cnt <= k,
        decreases n - j,
    {
        if j != 0 && parent_of(t, j) == i {
            if cnt == k {
                proof {
                    lemma_kids_prefix(t@, i as int, j + 1, t@.len() as int);
                    assert(kids_upto(t@, i as int, j + 1).last() == j as int);
                    assert(children_of(t@, i as int)[k as int] == j as int);
                }
                return Some(j);
            }
            cnt += 1;
        }
        j += 1;
    }
    None
}

/// The last child of node `i`, if any.
pub fn last_child(t: &SyntaxTree, i: usize) -> (r: Option<usize>)
    requires
        t.wf(),
        i < t@.len(),
    ensures
        match r {
            Some(j) => {
                &&& (j as int) < t@.len()
                &&& children_of(t@, i as int).len() >= 1
                &&& children_of(t@, i as int).last() == j as int
            },
            None => children_of(t@, i as int).len() == 0,
        },
{
    let n = t.nodes.len();
    let mut j: usize = n;
    while j > 0
        invariant
            t.wf(),
            i < t@.len(),
            j <= n,
            n == t@.len(),
            kids_upto(t@, i as int, n as int) == kids_upto(t@, i as int, j as int),
        decreases j,
    {
        j -= 1;
        if j != 0 && parent_of(t, j) == i {
            return Some(j);
        }
    }
    None
}

// ---------------------------------------------------------------------------
// Index scans in document order
// ---------------------------------------------------------------------------

/// The indices below `n` that satisfy `p`, in document order.
pub open spec fn idxs_matching(v: Seq<NodeV>, p: spec_fn(Seq<NodeV>, int) -> bool, n: int) -> Seq<
    int,
>
    decreases n,
{
    if n <= 0 {
        Seq::empty()
    } else if p(v, n - 1) {
        idxs_matching(v, p, n - 1).push(n - 1)
    } else {
        idxs_matching(v, p, n - 1)
    }
}

/// All node indices that satisfy `p`, in document order.
pub open spec fn all_matching(v: Seq<NodeV>, p: spec_fn(Seq<NodeV>, int) -> bool) -> Seq<int> {
    idxs_matching(v, p, v.len() as int)
}

/// The first index at or after `j` that satisfies `p`.
pub open spec fn first_matching_from(v: Seq<NodeV>, p: spec_fn(Seq<NodeV>, int) -> bool, j: int)
    -> Option<int>
    decreases v.len() - j,
    when 0 <= j
{
    if j >= v.len() {
        None
    } else if p(v, j) {
        Some(j)
    } else {
        first_matching_from(v, p, j + 1)
    }
}

/// The first node index that satisfies `p`, in document order.
pub open spec fn first_matching(v: Seq<NodeV>, p: spec_fn(Seq<NodeV>, int) -> bool) -> Option<
    int,
> {
    first_matching_from(v, p, 0)
}

/// Every index of `s`, seen as a mathematical integer.
pub open spec fn idx_views(s: Seq<usize>) -> Seq<int> {
    s.map_values(|u: usize| u as int)
}

/// The spec closure for nodes of one raw kind.
pub open spec fn kind_pred(k: Seq<char>) -> spec_fn(Seq<NodeV>, int) -> bool {
    |v: Seq<NodeV>, i: int| v[i].kind == k
}

/// The first node of kind `k`, in document order.
pub fn first_node_of_kind(t: &SyntaxTree, k: &str) -> (r: Option<usize>)
    ensures
        match r {
            Some(j) => j < t@.len() && first_matching(t@, kind_pred(k@)) == Some(j as int),
            None => first_matching(t@, kind_pred(k@)) is None,
        },
{
    let n = t.nodes.len();
    let mut j: usize = 0;
    while j < n
        invariant
            j <= n,
            n == t@.len(),
            first_matching(t@, kind_pred(k@)) == first_matching_from(t@, kind_pred(k@), j as int),
        decreases n - j,
    {
        if kind_at_is(t, j, k) {
            return Some(j);
        }
        j += 1;
    }
    None
}

/// All nodes of kind `k`, in document order.
pub fn nodes_of_kind(t: &SyntaxTree, k: &str) -> (r: Vec<usize>)
    ensures
        idx_views(r@) == all_matching(t@, kind_pred(k@)),
        forall|m: int| 0 <= m < r@.len() ==> (#[trigger] r@[m] as int) < t@.len(),
{
    let n = t.nodes.len();
    let mut r: Vec<usize> = Vec::new();
    let mut j: usize = 0;
    proof {
        assert(idx_views(r@) =~= idxs_matching(t@, kind_pred(k@), 0));
    }
    while j < n
        invariant
            j <= n,
            n == t@.len(),
            idx_views(r@) == idxs_matching(t@, kind_pred(k@), j as int),
            forall|m: int| 0 <= m < r@.len() ==> (#[trigger] r@[m] as int) < t@.len(),
        decreases n - j,
    {
        if kind_at_is(t, j, k) {
            proof {
                assert(idx_views(r@.push(j)) =~= idx_views(r@).push(j as int));
            }
            r.push(j);
        }
        j += 1;
    }
    r
}

/// All local type, newtype, struct and union definitions, in document order.
pub fn local_definition_nodes(t: &SyntaxTree) -> (r: Vec<usize>)
    ensures
        idx_views(r@) == all_matching(t@, |v: Seq<NodeV>, i: int| is_local_definition_at(v, i)),
        forall|m: int| 0 <= m < r@.len() ==> (#[trigger] r@[m] as int) < t@.len(),
{
    let ghost p = |v: Seq<NodeV>, i: int| is_local_definition_at(v, i);
    let n = t.nodes.len();
    let mut r: Vec<usize> = Vec::new();
    let mut j: usize = 0;
    proof {
        assert(idx_views(r@) =~= idxs_matching(t@, p, 0));
    }
    while j < n
        invariant
            j <= n,
            n == t@.len(),
            p == |v: Seq<NodeV>, i: int| is_local_definition_at(v, i),
            idx_views(r@) == idxs_matching(t@, p, j as int),
            forall|m: int| 0 <= m < r@.len() ==> (#[trigger] r@[m] as int) < t@.len(),
        decreases n - j,
    {
        proof {
            assert(p(t@, j as int) == is_local_definition_at(t@, j as int));
        }
        if exec_is_local_definition(t, j) {
            proof {
                assert(idx_views(r@.push(j)) =~= idx_views(r@).push(j as int));
            }
            r.push(j);
        }
        j += 1;
    }
    r
}

// ---------------------------------------------------------------------------
// Position lookup
// ---------------------------------------------------------------------------

/// Strict document order on line/column positions.
pub open spec fn pos_lt(l1: int, c1: int, l2: int, c2: int) -> bool {
    l1 < l2 || (l1 == l2 && c1 < c2)
}

pub open spec fn pos_le(l1: int, c1: int, l2: int, c2: int) -> bool {
    l1 < l2 || (l1 == l2 && c1 <= c2)
}

/// Whether position `(l, c)` lies inside node `i`'s span: at or after its
/// start and strictly before its end.
pub open spec fn contains_pos(v: Seq<NodeV>, i: int, l: int, c: int) -> bool {
    pos_le(v[i].start_line, v[i].start_col, l, c) && pos_lt(l, c, v[i].end_line, v[i].end_col)
}

/// The first child of `i` (at or after index `j`) whose span contains the
/// position.
pub open spec fn containing_child_from(v: Seq<NodeV>, i: int, l: int, c: int, j: int) -> Option<
    int,
>
    decreases v.len() - j,
    when 0 <= j
{
    if j >= v.len() {
        None
    } else if is_child_of(v, j, i) && contains_pos(v, j, l, c) {
        Some(j)
    } else {
        containing_child_from(v, i, l, c, j + 1)
    }
}

/// The node reached by descending from `i` into the first child whose span
/// contains the position, as long as one exists.
pub open spec fn node_at_from(v: Seq<NodeV>, i: int, l: int, c: int) -> int
    decreases v.len() - i,
    when tree_wf(v) && 0 <= i < v.len()
{
    match containing_child_from(v, i, l, c, 0) {
        None => i,
        Some(j) => if i < j < v.len() {
            node_at_from(v, j, l, c)
        } else {
            i
        },
    }
}

/// The node at a position: the result of descending from the root, or `None`
/// when the root's span does not contain the position.
pub open spec fn node_at_pos(v: Seq<NodeV>, l: int, c: int) -> Option<int> {
    if v.len() > 0 && contains_pos(v, 0, l, c) {
        Some(node_at_from(v, 0, l, c))
    } else {
        None
    }
}

proof fn lemma_containing_child(v: Seq<NodeV>, i: int, l: int, c: int, j: int)
    requires
        0 <= j,
        tree_wf(v),
    ensures
        match containing_child_from(v, i, l, c, j) {
            Some(m) => j <= m < v.len() && is_child_of(v, m, i) && contains_pos(v, m, l, c) && (
            m > i || i >= v.len()),
            None => true,
        },
    decreases v.len() - j,
{
    if j < v.len() && !(is_child_of(v, j, i) && contains_pos(v, j, l, c)) {
        lemma_containing_child(v, i, l, c, j + 1);
    }
}

/// The deepest node, along first-containing children, whose span holds the
/// given position.
pub fn node_at_position(t: &SyntaxTree, line: u32, col: u32) -> (r: Option<usize>)
    requires
        t.wf(),
    ensures
        match r {
            Some(i) => {
                &&& (i as int) < t@.len()
                &&& node_at_pos(t@, line as int, col as int) == Some(i as int)
                &&& contains_pos(t@, i as int, line as int, col as int)
            },
            None => node_at_pos(t@, line as int, col as int) is None,
        },
{
    let n = t.nodes.len();
    let l = line;
    let c = col;
    if !(pos_le_exec(t.nodes[0].start_line, t.nodes[0].start_col, l, c) && pos_lt_exec(
        l,
        c,
        t.nodes[0].end_line,
        t.nodes[0].end_col,
    )) {
        return None;
    }
    let mut i: usize = 0;
    loop
        invariant
            t.wf(),
            i < n,
            n == t@.len(),
            l == line,
            c == col,
            contains_pos(t@, i as int, l as int, c as int),
            node_at_pos(t@, l as int, c as int) == Some(node_at_from(t@, i as int, l as int, c as int)),
        decreases n - i,
    {
        let found = first_containing_child(t, i, l, c);
        match found {
            None => {
                proof {
                    assert(node_at_from(t@, i as int, l as int, c as int) == i as int);
                }
                return Some(i);
            },
            Some(ch) => {
                proof {
                    lemma_containing_child(t@, i as int, l as int, c as int, 0);
                }
                i = ch;
            },
        }
    }
}

/// The first child of `i` whose span contains the position.
fn first_containing_child(t: &SyntaxTree, i: usize, l: u32, c: u32) -> (r: Option<usize>)
    requires
        t.wf(),
        i < t@.len(),
    ensures
        match r {
            Some(j) => j < t@.len() && containing_child_from(t@, i as int, l as int, c as int, 0)
                == Some(j as int),
            None => containing_child_from(t@, i as int, l as int, c as int, 0) is None,
        },
{
    let n = t.nodes.len();
    let mut j: usize = 0;
    while j < n
        invariant
            t.wf(),
            i < n,
            j <= n,
            n == t@.len(),
            containing_child_from(t@, i as int, l as int, c as int, 0) == containing_child_from(
                t@,
                i as int,
                l as int,
                c as int,
                j as int,
            ),
        decreases n - j,
    {
        if j != 0 && parent_of(t, j) == i && pos_le_exec(
            t.nodes[j].start_line,
            t.nodes[j].start_col,
            l,
            c,
        ) && pos_lt_exec(l, c, t.nodes[j].end_line, t.nodes[j].end_col) {
            return Some(j);
        }
        j += 1;
    }
    None
}

pub fn pos_le_exec(l1: u32, c1: u32, l2: u32, c2: u32) -> (r: bool)
    ensures
        r == pos_le(l1 as int, c1 as int, l2 as int, c2 as int),
{
    l1 < l2 || (l1 == l2 && c1 <= c2)
}

pub fn pos_lt_exec(l1: u32, c1: u32, l2: u32, c2: u32) -> (r: bool)
    ensures
        r == pos_lt(l1 as int, c1 as int, l2 as int, c2 as int),
{
    l1 < l2 || (l1 == l2 && c1 < c2)
}

/// The first child of `i` at or after index `j` whose kind is `k`.
pub open spec fn child_of_kind_from(v: Seq<NodeV>, i: int, k: Seq<char>, j: int) -> Option<int>
    decreases v.len() - j,
    when 0 <= j
{
    if j >= v.len() {
        None
    } else if is_child_of(v, j, i) && v[j].kind == k {
        Some(j)
    } else {
        child_of_kind_from(v, i, k, j + 1)
    }
}

/// The first child of `i` whose kind is `k`.
pub open spec fn spec_first_child_of_kind(v: Seq<NodeV>, i: int, k: Seq<char>) -> Option<int> {
    child_of_kind_from(v, i, k, 0)
}

/// The first child of `i` whose kind is `k`, if any.
pub fn first_child_of_kind(t: &SyntaxTree, i: usize, k: &str) -> (r: Option<usize>)
    requires
        t.wf(),
        i < t@.len(),
    ensures
        match r {
            Some(j) => j < t@.len() && spec_first_child_of_kind(t@, i as int, k@) == Some(
                j as int,
            ),
            None => spec_first_child_of_kind(t@, i as int, k@) is None,
        },
{
    let n = t.nodes.len();
    let mut j: usize = 0;
    while j < n
        invariant
            t.wf(),
            i < t@.len(),
            j <= n,
            n == t@.len(),
            spec_first_child_of_kind(t@, i as int, k@) == child_of_kind_from(
                t@,
                i as int,
                k@,
                j as int,
            ),
        decreases n - j,
    {
        if j != 0 && parent_of(t, j) == i && kind_at_is(t, j, k) {
            return Some(j);
        }
        j += 1;
    }
    None
}

} // verus!
