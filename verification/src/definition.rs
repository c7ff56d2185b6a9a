//! Definition lookup within one tree: classify an identifier's occurrences
//! and report either the local definition site or the import to chase.

use vstd::prelude::*;
use vstd::string::StringExecFns;
use crate::adl::{import_decl_at, spec_import_at, spec_tree_module_name, tree_module_name};
use crate::text::{split_char, split_char_seq, str_eq, str_ends_with, views_of};
use crate::tree::{
    children_of, exec_is_from_definition, exec_is_user_defined_name, exec_self_or_ancestor_of_kind,
    first_matching, first_matching_from, import_ancestor_at, is_from_definition_at,
    is_identifier_at, is_scoped_name_at, is_user_defined_name_at, kind_at_is, nth_child,
    self_or_ancestor_of_kind, text_at, NodeV, SyntaxTree,
};
use crate::types::{spec_node_loc, node_location, Location};

verus! {

/// An import statement before its target file has been located: the
/// declaring module, the imported module path, and the imported identifier.
#[derive(Debug, Clone)]
pub struct UnresolvedImport {
    pub source_module: String,
    pub target_module_path: Vec<String>,
    pub identifier: String,
}

/// The mathematical value of an unresolved import.
pub ghost struct UnresolvedImportV {
    pub source_module: Seq<char>,
    pub target_module_path: Seq<Seq<char>>,
    pub identifier: Seq<char>,
}

impl View for UnresolvedImport {
    type V = UnresolvedImportV;

    open spec fn view(&self) -> UnresolvedImportV {
        UnresolvedImportV {
            source_module: self.source_module@,
            target_module_path: views_of(self.target_module_path@),
            identifier: self.identifier@,
        }
    }
}

/// Where a definition search ends: a resolved location, or an import still
/// to be chased through the cache.
#[derive(Debug, Clone)]
pub enum DefinitionLocation {
    Resolved(Location),
    Import(UnresolvedImport),
}

/// The mathematical value of a definition search result.
pub ghost enum DefLocV {
    Resolved(crate::types::LocV),
    Import(UnresolvedImportV),
}

pub open spec fn def_loc_view(d: DefinitionLocation) -> DefLocV {
    match d {
        DefinitionLocation::Resolved(l) => DefLocV::Resolved(l@),
        DefinitionLocation::Import(u) => DefLocV::Import(u@),
    }
}

// ---------------------------------------------------------------------------
// Source-module lookup
// ---------------------------------------------------------------------------

/// The module a node stands in: the text of the second child of its nearest
/// module-definition ancestor.
pub open spec fn spec_source_module(v: Seq<NodeV>, i: int) -> Option<Seq<char>> {
    match self_or_ancestor_of_kind(v, i, "module_definition"@) {
        Some(m) => {
            let ch = children_of(v, m);
            if ch.len() > 1 {
                Some(v[ch[1]].text)
            } else {
                None
            }
        },
        None => None,
    }
}

/// The module the node at `i` stands in, if any.
pub fn get_source_module(t: &SyntaxTree, i: usize) -> (r: Option<String>)
    requires
        t.wf(),
        i < t@.len(),
    ensures
        match r {
            Some(m) => spec_source_module(t@, i as int) == Some(m@),
            None => spec_source_module(t@, i as int) is None,
        },
{
    match exec_self_or_ancestor_of_kind(t, i, "module_definition") {
        Some(m) => match nth_child(t, m, 1) {
            Some(c) => Some(text_at(t, c)),
            None => None,
        },
        None => None,
    }
}

// ---------------------------------------------------------------------------
// The definition search
// ---------------------------------------------------------------------------

/// A definition site for `id`: a user-defined name spelling `id` that stands
/// under an import declaration, or under a definition mark without being a
/// bare identifier.
pub open spec fn def_site_pred(id: Seq<char>) -> spec_fn(Seq<NodeV>, int) -> bool {
    |v: Seq<NodeV>, i: int|
        is_user_defined_name_at(v, i) && v[i].text == id && (import_ancestor_at(v, i) is Some || (
        is_from_definition_at(v, i) && !is_identifier_at(v, i)))
}

/// Whether `t` ends with a dot followed by `id`.
pub open spec fn is_dot_suffix(t: Seq<char>, id: Seq<char>) -> bool {
    (seq!['.'] + id).is_suffix_of(t)
}

/// A fallback site for `id`: a dotted scoped name equal to `id` or ending in
/// `.id`.
pub open spec fn scoped_site_pred(id: Seq<char>) -> spec_fn(Seq<NodeV>, int) -> bool {
    |v: Seq<NodeV>, i: int|
        is_scoped_name_at(v, i) && (v[i].text == id || is_dot_suffix(v[i].text, id))
}

/// The module name of the import declaration at `a`, or empty when the
/// declaration is malformed.
pub open spec fn import_module_name_or_empty(v: Seq<NodeV>, a: int) -> Seq<char> {
    match spec_import_at(v, a) {
        Some(d) => d.module_name,
        None => Seq::empty(),
    }
}

/// The tree's declared module name, or empty.
pub open spec fn tree_module_or_empty(v: Seq<NodeV>) -> Seq<char> {
    match spec_tree_module_name(v) {
        Some(m) => m,
        None => Seq::empty(),
    }
}

/// What a matched definition site reports: sites under an import become the
/// import to chase, all others resolve to the site's own span.
pub open spec fn spec_def_site_loc(v: Seq<NodeV>, uri: Seq<char>, id: Seq<char>, i: int) -> DefLocV {
    match import_ancestor_at(v, i) {
        Some(a) => DefLocV::Import(
            UnresolvedImportV {
                source_module: tree_module_or_empty(v),
                target_module_path: split_char_seq(import_module_name_or_empty(v, a), '.'),
                identifier: id,
            },
        ),
        None => DefLocV::Resolved(spec_node_loc(v, uri, i)),
    }
}

/// What a matched fallback scoped name reports: a dotted name becomes an
/// import of everything before its last part; a plain one resolves to its
/// own span.
pub open spec fn spec_scoped_site_loc(
    v: Seq<NodeV>,
    uri: Seq<char>,
    id: Seq<char>,
    i: int,
) -> DefLocV {
    let parts = split_char_seq(v[i].text, '.');
    if parts.len() > 1 {
        DefLocV::Import(
            UnresolvedImportV {
                source_module: match spec_source_module(v, i) {
                    Some(m) => m,
                    None => Seq::empty(),
                },
                target_module_path: parts.take(parts.len() - 1),
                identifier: id,
            },
        )
    } else {
        DefLocV::Resolved(spec_node_loc(v, uri, i))
    }
}

/// The definition search over one tree: the first definition site in
/// document order, or failing that the first matching scoped name; an empty
/// identifier finds nothing.
pub open spec fn spec_definition(v: Seq<NodeV>, uri: Seq<char>, id: Seq<char>) -> Option<DefLocV> {
    if id.len() == 0 {
        None
    } else {
        match first_matching(v, def_site_pred(id)) {
            Some(i) => Some(spec_def_site_loc(v, uri, id, i)),
            None => match first_matching(v, scoped_site_pred(id)) {
                Some(i) => Some(spec_scoped_site_loc(v, uri, id, i)),
                None => None,
            },
        }
    }
}

fn exec_def_site_pred(t: &SyntaxTree, j: usize, id: &str) -> (r: bool)
    requires
        t.wf(),
        j < t@.len(),
    ensures
        r == def_site_pred(id@)(t@, j as int),
{
    if !exec_is_user_defined_name(t, j) {
        return false;
    }
    let txt = text_at(t, j);
    if !str_eq(txt.as_str(), id) {
        return false;
    }
    let under_import = match exec_self_or_ancestor_of_kind(t, j, "import_declaration") {
        Some(_) => true,
        None => false,
    };
    under_import || (exec_is_from_definition(t, j) && !kind_at_is(t, j, "identifier"))
}

fn exec_scoped_site_pred(t: &SyntaxTree, j: usize, id: &str) -> (r: bool)
    requires
        t.wf(),
        j < t@.len(),
    ensures
        r == scoped_site_pred(id@)(t@, j as int),
{
    if !kind_at_is(t, j, "scoped_name") {
        return false;
    }
    let txt = text_at(t, j);
    if str_eq(txt.as_str(), id) {
        return true;
    }
    let mut dotted = String::from_str(".");
    dotted.append(id);
    proof {
        reveal_strlit(".");
        assert("."@ =~= seq!['.']);
    }
    str_ends_with(txt.as_str(), dotted.as_str())
}

/// The definition site or import for `id` in this tree, searching the whole
/// document in order.
pub fn definition(t: &SyntaxTree, uri: &str, id: &str) -> (r: Option<DefinitionLocation>)
    requires
        t.wf(),
    ensures
        match r {
            Some(d) => spec_definition(t@, uri@, id@) == Some(def_loc_view(d)),
            None => spec_definition(t@, uri@, id@) is None,
        },
{
    if id.unicode_len() == 0 {
        return None;
    }
    let n = t.len();
    let mut j: usize = 0;
    while j < n
        invariant
            t.wf(),
            j <= n,
            n == t@.len(),
            id@.len() != 0,
            first_matching(t@, def_site_pred(id@)) == first_matching_from(
                t@,
                def_site_pred(id@),
                j as int,
            ),
        decreases n - j,
    {
        if exec_def_site_pred(t, j, id) {
            proof {
                assert(first_matching_from(t@, def_site_pred(id@), j as int) == Some(j as int));
                assert(id@.len() != 0);
            }
            return Some(def_site_loc(t, uri, id, j));
        }
        j += 1;
    }
    proof {
        assert(first_matching_from(t@, def_site_pred(id@), n as int) is None);
    }
    let mut m: usize = 0;
    while m < n
        invariant
            t.wf(),
            m <= n,
            n == t@.len(),
            id@.len() != 0,
            first_matching(t@, def_site_pred(id@)) is None,
            first_matching(t@, scoped_site_pred(id@)) == first_matching_from(
                t@,
                scoped_site_pred(id@),
                m as int,
            ),
        decreases n - m,
    {
        if exec_scoped_site_pred(t, m, id) {
            proof {
                assert(first_matching_from(t@, scoped_site_pred(id@), m as int) == Some(m as int));
                assert(id@.len() != 0);
            }
            return Some(scoped_site_loc(t, uri, id, m));
        }
        m += 1;
    }
    proof {
        assert(first_matching_from(t@, scoped_site_pred(id@), n as int) is None);
        assert(id@.len() != 0);
    }
    None
}

/// Report a matched definition site.
fn def_site_loc(t: &SyntaxTree, uri: &str, id: &str, i: usize) -> (r: DefinitionLocation)
    requires
        t.wf(),
        i < t@.len(),
    ensures
        def_loc_view(r) == spec_def_site_loc(t@, uri@, id@, i as int),
{
    match exec_self_or_ancestor_of_kind(t, i, "import_declaration") {
        Some(a) => {
            let module_name = match import_decl_at(t, a) {
                Some(d) => d.module_name,
                None => String::new(),
            };
            let source_module = match tree_module_name(t) {
                Some(m) => m,
                None => String::new(),
            };
            let target_module_path = split_char(module_name.as_str(), '.');
            DefinitionLocation::Import(
                UnresolvedImport {
                    source_module,
                    target_module_path,
                    identifier: String::from_str(id),
                },
            )
        },
        None => DefinitionLocation::Resolved(node_location(t, uri, i)),
    }
}

/// Report a matched fallback scoped name.
fn scoped_site_loc(t: &SyntaxTree, uri: &str, id: &str, i: usize) -> (r: DefinitionLocation)
    requires
        t.wf(),
        i < t@.len(),
    ensures
        def_loc_view(r) == spec_scoped_site_loc(t@, uri@, id@, i as int),
{
    let txt = text_at(t, i);
    let mut parts = split_char(txt.as_str(), '.');
    proof {
        crate::text::lemma_split_len(t@[i as int].text, '.');
    }
    if parts.len() > 1 {
        let source_module = match get_source_module(t, i) {
            Some(m) => m,
            None => String::new(),
        };
        let ghost full = views_of(parts@);
        parts.pop();
        proof {
            assert(views_of(parts@) =~= full.take(full.len() - 1));
        }
        DefinitionLocation::Import(
            UnresolvedImport {
                source_module,
                target_module_path: parts,
                identifier: String::from_str(id),
            },
        )
    } else {
        DefinitionLocation::Resolved(node_location(t, uri, i))
    }
}

} // verus!
