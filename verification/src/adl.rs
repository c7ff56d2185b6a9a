//! Typed readings of known node shapes: module definitions, import
//! declarations, local type definitions, and the missing-semicolon check.

use vstd::prelude::*;
use vstd::string::StrSliceExecFns;
use crate::fqn::Fqn;
use crate::text::rfind_char;
use crate::tree::{
    children_of, first_matching, first_node_of_kind, is_local_definition_at, kind_at_is,
    kind_pred, nth_child, spec_first_child_of_kind, text_at, exec_is_local_definition,
    first_child_of_kind, last_child, NodeV, SyntaxTree,
};

verus! {

// ---------------------------------------------------------------------------
// Module definitions
// ---------------------------------------------------------------------------

/// The declared module name of a `module_definition` node: the text of its
/// scoped-name child, which follows an optional preamble and the keyword.
pub open spec fn spec_module_name(v: Seq<NodeV>, i: int) -> Option<Seq<char>> {
    let ch = children_of(v, i);
    if ch.len() == 0 {
        None
    } else if v[ch[0]].kind == "definition_preamble"@ {
        if ch.len() > 2 {
            Some(v[ch[2]].text)
        } else {
            None
        }
    } else if ch.len() > 1 {
        Some(v[ch[1]].text)
    } else {
        None
    }
}

/// The declared module name of the module definition at node `i`.
pub fn module_name_at(t: &SyntaxTree, i: usize) -> (r: Option<String>)
    requires
        t.wf(),
        i < t@.len(),
    ensures
        match r {
            Some(m) => spec_module_name(t@, i as int) == Some(m@),
            None => spec_module_name(t@, i as int) is None,
        },
{
    let c0 = match nth_child(t, i, 0) {
        Some(c) => c,
        None => {
            return None;
        },
    };
    if kind_at_is(t, c0, "definition_preamble") {
        match nth_child(t, i, 2) {
            Some(c) => Some(text_at(t, c)),
            None => None,
        }
    } else {
        match nth_child(t, i, 1) {
            Some(c) => Some(text_at(t, c)),
            None => None,
        }
    }
}

/// The module name a tree declares: that of its first module definition.
pub open spec fn spec_tree_module_name(v: Seq<NodeV>) -> Option<Seq<char>> {
    match first_matching(v, kind_pred("module_definition"@)) {
        Some(i) => spec_module_name(v, i),
        None => None,
    }
}

/// The module name a tree declares, from its first module definition.
pub fn tree_module_name(t: &SyntaxTree) -> (r: Option<String>)
    requires
        t.wf(),
    ensures
        match r {
            Some(m) => spec_tree_module_name(t@) == Some(m@),
            None => spec_tree_module_name(t@) is None,
        },
{
    match first_node_of_kind(t, "module_definition") {
        Some(i) => module_name_at(t, i),
        None => None,
    }
}

// ---------------------------------------------------------------------------
// Import declarations
// ---------------------------------------------------------------------------

/// One import declaration: the dotted module path text, and the imported
/// type name for a plain import, or `None` for a star import.
pub struct ImportDecl {
    pub module_name: String,
    pub name: Option<String>,
}

/// The mathematical value of an import declaration.
pub ghost struct ImportDeclV {
    pub module_name: Seq<char>,
    pub name: Option<Seq<char>>,
}

impl View for ImportDecl {
    type V = ImportDeclV;

    open spec fn view(&self) -> ImportDeclV {
        ImportDeclV {
            module_name: self.module_name@,
            name: match self.name {
                Some(n) => Some(n@),
                None => None,
            },
        }
    }
}

/// How an `import_declaration` node reads.  Its second child is the import
/// path; a second child of the path marks a star import, whose module path
/// is the path's first child.  A plain import's module path is everything
/// before the last dot of the path text, and the imported name everything
/// after it; with no dot, both are the whole text.
pub open spec fn spec_import_at(v: Seq<NodeV>, i: int) -> Option<ImportDeclV> {
    let ch = children_of(v, i);
    if ch.len() <= 1 {
        None
    } else {
        let ip = ch[1];
        let ipch = children_of(v, ip);
        if ipch.len() > 1 {
            Some(ImportDeclV { module_name: v[ipch[0]].text, name: None })
        } else {
            let s = v[ip].text;
            match rfind_char(s, '.') {
                Some(ix) => Some(
                    ImportDeclV { module_name: s.take(ix), name: Some(s.skip(ix + 1)) },
                ),
                None => Some(ImportDeclV { module_name: s, name: Some(s) }),
            }
        }
    }
}

/// Read the import declaration at node `i`.
pub fn import_decl_at(t: &SyntaxTree, i: usize) -> (r: Option<ImportDecl>)
    requires
        t.wf(),
        i < t@.len(),
    ensures
        match r {
            Some(d) => spec_import_at(t@, i as int) == Some(d@),
            None => spec_import_at(t@, i as int) is None,
        },
{
    let ip = match nth_child(t, i, 1) {
        Some(c) => c,
        None => {
            return None;
        },
    };
    match nth_child(t, ip, 1) {
        Some(_) => {
            // star import: module path is the path's first child
            match nth_child(t, ip, 0) {
                Some(s0) => Some(ImportDecl { module_name: text_at(t, s0), name: None }),
                None => {
                    // unreachable: a path with a second child has a first
                    proof {
                        assert(false);
                    }
                    None
                },
            }
        },
        None => {
            let s = text_at(t, ip);
            let slen = s.as_str().unicode_len();
            match crate::text::rfind(s.as_str(), '.') {
                Some(ix) => {
                    let module_name = s.as_str().substring_char(0, ix).to_owned();
                    let name = s.as_str().substring_char(ix + 1, slen).to_owned();
                    proof {
                        assert(module_name@ =~= t@[ip as int].text.take(ix as int));
                        assert(name@ =~= t@[ip as int].text.skip(ix + 1));
                    }
                    Some(ImportDecl { module_name, name: Some(name) })
                },
                None => {
                    let name = s.as_str().substring_char(0, slen).to_owned();
                    proof {
                        assert(s@ =~= t@[ip as int].text);
                        assert(name@ =~= t@[ip as int].text);
                    }
                    Some(ImportDecl { module_name: s, name: Some(name) })
                },
            }
        },
    }
}

/// All import declarations of a tree, in document order, as read by
/// `spec_import_at`; malformed declaration nodes are passed over.
pub open spec fn imports_upto(v: Seq<NodeV>, n: int) -> Seq<ImportDeclV>
    decreases n,
{
    if n <= 0 {
        Seq::empty()
    } else {
        let rest = imports_upto(v, n - 1);
        if v[n - 1].kind == "import_declaration"@ {
            match spec_import_at(v, n - 1) {
                Some(d) => rest.push(d),
                None => rest,
            }
        } else {
            rest
        }
    }
}

/// All import declarations of a tree, in document order.
pub open spec fn spec_imports(v: Seq<NodeV>) -> Seq<ImportDeclV> {
    imports_upto(v, v.len() as int)
}

/// The views of a list of import declarations.
pub open spec fn import_decl_views(s: Seq<ImportDecl>) -> Seq<ImportDeclV> {
    s.map_values(|d: ImportDecl| d@)
}

/// Read every import declaration of the tree, in document order.
pub fn extract_imports(t: &SyntaxTree) -> (r: Vec<ImportDecl>)
    requires
        t.wf(),
    ensures
        import_decl_views(r@) == spec_imports(t@),
{
    let n = t.len();
    let mut r: Vec<ImportDecl> = Vec::new();
    let mut j: usize = 0;
    proof {
        assert(import_decl_views(r@) =~= imports_upto(t@, 0));
    }
    while j < n
        invariant
            t.wf(),
            j <= n,
            n == t@.len(),
            import_decl_views(r@) == imports_upto(t@, j as int),
        decreases n - j,
    {
        if kind_at_is(t, j, "import_declaration") {
            match import_decl_at(t, j) {
                Some(d) => {
                    proof {
                        assert(import_decl_views(r@.push(d)) =~= import_decl_views(r@).push(d@));
                    }
                    r.push(d);
                },
                None => {},
            }
        }
        j += 1;
    }
    r
}

// ---------------------------------------------------------------------------
// Local type definitions
// ---------------------------------------------------------------------------

/// The names of the local type, newtype, struct and union definitions among
/// the first `n` nodes: the text of each definition's type-name child.
pub open spec fn def_names_upto(v: Seq<NodeV>, n: int) -> Seq<Seq<char>>
    decreases n,
{
    if n <= 0 {
        Seq::empty()
    } else {
        let rest = def_names_upto(v, n - 1);
        if is_local_definition_at(v, n - 1) {
            match spec_first_child_of_kind(v, n - 1, "type_name"@) {
                Some(c) => if 0 <= c < v.len() {
                    rest.push(v[c].text)
                } else {
                    rest
                },
                None => rest,
            }
        } else {
            rest
        }
    }
}

/// The names of all local definitions, in document order.
pub open spec fn spec_definition_names(v: Seq<NodeV>) -> Seq<Seq<char>> {
    def_names_upto(v, v.len() as int)
}

/// Every local definition of the tree as an FQN under the given module
/// name, in document order.
pub fn extract_definitions(t: &SyntaxTree, module_name: &str) -> (r: Vec<Fqn>)
    requires
        t.wf(),
    ensures
        r@.len() == spec_definition_names(t@).len(),
        forall|m: int|
            0 <= m < r@.len() ==> (#[trigger] r@[m])@.module == module_name@ && r@[m]@.name
                == spec_definition_names(t@)[m],
{
    let n = t.len();
    let mut r: Vec<Fqn> = Vec::new();
    let mut j: usize = 0;
    while j < n
        invariant
            t.wf(),
            j <= n,
            n == t@.len(),
            r@.len() == def_names_upto(t@, j as int).len(),
            forall|m: int|
                0 <= m < r@.len() ==> (#[trigger] r@[m])@.module == module_name@ && r@[m]@.name
                    == def_names_upto(t@, j as int)[m],
        decreases n - j,
    {
        if exec_is_local_definition(t, j) {
            match first_child_of_kind(t, j, "type_name") {
                Some(c) => {
                    let name = text_at(t, c);
                    let f = Fqn::from_module_name_and_type_name(module_name, name.as_str());
                    r.push(f);
                },
                None => {},
            }
        }
        j += 1;
    }
    r
}

// ---------------------------------------------------------------------------
// Missing semicolons
// ---------------------------------------------------------------------------

/// Whether a declaration node lacks its terminating semicolon: it has
/// children and the last one is not a `;` token.
pub open spec fn spec_missing_semicolon(v: Seq<NodeV>, i: int) -> bool {
    let ch = children_of(v, i);
    ch.len() > 0 && v[ch.last()].kind != ";"@
}

/// Whether the declaration at node `i` lacks its terminating semicolon.
pub fn is_missing_semicolon(t: &SyntaxTree, i: usize) -> (r: bool)
    requires
        t.wf(),
        i < t@.len(),
    ensures
        r == spec_missing_semicolon(t@, i as int),
{
    match last_child(t, i) {
        Some(j) => !kind_at_is(t, j, ";"),
        None => false,
    }
}

} // verus!
