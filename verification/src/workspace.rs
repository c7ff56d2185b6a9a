//! The workspace: the document store and the FQN cache, with the ingestion
//! pipeline and the query services built on them.
//!
//! Ingestion is one atomic unit per file: parse, evict the file's prior
//! cache contribution, record its definitions and resolved imports, and
//! commit text and tree together.  Queries read only from the cache and the
//! stored trees; a missing target degrades to an empty answer.

use vstd::prelude::*;
use vstd::string::StrSliceExecFns;
use vstd::string::StringExecFns;
use crate::adl::{
    extract_definitions, extract_imports, import_decl_views, spec_definition_names,
    spec_imports, spec_tree_module_name, tree_module_name,
};
use crate::cache::{
    def_keys_of, import_views, spec_apply, CacheV, FqnCache, ImportV, ResolvedImport,
};
use crate::definition::{definition, tree_module_or_empty, DefLocV, DefinitionLocation};
use crate::diagnostics::{collect_diagnostics, diag_views, spec_diagnostics};
use crate::fqn::{fqn_key, Fqn};
use crate::hover::{hover, hover_views, spec_hover};
use crate::modules::{resolve_import, spec_candidates, uri_of_path, uri_path_seq, uri_to_path};
use crate::parse::{parse_adl, parse_outcome};
use crate::references::{find_references, spec_reference_sites};
use crate::store::{DocV, Document, DocumentStore};
use crate::text::{join_str, join_str_seq, split_char, split_char_seq, str_eq, views_of};
use crate::tree::{
    can_be_referenced_at, has_scoped_name_parent_at, is_identifier_at, node_at_pos,
    node_at_position, exec_can_be_referenced, exec_has_scoped_name_parent, kind_at_is, text_at,
    NodeV,
};
use crate::types::{spec_node_loc, Diagnostic, HoverFragment, HoverV, LocV, Location};

verus! {

/// The FQN keys of the definitions a tree contributes: its definition names
/// under its declared module, or nothing when it declares no module.
pub open spec fn spec_def_fqn_keys(tv: Seq<NodeV>) -> Seq<Seq<char>> {
    match spec_tree_module_name(tv) {
        Some(m) => spec_definition_names(tv).map_values(|n: Seq<char>| fqn_key(m, n)),
        None => Seq::empty(),
    }
}

/// An import edge that ingesting a file may record: its target is one of
/// the candidate locations of some import declaration the tree holds, in
/// the file's own resolution context, and for a plain declaration the key
/// is that import's FQN.  A star import's keys come from the target file's
/// content and are not constrained here.
pub open spec fn edge_admissible(
    tv: Seq<NodeV>,
    roots: Seq<Seq<char>>,
    uri: Seq<char>,
    m: Seq<char>,
    e: ImportV,
) -> bool {
    exists|di: int|
        #![trigger spec_imports(tv)[di]]
        0 <= di < spec_imports(tv).len() && {
            let d = spec_imports(tv)[di];
            let cands = spec_candidates(
                roots,
                uri_path_seq(uri),
                m,
                split_char_seq(d.module_name, '.'),
            );
            &&& exists|k: int| 0 <= k < cands.len() && e.target == uri_of_path(cands[k])
            &&& (match d.name {
                Some(n) => e.key == fqn_key(d.module_name, n),
                None => true,
            })
        }
}

/// What definition lookup at a position answers: nothing unless the
/// document is stored, a node lies at the position, it is an identifier
/// inside a dotted scoped name, and the file's definition search succeeds;
/// an import is chased exactly one hop through the cache into the stored
/// target file, whose own search must resolve.
pub open spec fn spec_goto(
    docs: Map<Seq<char>, DocV>,
    cache: CacheV,
    uri: Seq<char>,
    l: int,
    c: int,
) -> Option<LocV> {
    if !docs.contains_key(uri) {
        None
    } else {
        let tv = docs[uri].tree;
        match node_at_pos(tv, l, c) {
            None => None,
            Some(i) => if !(0 <= i < tv.len() && is_identifier_at(tv, i)
                && has_scoped_name_parent_at(tv, i)) {
                None
            } else {
                let id = tv[i].text;
                match crate::definition::spec_definition(tv, uri, id) {
                    Some(DefLocV::Resolved(lv)) => Some(lv),
                    Some(DefLocV::Import(u)) => {
                        let key = fqn_key(join_str_seq(u.target_module_path, seq!['.']), id);
                        if !cache.def.contains_key(key) {
                            None
                        } else {
                            let tgt = cache.def[key];
                            if !docs.contains_key(tgt) {
                                None
                            } else {
                                match crate::definition::spec_definition(docs[tgt].tree, tgt, id) {
                                    Some(DefLocV::Resolved(l2)) => Some(l2),
                                    Some(DefLocV::Import(_)) => None,
                                    None => None,
                                }
                            }
                        }
                    },
                    None => None,
                }
            },
        }
    }
}

/// What hover at a position answers: nothing unless the document is stored
/// and an identifier lies at the position; then the file's own fragments,
/// with the stored import target's fragments appended when the symbol's
/// home is an import — a cache or store miss on that chase yields nothing.
pub open spec fn spec_hover_at(
    docs: Map<Seq<char>, DocV>,
    cache: CacheV,
    uri: Seq<char>,
    l: int,
    c: int,
) -> Option<Seq<HoverV>> {
    if !docs.contains_key(uri) {
        None
    } else {
        let tv = docs[uri].tree;
        match node_at_pos(tv, l, c) {
            None => None,
            Some(i) => if !(0 <= i < tv.len() && is_identifier_at(tv, i)) {
                None
            } else {
                let id = tv[i].text;
                let own = spec_hover(tv, id);
                match crate::definition::spec_definition(tv, uri, id) {
                    Some(DefLocV::Import(u)) => {
                        let key = fqn_key(join_str_seq(u.target_module_path, seq!['.']), id);
                        if !cache.def.contains_key(key) {
                            None
                        } else {
                            let tgt = cache.def[key];
                            if !docs.contains_key(tgt) {
                                None
                            } else {
                                Some(own + spec_hover(docs[tgt].tree, id))
                            }
                        }
                    },
                    _ => Some(own),
                }
            },
        }
    }
}

/// What a reference query asks about: the identifier under the cursor and
/// the file's module name, provided the document is stored, a node lies at
/// the position, and it is a reference-eligible identifier in a file that
/// declares a module.
pub open spec fn spec_ref_query(
    docs: Map<Seq<char>, DocV>,
    uri: Seq<char>,
    l: int,
    c: int,
) -> Option<(Seq<char>, Seq<char>)> {
    if !docs.contains_key(uri) {
        None
    } else {
        let tv = docs[uri].tree;
        match node_at_pos(tv, l, c) {
            None => None,
            Some(i) => if !(0 <= i < tv.len() && is_identifier_at(tv, i) && can_be_referenced_at(
                tv,
                i,
            )) {
                None
            } else {
                match spec_tree_module_name(tv) {
                    Some(m) => Some((tv[i].text, m)),
                    None => None,
                }
            },
        }
    }
}

/// Whether some returned location equals `lv`.
pub open spec fn loc_in(locs: Seq<Location>, lv: LocV) -> bool {
    exists|j: int| 0 <= j < locs.len() && locs[j]@ == lv
}

/// A location a reference query may answer with: a usage site of the file
/// itself, a usage site of a stored file that imports the FQN, or, when
/// asked for, the declaration site.
pub open spec fn ref_loc_admissible(
    docs: Map<Seq<char>, DocV>,
    cache: CacheV,
    uri: Seq<char>,
    id: Seq<char>,
    key: Seq<char>,
    include_decl: bool,
    lv: LocV,
) -> bool {
    ||| exists|s: int|
        #![auto]
        spec_reference_sites(docs[uri].tree, id).contains(s) && lv == spec_node_loc(
            docs[uri].tree,
            uri,
            s,
        )
    ||| exists|f: Seq<char>, s: int|
        #![auto]
        cache.imported.contains_key(f) && cache.imported[f].contains(key) && f != uri
            && docs.contains_key(f) && spec_reference_sites(docs[f].tree, id).contains(s) && lv
            == spec_node_loc(docs[f].tree, f, s)
    ||| (include_decl && crate::definition::spec_definition(docs[uri].tree, uri, id) == Some(
        DefLocV::Resolved(lv),
    ))
}

proof fn lemma_loc_in_prefix(a: Seq<Location>, b: Seq<Location>)
    requires
        a.is_prefix_of(b),
    ensures
        forall|lv: LocV| #[trigger] loc_in(a, lv) ==> loc_in(b, lv),
{
    assert forall|lv: LocV| #[trigger] loc_in(a, lv) implies loc_in(b, lv) by {
        let j = choose|j: int| 0 <= j < a.len() && a[j]@ == lv;
        assert(b[j]@ == lv);
    }
}

/// Every entry of `a` stands unchanged in `b`.
pub open spec fn docs_preserved(a: Map<Seq<char>, DocV>, b: Map<Seq<char>, DocV>) -> bool {
    forall|x: Seq<char>|
        #![trigger a.dom().contains(x)]
        #![trigger b.dom().contains(x)]
        a.dom().contains(x) ==> b.dom().contains(x) && b[x] == a[x]
}

proof fn lemma_docs_preserved_trans(a: Map<Seq<char>, DocV>, b: Map<Seq<char>, DocV>, c: Map<
    Seq<char>,
    DocV,
>)
    requires
        docs_preserved(a, b),
        docs_preserved(b, c),
    ensures
        docs_preserved(a, c),
{
    assert forall|x: Seq<char>| a.contains_key(x) implies #[trigger] c.contains_key(x) && c[x]
        == a[x] by {
        assert(b.contains_key(x) && b[x] == a[x]);
    }
}

/// The workspace state: all ingested documents and the symbol cache.
pub struct Workspace {
    store: DocumentStore,
    cache: FqnCache,
}

impl Workspace {
    /// The stored documents, as a map from URI to text and tree.
    pub closed spec fn docs(&self) -> Map<Seq<char>, DocV> {
        self.store@
    }

    /// The cache's three indices.
    pub closed spec fn cache_v(&self) -> CacheV {
        self.cache@
    }

    pub closed spec fn wf(&self) -> bool {
        self.store.wf() && self.cache.wf()
    }

    pub fn new() -> (r: Self)
        ensures
            r.wf(),
            r.docs() == Map::<Seq<char>, DocV>::empty(),
            r.cache_v() == crate::cache::empty_cache(),
    {
        Workspace { store: DocumentStore::new(), cache: FqnCache::new() }
    }

    /// Drop every document and every cache entry, as when the search
    /// directories change and the workspace is re-ingested from scratch.
    pub fn clear(&mut self)
        ensures
            final(self).wf(),
            final(self).docs() == Map::<Seq<char>, DocV>::empty(),
            final(self).cache_v() == crate::cache::empty_cache(),
    {
        self.store.clear();
        self.cache.clear();
    }

    /// The file recorded as defining `fqn`, if any.
    pub fn get_import_target(&self, fqn: &Fqn) -> (r: Option<String>)
        ensures
            match r {
                Some(u) => self.cache_v().def.contains_key(fqn@.key()) && u@
                    == self.cache_v().def[fqn@.key()],
                None => !self.cache_v().def.contains_key(fqn@.key()),
            },
    {
        self.cache.lookup_fqn(fqn)
    }

    /// Every file whose imported set holds `fqn`, without duplicates.
    pub fn get_files_importing_type(&self, fqn: &Fqn) -> (r: Vec<String>)
        requires
            self.wf(),
        ensures
            forall|j: int|
                0 <= j < r@.len() ==> self.cache_v().imported.contains_key(#[trigger] r@[j]@)
                    && self.cache_v().imported[r@[j]@].contains(fqn@.key()),
            forall|u: Seq<char>|
                self.cache_v().imported.contains_key(u) && self.cache_v().imported[u].contains(
                    fqn@.key(),
                ) ==> exists|j: int| 0 <= j < r@.len() && r@[j]@ == u,
            forall|j1: int, j2: int| 0 <= j1 < j2 < r@.len() ==> r@[j1]@ != r@[j2]@,
    {
        self.cache.get_files_importing_type(fqn)
    }

    /// The stored text of a document, if any.
    pub fn get_document_content(&self, uri: &str) -> (r: Option<String>)
        requires
            self.wf(),
        ensures
            match r {
                Some(s) => self.docs().contains_key(uri@) && s@ == self.docs()[uri@].text,
                None => !self.docs().contains_key(uri@),
            },
    {
        match self.store.get(uri) {
            Some(d) => Some(String::from_str(d.text.as_str())),
            None => None,
        }
    }

    /// The stored document under `uri`, if any.
    pub fn document(&self, uri: &str) -> (r: Option<&Document>)
        requires
            self.wf(),
        ensures
            match r {
                Some(d) => {
                    &&& self.docs().contains_key(uri@)
                    &&& d.uri@ == uri@
                    &&& d.doc_view() == self.docs()[uri@]
                    &&& d.tree.wf()
                },
                None => !self.docs().contains_key(uri@),
            },
    {
        self.store.get(uri)
    }

    /// Ingest one document as a unit: parse the text, and on success evict
    /// the file's prior cache contribution, record its definitions and the
    /// import edges that resolved, store text and tree together, and hand
    /// back the collected diagnostics.  A failed parse changes nothing; the
    /// stale state stays available.  Star imports pull in their target file
    /// when the reader yields it; already-stored documents of other files
    /// are never overwritten.
    pub fn ingest_document<F: Fn(&String) -> bool, G: Fn(&String) -> Option<String>>(
        &mut self,
        search_dirs: &Vec<String>,
        uri: &str,
        text: String,
        document_exists: &F,
        read_file: &G,
    ) -> (r: Option<Vec<Diagnostic>>)
        requires
            old(self).wf(),
            forall|s: &String| #[trigger] call_requires(*document_exists, (s,)),
            forall|s: &String| #[trigger] call_requires(*read_file, (s,)),
        ensures
            final(self).wf(),
            match r {
                None => {
                    &&& final(self).docs() == old(self).docs()
                    &&& final(self).cache_v() == old(self).cache_v()
                    &&& parse_outcome(text@) is None
                },
                Some(diags) => {
                    &&& parse_outcome(text@) is Some
                    &&& {
                        let tv = parse_outcome(text@)->Some_0;
                        &&& diag_views(diags@) == spec_diagnostics(tv, text@)
                        &&& final(self).docs().contains_key(uri@)
                        &&& final(self).docs()[uri@] == (DocV { text: text@, tree: tv })
                        &&& forall|x: Seq<char>|
                            old(self).docs().contains_key(x) && x != uri@ ==> final(self).docs().contains_key(x)
                                && final(self).docs()[x] == old(self).docs()[x]
                        &&& exists|iv: Seq<ImportV>|
                            final(self).cache_v() == spec_apply(
                                old(self).cache_v(),
                                uri@,
                                spec_def_fqn_keys(tv),
                                iv,
                            ) && forall|j: int|
                                0 <= j < iv.len() ==> edge_admissible(
                                    tv,
                                    views_of(search_dirs@),
                                    uri@,
                                    tree_module_or_empty(tv),
                                    #[trigger] iv[j],
                                )
                    }
                },
            },
    {
        let tree = match parse_adl(text.as_str()) {
            Some(t) => t,
            None => {
                return None;
            },
        };
        let diags = collect_diagnostics(&tree, text.as_str());
        let module_name = tree_module_name(&tree);
        let ghost tv = tree@;
        let mut defs: Vec<Fqn> = Vec::new();
        let mut imports: Vec<ResolvedImport> = Vec::new();
        match &module_name {
            Some(m) => {
                defs = extract_definitions(&tree, m.as_str());
                proof {
                    assert(def_keys_of(defs@) =~= spec_def_fqn_keys(tv));
                }
                let decls = extract_imports(&tree);
                let mut di: usize = 0;
                while di < decls.len()
                    invariant
                        di <= decls@.len(),
                        self.wf(),
                        forall|s: &String| #[trigger] call_requires(*document_exists, (s,)),
                        forall|s: &String| #[trigger] call_requires(*read_file, (s,)),
                        self.cache == old(self).cache,
                        docs_preserved(old(self).docs(), self.docs()),
                        tv == tree@,
                        m@ == tree_module_or_empty(tv),
                        import_decl_views(decls@) == spec_imports(tv),
                        forall|j: int|
                            0 <= j < imports@.len() ==> edge_admissible(
                                tv,
                                views_of(search_dirs@),
                                uri@,
                                m@,
                                (#[trigger] imports@[j])@,
                            ),
                    decreases decls@.len() - di,
                {
                    proof {
                        assert(import_decl_views(decls@)[di as int] == decls@[di as int]@);
                    }
                    let d = &decls[di];
                    let path_parts = split_char(d.module_name.as_str(), '.');
                    match &d.name {
                        Some(n) => {
                            // plain import: record the edge when its target exists
                            let target = resolve_import(
                                search_dirs,
                                uri,
                                m.as_str(),
                                &path_parts,
                                document_exists,
                            );
                            match target {
                                Some(turi) => {
                                    let tpath = uri_to_path(turi.as_str());
                                    if document_exists(&tpath) {
                                        let f = Fqn::from_module_name_and_type_name(
                                            d.module_name.as_str(),
                                            n.as_str(),
                                        );
                                        let ghost prev_imports = imports@;
                                        imports.push(
                                            ResolvedImport { fqn: f, target_uri: turi },
                                        );
                                        proof {
                                            let e = imports@[imports@.len() - 1]@;
                                            assert(e.key == fqn_key(
                                                spec_imports(tv)[di as int].module_name,
                                                spec_imports(tv)[di as int].name->Some_0,
                                            ));
                                            assert(edge_admissible(
                                                tv,
                                                views_of(search_dirs@),
                                                uri@,
                                                m@,
                                                e,
                                            ));
                                            assert(forall|j: int|
                                                0 <= j < prev_imports.len()
                                                    ==> imports@[j] == prev_imports[j]);
                                        }
                                    }
                                },
                                None => {},
                            }
                        },
                        None => {
                            // star import: enumerate the target module's definitions
                            let target = resolve_import(
                                search_dirs,
                                uri,
                                m.as_str(),
                                &path_parts,
                                document_exists,
                            );
                            match target {
                                Some(turi) => {
                                    let tpath = uri_to_path(turi.as_str());
                                    match read_file(&tpath) {
                                        Some(content) => {
                                            let ghost mid_docs = self.docs();
                                            let ghost prev_imports = imports@;
                                            self.expand_star_import(
                                                turi.as_str(),
                                                content,
                                                &mut imports,
                                            );
                                            proof {
                                                lemma_docs_preserved_trans(
                                                    old(self).docs(),
                                                    mid_docs,
                                                    self.docs(),
                                                );
                                                assert forall|j: int|
                                                    0 <= j < imports@.len() implies edge_admissible(
                                                    tv,
                                                    views_of(search_dirs@),
                                                    uri@,
                                                    m@,
                                                    (#[trigger] imports@[j])@,
                                                ) by {
                                                    if j < prev_imports.len() {
                                                        assert(imports@[j] == prev_imports[j]);
                                                    } else {
                                                        assert(imports@[j]@.target == turi@);
                                                        let dv = spec_imports(tv)[di as int];
                                                        assert(dv == decls@[di as int]@);
                                                        let cands = spec_candidates(
                                                            views_of(search_dirs@),
                                                            uri_path_seq(uri@),
                                                            m@,
                                                            split_char_seq(dv.module_name, '.'),
                                                        );
                                                        assert(views_of(path_parts@)
                                                            == split_char_seq(
                                                            dv.module_name,
                                                            '.',
                                                        ));
                                                        assert(exists|k: int|
                                                            0 <= k < cands.len() && imports@[
                                                            j
                                                        ]@.target == uri_of_path(
                                                            #[trigger] cands[k],
                                                        ));
                                                        assert(edge_admissible(
                                                            tv,
                                                            views_of(search_dirs@),
                                                            uri@,
                                                            m@,
                                                            imports@[j]@,
                                                        ));
                                                    }
                                                }
                                            }
                                        },
                                        None => {},
                                    }
                                },
                                None => {},
                            }
                        },
                    }
                    di += 1;
                }
            },
            None => {
                proof {
                    assert(def_keys_of(defs@) =~= spec_def_fqn_keys(tv));
                }
            },
        }
        let ghost pre_commit = self.docs();
        self.cache.apply_file_update(uri, &defs, &imports);
        self.store.insert(Document { uri: String::from_str(uri), text, tree });
        proof {
            assert forall|x: Seq<char>|
                old(self).docs().contains_key(x) && x != uri@ implies self.docs().contains_key(x)
                && self.docs()[x] == old(self).docs()[x] by {
                assert(pre_commit.contains_key(x) && pre_commit[x] == old(self).docs()[x]);
            }
            assert(self.cache_v() == spec_apply(
                old(self).cache_v(),
                uri@,
                spec_def_fqn_keys(tv),
                import_views(imports@),
            ));
        }
        Some(diags)
    }

    /// Definition lookup at a position.  The identifier under the cursor
    /// must be reference-eligible; its definition is searched in the file's
    /// own tree first, and an import is chased one hop through the cache
    /// into the stored target file.
    pub fn goto_definition(&self, uri: &str, line: u32, col: u32) -> (r: Option<Location>)
        requires
            self.wf(),
        ensures
            match r {
                Some(loc) => spec_goto(self.docs(), self.cache_v(), uri@, line as int, col as int)
                    == Some(loc@),
                None => spec_goto(self.docs(), self.cache_v(), uri@, line as int, col as int)
                    is None,
            },
    {
        let doc = match self.store.get(uri) {
            Some(d) => d,
            None => {
                return None;
            },
        };
        let i = match node_at_position(&doc.tree, line, col) {
            Some(i) => i,
            None => {
                return None;
            },
        };
        if !kind_at_is(&doc.tree, i, "identifier") {
            return None;
        }
        if !exec_has_scoped_name_parent(&doc.tree, i) {
            return None;
        }
        let id = text_at(&doc.tree, i);
        match definition(&doc.tree, uri, id.as_str()) {
            Some(DefinitionLocation::Resolved(loc)) => Some(loc),
            Some(DefinitionLocation::Import(unres)) => {
                let module = join_str(&unres.target_module_path, ".");
                proof {
                    reveal_strlit(".");
                    assert("."@ =~= seq!['.']);
                }
                let f = Fqn::from_module_name_and_type_name(module.as_str(), id.as_str());
                let target = match self.cache.lookup_fqn(&f) {
                    Some(t) => t,
                    None => {
                        return None;
                    },
                };
                let tdoc = match self.store.get(target.as_str()) {
                    Some(d) => d,
                    None => {
                        return None;
                    },
                };
                match definition(&tdoc.tree, target.as_str(), id.as_str()) {
                    Some(DefinitionLocation::Resolved(l2)) => Some(l2),
                    Some(DefinitionLocation::Import(_)) => None,
                    None => None,
                }
            },
            None => None,
        }
    }

    /// Reference search at a position.  The identifier under the cursor
    /// must be reference-eligible; usage sites are collected from the
    /// file's own tree and from every stored file whose imported set holds
    /// the FQN, with the declaration site appended when asked for.  An
    /// empty collection answers with nothing.
    pub fn find_references(&self, uri: &str, line: u32, col: u32, include_declaration: bool) -> (r:
        Option<Vec<Location>>)
        requires
            self.wf(),
        ensures
            ({
                let q = spec_ref_query(self.docs(), uri@, line as int, col as int);
                match r {
                    Some(locs) => q is Some && locs@.len() > 0 && {
                        let id = q->Some_0.0;
                        let key = fqn_key(q->Some_0.1, q->Some_0.0);
                        let tv = self.docs()[uri@].tree;
                        &&& forall|j: int|
                            0 <= j < locs@.len() ==> ref_loc_admissible(
                                self.docs(),
                                self.cache_v(),
                                uri@,
                                id,
                                key,
                                include_declaration,
                                (#[trigger] locs@[j])@,
                            )
                        &&& forall|s: int|
                            #[trigger] spec_reference_sites(tv, id).contains(s) ==> loc_in(
                                locs@,
                                spec_node_loc(tv, uri@, s),
                            )
                        &&& forall|f: Seq<char>, s: int|
                            #![auto]
                            self.cache_v().imported.contains_key(f)
                                && self.cache_v().imported[f].contains(key) && f != uri@
                                && self.docs().contains_key(f) && spec_reference_sites(
                                self.docs()[f].tree,
                                id,
                            ).contains(s) ==> loc_in(
                                locs@,
                                spec_node_loc(self.docs()[f].tree, f, s),
                            )
                        &&& (include_declaration ==> match crate::definition::spec_definition(
                            tv,
                            uri@,
                            id,
                        ) {
                            Some(DefLocV::Resolved(dl)) => loc_in(locs@, dl),
                            _ => true,
                        })
                    },
                    None => q is None || {
                        let id = q->Some_0.0;
                        let key = fqn_key(q->Some_0.1, q->Some_0.0);
                        let tv = self.docs()[uri@].tree;
                        &&& spec_reference_sites(tv, id).len() == 0
                        &&& forall|f: Seq<char>|
                            #![auto]
                            self.cache_v().imported.contains_key(f)
                                && self.cache_v().imported[f].contains(key) && f != uri@
                                && self.docs().contains_key(f) ==> spec_reference_sites(
                                self.docs()[f].tree,
                                id,
                            ).len() == 0
                        &&& (include_declaration ==> match crate::definition::spec_definition(
                            tv,
                            uri@,
                            id,
                        ) {
                            Some(DefLocV::Resolved(dl)) => false,
                            _ => true,
                        })
                    },
                }
            }),
    {
        let doc = match self.store.get(uri) {
            Some(d) => d,
            None => {
                return None;
            },
        };
        let i = match node_at_position(&doc.tree, line, col) {
            Some(i) => i,
            None => {
                return None;
            },
        };
        if !kind_at_is(&doc.tree, i, "identifier") {
            return None;
        }
        if !exec_can_be_referenced(&doc.tree, i) {
            return None;
        }
        let id = text_at(&doc.tree, i);
        let m = match tree_module_name(&doc.tree) {
            Some(m) => m,
            None => {
                return None;
            },
        };
        let ghost tv = doc.tree@;
        let ghost idv = id@;
        let ghost keyv = fqn_key(m@, id@);
        let mut all = find_references(&doc.tree, uri, id.as_str());
        proof {
            assert forall|s: int| #[trigger] spec_reference_sites(tv, idv).contains(s) implies loc_in(
                all@,
                spec_node_loc(tv, uri@, s),
            ) by {
                let j = choose|j: int|
                    0 <= j < spec_reference_sites(tv, idv).len() && spec_reference_sites(
                        tv,
                        idv,
                    )[j] == s;
                assert(all@[j]@ == spec_node_loc(tv, uri@, s));
            }
        }
        let fq = Fqn::from_module_name_and_type_name(m.as_str(), id.as_str());
        let files = self.cache.get_files_importing_type(&fq);
        let mut fi: usize = 0;
        while fi < files.len()
            invariant
                self.wf(),
                fi <= files@.len(),
                tv == self.docs()[uri@].tree,
                self.docs().contains_key(uri@),
                idv == id@,
                fq@.key() == keyv,
                forall|j: int|
                    0 <= j < files@.len() ==> self.cache_v().imported.contains_key(
                        #[trigger] files@[j]@,
                    ) && self.cache_v().imported[files@[j]@].contains(keyv),
                forall|u: Seq<char>|
                    self.cache_v().imported.contains_key(u) && self.cache_v().imported[u].contains(
                        keyv,
                    ) ==> exists|j: int| 0 <= j < files@.len() && files@[j]@ == u,
                forall|j: int|
                    0 <= j < all@.len() ==> ref_loc_admissible(
                        self.docs(),
                        self.cache_v(),
                        uri@,
                        idv,
                        keyv,
                        include_declaration,
                        (#[trigger] all@[j])@,
                    ),
                forall|s: int|
                    #[trigger] spec_reference_sites(tv, idv).contains(s) ==> loc_in(
                        all@,
                        spec_node_loc(tv, uri@, s),
                    ),
                forall|fj: int, s: int|
                    #![auto]
                    0 <= fj < fi && files@[fj]@ != uri@ && self.docs().contains_key(files@[fj]@)
                        && spec_reference_sites(self.docs()[files@[fj]@].tree, idv).contains(s)
                        ==> loc_in(
                        all@,
                        spec_node_loc(self.docs()[files@[fj]@].tree, files@[fj]@, s),
                    ),
            decreases files@.len() - fi,
        {
            let fu = &files[fi];
            if !str_eq(fu.as_str(), uri) {
                match self.store.get(fu.as_str()) {
                    Some(fdoc) => {
                        let ghost ftv = fdoc.tree@;
                        let mut frefs = find_references(&fdoc.tree, fu.as_str(), id.as_str());
                        let ghost prev = all@;
                        let ghost fv = frefs@;
                        all.append(&mut frefs);
                        proof {
                            assert(all@ == prev + fv);
                            assert(fv.len() == spec_reference_sites(ftv, idv).len());
                            assert(prev.is_prefix_of(all@)) by {
                                assert(all@.subrange(0, prev.len() as int) =~= prev);
                            }
                            lemma_loc_in_prefix(prev, all@);
                            assert forall|s: int|
                                #[trigger] spec_reference_sites(ftv, idv).contains(s) implies loc_in(
                                all@,
                                spec_node_loc(ftv, fu@, s),
                            ) by {
                                let j = choose|j: int|
                                    0 <= j < spec_reference_sites(ftv, idv).len()
                                        && spec_reference_sites(ftv, idv)[j] == s;
                                assert(all@[prev.len() + j] == fv[j]);
                                assert(fv[j]@ == spec_node_loc(ftv, fu@, s));
                            }
                            assert forall|j: int| 0 <= j < all@.len() implies ref_loc_admissible(
                                self.docs(),
                                self.cache_v(),
                                uri@,
                                idv,
                                keyv,
                                include_declaration,
                                (#[trigger] all@[j])@,
                            ) by {
                                if j >= prev.len() {
                                    assert(all@[j] == fv[j - prev.len()]);
                                    let s = spec_reference_sites(ftv, idv)[j - prev.len()];
                                    assert(spec_reference_sites(ftv, idv).contains(s)) by {
                                        assert(spec_reference_sites(ftv, idv)[j - prev.len()]
                                            == s);
                                    }
                                    assert(all@[j]@ == spec_node_loc(ftv, fu@, s));
                                    assert(files@[fi as int]@ == fu@);
                                    assert(self.cache_v().imported.contains_key(fu@)
                                        && self.cache_v().imported[fu@].contains(keyv));
                                    assert(self.docs().contains_key(fu@) && self.docs()[fu@].tree
                                        == ftv);
                                    assert(fu@ != uri@);
                                    assert(self.cache_v().imported.contains_key(fu@)
                                        && self.cache_v().imported[fu@].contains(keyv) && fu@
                                        != uri@ && self.docs().contains_key(fu@)
                                        && spec_reference_sites(
                                        self.docs()[fu@].tree,
                                        idv,
                                    ).contains(s) && all@[j]@ == spec_node_loc(
                                        self.docs()[fu@].tree,
                                        fu@,
                                        s,
                                    ));
                                } else {
                                    assert(all@[j] == prev[j]);
                                }
                            }
                        }
                    },
                    None => {},
                }
            }
            fi += 1;
        }
        if include_declaration {
            let doc2 = match self.store.get(uri) {
                Some(d) => d,
                None => {
                    // unreachable: the document was found above and nothing
                    // here mutates the store
                    proof {
                        assert(false);
                    }
                    return None;
                },
            };
            match definition(&doc2.tree, uri, id.as_str()) {
                Some(DefinitionLocation::Resolved(loc)) => {
                    let ghost prev = all@;
                    all.push(loc);
                    proof {
                        assert(prev.is_prefix_of(all@)) by {
                            assert(all@.subrange(0, prev.len() as int) =~= prev);
                        }
                        lemma_loc_in_prefix(prev, all@);
                        assert(all@[prev.len() as int]@ == loc@);
                    }
                },
                _ => {},
            }
        }
        if all.len() == 0 {
            proof {
                let sites = spec_reference_sites(tv, idv);
                if sites.len() > 0 {
                    assert(sites.contains(sites[0]));
                }
                assert forall|f: Seq<char>|
                    #![auto]
                    self.cache_v().imported.contains_key(f) && self.cache_v().imported[f].contains(
                        keyv,
                    ) && f != uri@ && self.docs().contains_key(f) implies spec_reference_sites(
                    self.docs()[f].tree,
                    idv,
                ).len() == 0 by {
                    let fsites = spec_reference_sites(self.docs()[f].tree, idv);
                    if fsites.len() > 0 {
                        assert(fsites.contains(fsites[0]));
                        let j = choose|j: int| 0 <= j < files@.len() && files@[j]@ == f;
                        assert(loc_in(
                            all@,
                            spec_node_loc(self.docs()[files@[j]@].tree, files@[j]@, fsites[0]),
                        ));
                    }
                }
            }
            return None;
        }
        Some(all)
    }

    /// Hover content at a position: the fragments of the file's own tree,
    /// and, when the symbol's home is an import, the fragments of the
    /// stored target file appended.  A cache or store miss on that chase
    /// yields nothing.
    pub fn hover_at(&self, uri: &str, line: u32, col: u32) -> (r: Option<Vec<HoverFragment>>)
        requires
            self.wf(),
        ensures
            match r {
                Some(hs) => spec_hover_at(self.docs(), self.cache_v(), uri@, line as int, col as int)
                    == Some(hover_views(hs@)),
                None => spec_hover_at(self.docs(), self.cache_v(), uri@, line as int, col as int)
                    is None,
            },
    {
        let doc = match self.store.get(uri) {
            Some(d) => d,
            None => {
                return None;
            },
        };
        let i = match node_at_position(&doc.tree, line, col) {
            Some(i) => i,
            None => {
                return None;
            },
        };
        if !kind_at_is(&doc.tree, i, "identifier") {
            return None;
        }
        let id = text_at(&doc.tree, i);
        let mut items = hover(&doc.tree, id.as_str());
        match definition(&doc.tree, uri, id.as_str()) {
            Some(DefinitionLocation::Import(unres)) => {
                let module = join_str(&unres.target_module_path, ".");
                proof {
                    reveal_strlit(".");
                    assert("."@ =~= seq!['.']);
                }
                let f = Fqn::from_module_name_and_type_name(module.as_str(), id.as_str());
                let target = match self.cache.lookup_fqn(&f) {
                    Some(t) => t,
                    None => {
                        return None;
                    },
                };
                let tdoc = match self.store.get(target.as_str()) {
                    Some(d) => d,
                    None => {
                        return None;
                    },
                };
                let mut more = hover(&tdoc.tree, id.as_str());
                let ghost g0 = hover_views(items@);
                let ghost g1 = hover_views(more@);
                items.append(&mut more);
                proof {
                    assert(hover_views(items@) =~= g0 + g1);
                }
                Some(items)
            },
            _ => Some(items),
        }
    }

    /// The document symbols of a stored file, flat in document order.
    pub fn document_symbols(&self, uri: &str) -> (r: Option<
        Vec<crate::symbols::DocumentSymbol>,
    >)
        requires
            self.wf(),
        ensures
            match r {
                Some(syms) => self.docs().contains_key(uri@) && crate::symbols::symbols_match(
                    self.docs()[uri@].tree,
                    syms@,
                ),
                None => !self.docs().contains_key(uri@),
            },
    {
        match self.store.get(uri) {
            Some(d) => Some(crate::symbols::collect_document_symbols(&d.tree)),
            None => None,
        }
    }

    /// The diagnostics of a stored file, collected afresh from its tree.
    pub fn diagnostics(&self, uri: &str) -> (r: Option<Vec<Diagnostic>>)
        requires
            self.wf(),
        ensures
            match r {
                Some(ds) => self.docs().contains_key(uri@) && diag_views(ds@)
                    == spec_diagnostics(
                    self.docs()[uri@].tree,
                    self.docs()[uri@].text,
                ),
                None => !self.docs().contains_key(uri@),
            },
    {
        match self.store.get(uri) {
            Some(d) => Some(collect_diagnostics(&d.tree, d.text.as_str())),
            None => None,
        }
    }

    /// Register every definition of a star-imported target module as an
    /// import edge, storing the target document when it is not yet held.
    fn expand_star_import(
        &mut self,
        target_uri: &str,
        content: String,
        imports: &mut Vec<ResolvedImport>,
    )
        requires
            old(self).wf(),
        ensures
            final(self).wf(),
            final(self).cache == old(self).cache,
            docs_preserved(old(self).docs(), final(self).docs()),
            old(imports)@.is_prefix_of(final(imports)@),
            forall|j: int|
                old(imports)@.len() <= j < final(imports)@.len()
                    ==> (#[trigger] final(imports)@[j])@.target == target_uri@,
    {
        proof {
            assert(imports@.is_prefix_of(imports@)) by {
                assert(imports@.subrange(0, imports@.len() as int) =~= imports@);
            }
        }
        let have = self.store.contains(target_uri);
        if !have {
            match parse_adl(content.as_str()) {
                Some(t2) => {
                    self.store.insert(
                        Document { uri: String::from_str(target_uri), text: content, tree: t2 },
                    );
                },
                None => {
                    return;
                },
            }
        }
        let (tmod, tdefs) = match self.store.get(target_uri) {
            Some(doc) => {
                let tmod = tree_module_name(&doc.tree);
                match tmod {
                    Some(tm) => {
                        let tdefs = extract_definitions(&doc.tree, tm.as_str());
                        (Some(tm), tdefs)
                    },
                    None => (None, Vec::new()),
                }
            },
            None => (None, Vec::new()),
        };
        match tmod {
            Some(_) => {
                let mut k: usize = 0;
                while k < tdefs.len()
                    invariant
                        k <= tdefs@.len(),
                        old(imports)@.is_prefix_of(imports@),
                        forall|j: int|
                            old(imports)@.len() <= j < imports@.len() ==> (#[trigger] imports@[
                                j
                            ])@.target == target_uri@,
                    decreases tdefs@.len() - k,
                {
                    let f = Fqn::from_module_name_and_type_name(
                        tdefs[k].module_name(),
                        tdefs[k].local_type_name(),
                    );
                    let ghost prev = imports@;
                    imports.push(ResolvedImport { fqn: f, target_uri: String::from_str(target_uri) });
                    proof {
                        assert(prev.is_prefix_of(imports@)) by {
                            assert(imports@.subrange(0, prev.len() as int) =~= prev);
                        }
                        assert(forall|j: int| 0 <= j < prev.len() ==> imports@[j] == prev[j]);
                    }
                    k += 1;
                }
            },
            None => {},
        }
    }
}

} // verus!
