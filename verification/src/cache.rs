//! The bidirectional fully-qualified-name cache.
//!
//! Three coupled indices answer the cross-file questions: where an FQN is
//! defined, which FQNs a file defines, and which FQNs a file imports.  All
//! mutation goes through whole-file eviction and repopulation, applied as one
//! unit per ingestion, so a file's prior contribution never mixes with its
//! new one.

use vstd::prelude::*;
use vstd::string::StringExecFns;
use vstd::hash_map::StringHashMap;
use crate::fqn::Fqn;
use crate::text::{clone_strings, contains_str, views_of};

verus! {

/// The mathematical value of the cache: the three indices as maps.
pub ghost struct CacheV {
    /// FQN key to the URI of the file recorded as defining it.
    pub def: Map<Seq<char>, Seq<char>>,
    /// File URI to the set of FQN keys recorded as defined by it.
    pub defined: Map<Seq<char>, Set<Seq<char>>>,
    /// File URI to the set of FQN keys it imports.
    pub imported: Map<Seq<char>, Set<Seq<char>>>,
}

/// The set of FQN keys a file is recorded as defining, empty when the file
/// has no entry.
pub open spec fn defined_keys_of(c: CacheV, u: Seq<char>) -> Set<Seq<char>> {
    if c.defined.contains_key(u) {
        c.defined[u]
    } else {
        Set::empty()
    }
}

/// Add one key to the set a map holds under `x`, starting from the empty set
/// when `x` has no entry.
pub open spec fn set_add(
    m: Map<Seq<char>, Set<Seq<char>>>,
    x: Seq<char>,
    k: Seq<char>,
) -> Map<Seq<char>, Set<Seq<char>>> {
    m.insert(x, (if m.contains_key(x) {
        m[x]
    } else {
        Set::empty()
    }).insert(k))
}

/// Purge a file's whole contribution: the definition locations of every FQN
/// it defined, its defined set, and its imported set.  The purge is
/// unconditional; it does not ask whether another file also defines one of
/// the FQNs.
pub open spec fn spec_evict(c: CacheV, u: Seq<char>) -> CacheV {
    CacheV {
        def: c.def.remove_keys(defined_keys_of(c, u)),
        defined: c.defined.remove(u),
        imported: c.imported.remove(u),
    }
}

/// Record that file `u` defines the FQN with key `k`.
pub open spec fn spec_record_def(c: CacheV, u: Seq<char>, k: Seq<char>) -> CacheV {
    CacheV { def: c.def.insert(k, u), defined: set_add(c.defined, u, k), imported: c.imported }
}

/// Record that file `u` imports the FQN with key `k` from the file `t`.
pub open spec fn spec_record_import(c: CacheV, u: Seq<char>, k: Seq<char>, t: Seq<char>) -> CacheV {
    CacheV {
        def: c.def.insert(k, t),
        defined: set_add(c.defined, t, k),
        imported: set_add(c.imported, u, k),
    }
}

/// One import edge: an FQN key and the URI of the file it resolved to.
pub ghost struct ImportV {
    pub key: Seq<char>,
    pub target: Seq<char>,
}

/// Record a file's definitions, in order.
pub open spec fn spec_record_defs(c: CacheV, u: Seq<char>, defs: Seq<Seq<char>>) -> CacheV
    decreases defs.len(),
{
    if defs.len() == 0 {
        c
    } else {
        spec_record_def(spec_record_defs(c, u, defs.drop_last()), u, defs.last())
    }
}

/// Record a file's import edges, in order.
pub open spec fn spec_record_imports(c: CacheV, u: Seq<char>, imps: Seq<ImportV>) -> CacheV
    decreases imps.len(),
{
    if imps.len() == 0 {
        c
    } else {
        spec_record_import(
            spec_record_imports(c, u, imps.drop_last()),
            u,
            imps.last().key,
            imps.last().target,
        )
    }
}

/// One file's whole ingestion step: evict its prior contribution, then
/// record its definitions, then its import edges.
pub open spec fn spec_apply(
    c: CacheV,
    u: Seq<char>,
    defs: Seq<Seq<char>>,
    imps: Seq<ImportV>,
) -> CacheV {
    spec_record_imports(spec_record_defs(spec_evict(c, u), u, defs), u, imps)
}

// ---------------------------------------------------------------------------
// The imported-symbols index, an association vector so that the files
// importing a given FQN can be enumerated.
// ---------------------------------------------------------------------------

struct ImportEntry {
    uri: String,
    keys: Vec<String>,
}

/// The set of key strings a vector holds.
pub open spec fn key_set(v: Seq<Seq<char>>) -> Set<Seq<char>> {
    v.to_set()
}

proof fn lemma_to_set_push(s: Seq<Seq<char>>, x: Seq<char>)
    ensures
        s.push(x).to_set() =~= s.to_set().insert(x),
{
    assert forall|a: Seq<char>| #[trigger] s.push(x).to_set().contains(a) implies s.to_set().insert(
        x,
    ).contains(a) by {
        let i = choose|i: int| 0 <= i < s.push(x).len() && s.push(x)[i] == a;
        if i < s.len() {
            assert(s[i] == a);
        }
    }
    assert forall|a: Seq<char>| s.to_set().insert(x).contains(a) implies #[trigger] s.push(
        x,
    ).to_set().contains(a) by {
        if a == x {
            assert(s.push(x)[s.len() as int] == a);
        } else {
            let i = choose|i: int| 0 <= i < s.len() && s[i] == a;
            assert(s.push(x)[i] == a);
        }
    }
}

proof fn lemma_to_set_empty()
    ensures
        Seq::<Seq<char>>::empty().to_set() =~= Set::<Seq<char>>::empty(),
{
    assert forall|a: Seq<char>| !(#[trigger] Seq::<Seq<char>>::empty().to_set().contains(a)) by {
        if Seq::<Seq<char>>::empty().to_set().contains(a) {
            let i = choose|i: int|
                0 <= i < Seq::<Seq<char>>::empty().len() && Seq::<Seq<char>>::empty()[i] == a;
        }
    }
}

spec fn ii_map(s: Seq<ImportEntry>) -> Map<Seq<char>, Set<Seq<char>>>
    decreases s.len(),
{
    if s.len() == 0 {
        Map::empty()
    } else {
        ii_map(s.drop_last()).insert(s.last().uri@, key_set(views_of(s.last().keys@)))
    }
}

spec fn ii_unique(s: Seq<ImportEntry>) -> bool {
    forall|i: int, j: int| 0 <= i < j < s.len() ==> s[i].uri@ != s[j].uri@
}

struct ImportIndex {
    entries: Vec<ImportEntry>,
}

impl ImportIndex {
    spec fn view_map(&self) -> Map<Seq<char>, Set<Seq<char>>> {
        ii_map(self.entries@)
    }

    spec fn wf(&self) -> bool {
        ii_unique(self.entries@)
    }
}

proof fn lemma_ii_map_dom(s: Seq<ImportEntry>, u: Seq<char>)
    ensures
        ii_map(s).contains_key(u) <==> exists|i: int| 0 <= i < s.len() && s[i].uri@ == u,
    decreases s.len(),
{
    if s.len() > 0 {
        lemma_ii_map_dom(s.drop_last(), u);
        if ii_map(s).contains_key(u) {
            if s.last().uri@ == u {
                assert(s[s.len() - 1].uri@ == u);
            } else {
                let i = choose|i: int| 0 <= i < s.len() - 1 && s.drop_last()[i].uri@ == u;
                assert(s[i].uri@ == u);
            }
        }
        if exists|i: int| 0 <= i < s.len() && s[i].uri@ == u {
            let i = choose|i: int| 0 <= i < s.len() && s[i].uri@ == u;
            if i < s.len() - 1 {
                assert(s.drop_last()[i].uri@ == u);
            }
        }
    }
}

proof fn lemma_ii_map_index(s: Seq<ImportEntry>, i: int)
    requires
        ii_unique(s),
        0 <= i < s.len(),
    ensures
        ii_map(s).contains_key(s[i].uri@),
        ii_map(s)[s[i].uri@] == key_set(views_of(s[i].keys@)),
    decreases s.len(),
{
    if i == s.len() - 1 {
    } else {
        assert(s.drop_last()[i] == s[i]);
        lemma_ii_map_index(s.drop_last(), i);
        assert(s[s.len() - 1].uri@ != s[i].uri@);
    }
}

proof fn lemma_ii_map_remove(s: Seq<ImportEntry>, i: int)
    requires
        ii_unique(s),
        0 <= i < s.len(),
    ensures
        ii_map(s.remove(i)) =~= ii_map(s).remove(s[i].uri@),
        ii_unique(s.remove(i)),
    decreases s.len(),
{
    if i == s.len() - 1 {
        assert(s.remove(i) =~= s.drop_last());
        lemma_ii_map_dom(s.drop_last(), s[i].uri@);
        assert forall|u: Seq<char>| #[trigger] ii_map(s.drop_last()).contains_key(u) implies u
            != s[i].uri@ by {
            lemma_ii_map_dom(s.drop_last(), u);
            let j = choose|j: int| 0 <= j < s.len() - 1 && s.drop_last()[j].uri@ == u;
            assert(s[j].uri@ == u);
        }
    } else {
        assert(s.remove(i).drop_last() =~= s.drop_last().remove(i));
        assert(s.remove(i).last() == s.last());
        lemma_ii_map_remove(s.drop_last(), i);
        assert(s.drop_last()[i] == s[i]);
        assert(ii_map(s.remove(i)) =~= ii_map(s.drop_last().remove(i)).insert(
            s.last().uri@,
            key_set(views_of(s.last().keys@)),
        ));
        assert(s.last().uri@ != s[i].uri@);
    }
}

impl ImportIndex {
    fn new() -> (r: Self)
        ensures
            r.view_map() == Map::<Seq<char>, Set<Seq<char>>>::empty(),
            r.wf(),
    {
        ImportIndex { entries: Vec::new() }
    }

    fn clear(&mut self)
        ensures
            final(self).view_map() == Map::<Seq<char>, Set<Seq<char>>>::empty(),
            final(self).wf(),
    {
        self.entries = Vec::new();
    }

    /// The index of the entry for `uri`, when there is one.
    fn find_entry(&self, uri: &str) -> (r: Option<usize>)
        requires
            self.wf(),
        ensures
            match r {
                Some(i) => i < self.entries@.len() && self.entries@[i as int].uri@ == uri@,
                None => forall|i: int|
                    0 <= i < self.entries@.len() ==> self.entries@[i as int].uri@ != uri@,
            },
    {
        let mut i: usize = 0;
        while i < self.entries.len()
            invariant
                i <= self.entries@.len(),
                forall|j: int| 0 <= j < i ==> self.entries@[j].uri@ != uri@,
            decreases self.entries@.len() - i,
        {
            if crate::text::str_eq(self.entries[i].uri.as_str(), uri) {
                return Some(i);
            }
            i += 1;
        }
        None
    }

    fn remove_uri(&mut self, uri: &str)
        requires
            old(self).wf(),
        ensures
            final(self).wf(),
            final(self).view_map() == old(self).view_map().remove(uri@),
    {
        let found = self.find_entry(uri);
        match found {
            Some(i) => {
                proof {
                    lemma_ii_map_remove(self.entries@, i as int);
                }
                self.entries.remove(i);
            },
            None => {
                proof {
                    lemma_ii_map_dom(self.entries@, uri@);
                    assert(!self.view_map().contains_key(uri@));
                    assert(self.view_map().remove(uri@) =~= self.view_map());
                }
            },
        }
    }

    fn add_key(&mut self, uri: &str, key: &str)
        requires
            old(self).wf(),
        ensures
            final(self).wf(),
            final(self).view_map() == set_add(old(self).view_map(), uri@, key@),
    {
        let found = self.find_entry(uri);
        match found {
            Some(i) => {
                proof {
                    lemma_ii_map_index(self.entries@, i as int);
                    lemma_ii_map_remove(self.entries@, i as int);
                }
                let mut e = self.entries.remove(i);
                let ghost old_views = views_of(e.keys@);
                e.keys.push(String::from_str(key));
                proof {
                    assert(views_of(e.keys@) =~= old_views.push(key@));
                    lemma_to_set_push(old_views, key@);
                    assert(key_set(views_of(e.keys@)) =~= key_set(old_views).insert(key@));
                }
                let ghost mid = self.entries@;
                self.entries.push(e);
                proof {
                    assert(self.entries@.drop_last() =~= mid);
                    assert forall|a: int, b: int|
                        0 <= a < b < self.entries@.len() implies self.entries@[a].uri@
                        != self.entries@[b].uri@ by {
                        if b == self.entries@.len() - 1 {
                            lemma_ii_map_dom(mid, self.entries@[a].uri@);
                            if self.entries@[a].uri@ == uri@ {
                                assert(mid[a] == old(self).entries@.remove(i as int)[a]);
                            }
                        }
                    }
                    assert(self.view_map() =~= set_add(ii_map(old(self).entries@), uri@, key@));
                }
            },
            None => {
                let mut ks: Vec<String> = Vec::new();
                ks.push(String::from_str(key));
                let e = ImportEntry { uri: String::from_str(uri), keys: ks };
                let ghost mid = self.entries@;
                proof {
                    lemma_ii_map_dom(mid, uri@);
                }
                self.entries.push(e);
                proof {
                    assert(self.entries@.drop_last() =~= mid);
                    assert(views_of(self.entries@.last().keys@) =~= Seq::<Seq<char>>::empty().push(
                        key@,
                    ));
                    lemma_to_set_push(Seq::<Seq<char>>::empty(), key@);
                    lemma_to_set_empty();
                    assert(key_set(views_of(self.entries@.last().keys@)) =~= Set::<
                        Seq<char>,
                    >::empty().insert(key@));
                    assert(self.view_map() =~= set_add(ii_map(mid), uri@, key@));
                }
            },
        }
    }

    /// Every file whose imported set holds `key`, in index order, without
    /// duplicates.
    #[verifier::rlimit(30)]
    fn files_with_key(&self, key: &str) -> (r: Vec<String>)
        requires
            self.wf(),
        ensures
            forall|j: int|
                0 <= j < r@.len() ==> self.view_map().contains_key(#[trigger] r@[j]@)
                    && self.view_map()[r@[j]@].contains(key@),
            forall|u: Seq<char>|
                self.view_map().contains_key(u) && self.view_map()[u].contains(key@)
                    ==> exists|j: int| 0 <= j < r@.len() && r@[j]@ == u,
            forall|j1: int, j2: int| 0 <= j1 < j2 < r@.len() ==> r@[j1]@ != r@[j2]@,
    {
        let ghost s = self.entries@;
        let mut r: Vec<String> = Vec::new();
        let mut i: usize = 0;
        while i < self.entries.len()
            invariant
                self.wf(),
                s == self.entries@,
                i <= s.len(),
                r@.len() == matching_idx_upto(s, key@, i as int).len(),
                forall|j: int|
                    0 <= j < r@.len() ==> #[trigger] r@[j]@ == s[matching_idx_upto(
                        s,
                        key@,
                        i as int,
                    )[j]].uri@,
            decreases s.len() - i,
        {
            let ghost prev = matching_idx_upto(s, key@, i as int);
            if contains_str(&self.entries[i].keys, key) {
                let u = String::from_str(self.entries[i].uri.as_str());
                proof {
                    assert(forall|j: int|
                        0 <= j < prev.len() ==> #[trigger] prev.push(i as int)[j] == prev[j]);
                }
                r.push(u);
            }
            i += 1;
        }
        proof {
            let n = s.len() as int;
            lemma_matching_idx(s, key@, n);
            let ms = matching_idx_upto(s, key@, n);
            assert forall|j: int| 0 <= j < r@.len() implies self.view_map().contains_key(
                #[trigger] r@[j]@,
            ) && self.view_map()[r@[j]@].contains(key@) by {
                lemma_ii_map_index(s, ms[j]);
            }
            assert forall|u: Seq<char>|
                self.view_map().contains_key(u) && self.view_map()[u].contains(key@) implies exists|
                j: int,
            |
                0 <= j < r@.len() && r@[j]@ == u by {
                lemma_ii_map_dom(s, u);
                let m = choose|m: int| 0 <= m < s.len() && s[m].uri@ == u;
                lemma_ii_map_index(s, m);
                assert(views_of(s[m].keys@).contains(key@));
                assert(ms.contains(m));
                let j = choose|j: int| 0 <= j < ms.len() && ms[j] == m;
                assert(r@[j]@ == u);
            }
            assert forall|j1: int, j2: int| 0 <= j1 < j2 < r@.len() implies r@[j1]@ != r@[j2]@ by {
                assert(ms[j1] < ms[j2]);
                assert(s[ms[j1]].uri@ != s[ms[j2]].uri@);
            }
        }
        r
    }
}

/// The URI views of picked entries, in order.
spec fn idx_views_str(s: Seq<String>) -> Seq<Seq<char>> {
    s.map_values(|x: String| x@)
}

// ---------------------------------------------------------------------------
// The cache itself
// ---------------------------------------------------------------------------

/// One import edge as resolved during ingestion: the imported FQN and the
/// file it resolved to.
pub struct ResolvedImport {
    pub fqn: Fqn,
    pub target_uri: String,
}

impl View for ResolvedImport {
    type V = ImportV;

    open spec fn view(&self) -> ImportV {
        ImportV { key: self.fqn@.key(), target: self.target_uri@ }
    }
}

/// The cache keys of a list of FQNs, in order.
pub open spec fn def_keys_of(s: Seq<Fqn>) -> Seq<Seq<char>> {
    s.map_values(|f: Fqn| f@.key())
}

/// The views of a list of resolved imports, in order.
pub open spec fn import_views(s: Seq<ResolvedImport>) -> Seq<ImportV> {
    s.map_values(|r: ResolvedImport| r@)
}

/// The bidirectional FQN cache.
pub struct FqnCache {
    defs: StringHashMap<String>,
    defined: StringHashMap<Vec<String>>,
    imported: ImportIndex,
}

impl View for FqnCache {
    type V = CacheV;

    closed spec fn view(&self) -> CacheV {
        CacheV {
            def: self.defs@.map_values(|s: String| s@),
            defined: self.defined@.map_values(|v: Vec<String>| key_set(views_of(v@))),
            imported: self.imported.view_map(),
        }
    }
}

/// The cache with nothing recorded.
pub open spec fn empty_cache() -> CacheV {
    CacheV { def: Map::empty(), defined: Map::empty(), imported: Map::empty() }
}

impl FqnCache {
    /// Internal consistency of the imported-symbols index.
    pub closed spec fn wf(&self) -> bool {
        self.imported.wf()
    }

    pub fn new() -> (r: Self)
        ensures
            r@ == empty_cache(),
            r.wf(),
    {
        let r = FqnCache {
            defs: StringHashMap::new(),
            defined: StringHashMap::new(),
            imported: ImportIndex::new(),
        };
        proof {
            assert(r@.def =~= empty_cache().def);
            assert(r@.defined =~= empty_cache().defined);
        }
        r
    }

    /// Drop every entry of all three indices.
    pub fn clear(&mut self)
        ensures
            final(self)@ == empty_cache(),
            final(self).wf(),
    {
        self.defs.clear();
        self.defined.clear();
        self.imported.clear();
        proof {
            assert(self@.def =~= empty_cache().def);
            assert(self@.defined =~= empty_cache().defined);
        }
    }

    /// The file recorded as defining `fqn`, if any.
    pub fn lookup_fqn(&self, fqn: &Fqn) -> (r: Option<String>)
        ensures
            match r {
                Some(u) => self@.def.contains_key(fqn@.key()) && u@ == self@.def[fqn@.key()],
                None => !self@.def.contains_key(fqn@.key()),
            },
    {
        let k = fqn.full_name();
        match self.defs.get(k.as_str()) {
            Some(u) => Some(String::from_str(u.as_str())),
            None => None,
        }
    }

    /// Every file whose imported set holds `fqn`, without duplicates.
    pub fn get_files_importing_type(&self, fqn: &Fqn) -> (r: Vec<String>)
        requires
            self.wf(),
        ensures
            forall|j: int|
                0 <= j < r@.len() ==> self@.imported.contains_key(#[trigger] r@[j]@)
                    && self@.imported[r@[j]@].contains(fqn@.key()),
            forall|u: Seq<char>|
                self@.imported.contains_key(u) && self@.imported[u].contains(fqn@.key())
                    ==> exists|j: int| 0 <= j < r@.len() && r@[j]@ == u,
            forall|j1: int, j2: int| 0 <= j1 < j2 < r@.len() ==> r@[j1]@ != r@[j2]@,
    {
        let k = fqn.full_name();
        self.imported.files_with_key(k.as_str())
    }

    /// Record that the file `uri` defines `fqn`.
    pub fn record_definition(&mut self, uri: &str, fqn: &Fqn)
        requires
            old(self).wf(),
        ensures
            final(self).wf(),
            final(self)@ == spec_record_def(old(self)@, uri@, fqn@.key()),
    {
        let k = fqn.full_name();
        let ghost old_def = self@.def;
        let ghost old_defined = self@.defined;
        self.defs.insert(k.clone(), String::from_str(uri));
        proof {
            assert(self@.def =~= old_def.insert(fqn@.key(), uri@));
        }
        let mut cur = match self.defined.get(uri) {
            Some(v) => clone_strings(v),
            None => Vec::new(),
        };
        let ghost cur_views = views_of(cur@);
        proof {
            lemma_to_set_empty();
            assert(key_set(cur_views) == defined_keys_of(
                CacheV { def: old_def, defined: old_defined, imported: self@.imported },
                uri@,
            ));
        }
        cur.push(k);
        proof {
            assert(views_of(cur@) =~= cur_views.push(fqn@.key()));
            lemma_to_set_push(cur_views, fqn@.key());
        }
        self.defined.insert(String::from_str(uri), cur);
        proof {
            assert(self@.defined =~= set_add(old_defined, uri@, fqn@.key()));
        }
    }

    /// Record that the file `source_uri` imports `fqn` from `target_uri`;
    /// the target is also recorded as the FQN's definer.
    pub fn record_import(&mut self, source_uri: &str, fqn: &Fqn, target_uri: &str)
        requires
            old(self).wf(),
        ensures
            final(self).wf(),
            final(self)@ == spec_record_import(
                old(self)@,
                source_uri@,
                fqn@.key(),
                target_uri@,
            ),
    {
        let k = fqn.full_name();
        let ghost old_def = self@.def;
        let ghost old_defined = self@.defined;
        self.defs.insert(k.clone(), String::from_str(target_uri));
        proof {
            assert(self@.def =~= old_def.insert(fqn@.key(), target_uri@));
        }
        let mut cur = match self.defined.get(target_uri) {
            Some(v) => clone_strings(v),
            None => Vec::new(),
        };
        let ghost cur_views = views_of(cur@);
        proof {
            lemma_to_set_empty();
            assert(key_set(cur_views) == (if old_defined.contains_key(target_uri@) {
                old_defined[target_uri@]
            } else {
                Set::<Seq<char>>::empty()
            }));
        }
        cur.push(k.clone());
        proof {
            assert(views_of(cur@) =~= cur_views.push(fqn@.key()));
            lemma_to_set_push(cur_views, fqn@.key());
        }
        self.defined.insert(String::from_str(target_uri), cur);
        proof {
            assert(self@.defined =~= set_add(old_defined, target_uri@, fqn@.key()));
        }
        self.imported.add_key(source_uri, k.as_str());
    }

    /// Purge the file's whole contribution from all three indices.
    pub fn evict_file(&mut self, uri: &str)
        requires
            old(self).wf(),
        ensures
            final(self).wf(),
            final(self)@ == spec_evict(old(self)@, uri@),
    {
        let ghost old_def = self@.def;
        let ghost removed = defined_keys_of(old(self)@, uri@);
        match self.defined.get(uri) {
            Some(ks) => {
                let ghost kv = views_of(ks@);
                let mut i: usize = 0;
                proof {
                    assert(self@.def =~= old_def.remove_keys(kv.take(0).to_set())) by {
                        lemma_to_set_empty_take(kv);
                    }
                }
                while i < ks.len()
                    invariant
                        i <= kv.len(),
                        kv == views_of(ks@),
                        old(self).defined@.contains_key(uri@),
                        ks == old(self).defined@[uri@],
                        self.defined == old(self).defined,
                        self.imported == old(self).imported,
                        self@.def == old_def.remove_keys(kv.take(i as int).to_set()),
                        old_def == old(self)@.def,
                    decreases kv.len() - i,
                {
                    proof {
                        assert(kv[i as int] == ks@[i as int]@);
                    }
                    let ghost prev = self@.def;
                    self.defs.remove(ks[i].as_str());
                    proof {
                        assert(kv.take(i + 1) =~= kv.take(i as int).push(kv[i as int]));
                        lemma_to_set_push(kv.take(i as int), kv[i as int]);
                        assert(self@.def =~= prev.remove(kv[i as int]));
                        assert(prev.remove(kv[i as int]) =~= old_def.remove_keys(
                            kv.take(i + 1).to_set(),
                        ));
                    }
                    i += 1;
                }
                proof {
                    assert(kv.take(kv.len() as int) =~= kv);
                    assert(removed == kv.to_set());
                }
            },
            None => {
                proof {
                    assert(removed =~= Set::<Seq<char>>::empty());
                    assert(self@.def =~= old_def.remove_keys(removed));
                }
            },
        }
        let ghost mid_defined = self@.defined;
        self.defined.remove(uri);
        proof {
            assert(self@.defined =~= mid_defined.remove(uri@));
        }
        self.imported.remove_uri(uri);
    }

    /// One file's whole ingestion step, applied as a unit: evict the file's
    /// prior contribution, then record its definitions and import edges.
    pub fn apply_file_update(&mut self, uri: &str, defs: &Vec<Fqn>, imports: &Vec<ResolvedImport>)
        requires
            old(self).wf(),
        ensures
            final(self).wf(),
            final(self)@ == spec_apply(
                old(self)@,
                uri@,
                def_keys_of(defs@),
                import_views(imports@),
            ),
    {
        self.evict_file(uri);
        let ghost evicted = self@;
        let mut i: usize = 0;
        proof {
            assert(spec_record_defs(evicted, uri@, def_keys_of(defs@).take(0)) == evicted);
        }
        while i < defs.len()
            invariant
                old(self).wf(),
                i <= defs@.len(),
                self.wf(),
                self@ == spec_record_defs(evicted, uri@, def_keys_of(defs@).take(i as int)),
            decreases defs@.len() - i,
        {
            proof {
                assert(def_keys_of(defs@).take(i + 1).drop_last() =~= def_keys_of(defs@).take(
                    i as int,
                ));
                assert(def_keys_of(defs@).take(i + 1).last() == defs@[i as int]@.key());
            }
            self.record_definition(uri, &defs[i]);
            i += 1;
        }
        proof {
            assert(def_keys_of(defs@).take(defs@.len() as int) =~= def_keys_of(defs@));
        }
        let ghost with_defs = self@;
        let mut j: usize = 0;
        proof {
            assert(spec_record_imports(with_defs, uri@, import_views(imports@).take(0))
                == with_defs);
        }
        while j < imports.len()
            invariant
                j <= imports@.len(),
                self.wf(),
                self@ == spec_record_imports(
                    with_defs,
                    uri@,
                    import_views(imports@).take(j as int),
                ),
                with_defs == spec_record_defs(spec_evict(old(self)@, uri@), uri@, def_keys_of(defs@)),
            decreases imports@.len() - j,
        {
            proof {
                assert(import_views(imports@).take(j + 1).drop_last() =~= import_views(
                    imports@,
                ).take(j as int));
                assert(import_views(imports@).take(j + 1).last() == imports@[j as int]@);
            }
            self.record_import(uri, &imports[j].fqn, imports[j].target_uri.as_str());
            j += 1;
        }
        proof {
            assert(import_views(imports@).take(imports@.len() as int) =~= import_views(imports@));
        }
    }
}

proof fn lemma_to_set_empty_take(s: Seq<Seq<char>>)
    ensures
        s.take(0).to_set() =~= Set::<Seq<char>>::empty(),
{
    assert(s.take(0) =~= Seq::<Seq<char>>::empty());
    lemma_to_set_empty();
}

/// The indices, in order, of the entries among the first `n` whose key
/// vector holds `key`.
spec fn matching_idx_upto(s: Seq<ImportEntry>, key: Seq<char>, n: int) -> Seq<int>
    decreases n,
{
    if n <= 0 {
        Seq::empty()
    } else if views_of(s[n - 1].keys@).contains(key) {
        matching_idx_upto(s, key, n - 1).push(n - 1)
    } else {
        matching_idx_upto(s, key, n - 1)
    }
}

proof fn lemma_matching_idx(s: Seq<ImportEntry>, key: Seq<char>, n: int)
    requires
        0 <= n <= s.len(),
    ensures
        forall|j: int|
            0 <= j < matching_idx_upto(s, key, n).len() ==> 0 <= #[trigger] matching_idx_upto(
                s,
                key,
                n,
            )[j] < n && views_of(s[matching_idx_upto(s, key, n)[j]].keys@).contains(key),
        forall|m: int|
            0 <= m < n && views_of(#[trigger] s[m].keys@).contains(key) ==> matching_idx_upto(
                s,
                key,
                n,
            ).contains(m),
        forall|j1: int, j2: int|
            0 <= j1 < j2 < matching_idx_upto(s, key, n).len() ==> matching_idx_upto(s, key, n)[j1]
                < matching_idx_upto(s, key, n)[j2],
    decreases n,
{
    if n > 0 {
        lemma_matching_idx(s, key, n - 1);
        let prev = matching_idx_upto(s, key, n - 1);
        let cur = matching_idx_upto(s, key, n);
        assert forall|m: int|
            0 <= m < n && views_of(#[trigger] s[m].keys@).contains(key) implies cur.contains(
            m,
        ) by {
            if m < n - 1 {
                assert(prev.contains(m));
                let j = choose|j: int| 0 <= j < prev.len() && prev[j] == m;
                assert(cur[j] == m);
            } else {
                assert(cur[cur.len() - 1] == m);
            }
        }
    }
}

} // verus!
