//! Laws of the cache's ingestion step.
//!
//! An ingestion step for one file — evict, then record definitions, then
//! record import edges — leaves that file's cache entries a function of the
//! recorded data alone.  From that follow idempotence of re-ingestion and
//! unconditional invalidation of removed definitions.

use vstd::prelude::*;
use crate::cache::{
    spec_apply, spec_evict, spec_record_def, spec_record_defs, spec_record_import,
    spec_record_imports, CacheV, ImportV,
};

verus! {

/// Whether some import edge carries the key `k`.
pub open spec fn has_import(imps: Seq<ImportV>, k: Seq<char>) -> bool {
    exists|i: int| 0 <= i < imps.len() && imps[i].key == k
}

/// Whether some import edge resolves to the file `x`.
pub open spec fn has_import_into(imps: Seq<ImportV>, x: Seq<char>) -> bool {
    exists|i: int| 0 <= i < imps.len() && imps[i].target == x
}

/// Whether some import edge carries the key `k` and resolves to the file `x`.
pub open spec fn has_import_edge(imps: Seq<ImportV>, k: Seq<char>, x: Seq<char>) -> bool {
    exists|i: int| 0 <= i < imps.len() && imps[i].key == k && imps[i].target == x
}

/// The target of the last import edge carrying `k`: the edge whose record
/// wins in the definition index.
pub open spec fn last_import_target(imps: Seq<ImportV>, k: Seq<char>) -> Seq<char>
    decreases imps.len(),
{
    if imps.len() == 0 {
        Seq::empty()
    } else if imps.last().key == k {
        imps.last().target
    } else {
        last_import_target(imps.drop_last(), k)
    }
}

/// Where the definition index points for a key the step records: at the last
/// import edge carrying it, else at the ingested file itself.
pub open spec fn recorded_target(
    u: Seq<char>,
    defs: Seq<Seq<char>>,
    imps: Seq<ImportV>,
    k: Seq<char>,
) -> Seq<char> {
    if has_import(imps, k) {
        last_import_target(imps, k)
    } else {
        u
    }
}

proof fn lemma_has_import_drop_last(imps: Seq<ImportV>, k: Seq<char>)
    requires
        imps.len() > 0,
    ensures
        has_import(imps, k) == (has_import(imps.drop_last(), k) || imps.last().key == k),
        has_import_into(imps, k) == (has_import_into(imps.drop_last(), k) || imps.last().target
            == k),
        forall|x: Seq<char>|
            has_import_edge(imps, k, x) == (has_import_edge(imps.drop_last(), k, x) || (
            imps.last().key == k && imps.last().target == x)),
{
    let front = imps.drop_last();
    assert(imps[imps.len() - 1] == imps.last());
    if has_import(front, k) {
        let i = choose|i: int| 0 <= i < front.len() && front[i].key == k;
        assert(imps[i].key == k);
    }
    if has_import(imps, k) && imps.last().key != k {
        let i = choose|i: int| 0 <= i < imps.len() && imps[i].key == k;
        assert(front[i] == imps[i]);
    }
    if has_import_into(front, k) {
        let i = choose|i: int| 0 <= i < front.len() && front[i].target == k;
        assert(imps[i].target == k);
    }
    if has_import_into(imps, k) && imps.last().target != k {
        let i = choose|i: int| 0 <= i < imps.len() && imps[i].target == k;
        assert(front[i] == imps[i]);
    }
    assert forall|x: Seq<char>|
        has_import_edge(imps, k, x) == (has_import_edge(front, k, x) || (imps.last().key == k
            && imps.last().target == x)) by {
        if has_import_edge(front, k, x) {
            let i = choose|i: int| 0 <= i < front.len() && front[i].key == k && front[i].target
                == x;
            assert(imps[i].key == k && imps[i].target == x);
        }
        if has_import_edge(imps, k, x) && !(imps.last().key == k && imps.last().target == x) {
            let i = choose|i: int| 0 <= i < imps.len() && imps[i].key == k && imps[i].target == x;
            assert(front[i] == imps[i]);
        }
    }
}

proof fn lemma_defs_imported(c0: CacheV, u: Seq<char>, defs: Seq<Seq<char>>)
    ensures
        spec_record_defs(c0, u, defs).imported == c0.imported,
    decreases defs.len(),
{
    if defs.len() > 0 {
        lemma_defs_imported(c0, u, defs.drop_last());
    }
}

proof fn lemma_defs_def(c0: CacheV, u: Seq<char>, defs: Seq<Seq<char>>, k: Seq<char>)
    ensures
        defs.contains(k) ==> spec_record_defs(c0, u, defs).def.contains_key(k)
            && spec_record_defs(c0, u, defs).def[k] == u,
        !defs.contains(k) ==> spec_record_defs(c0, u, defs).def.contains_key(k)
            == c0.def.contains_key(k) && (c0.def.contains_key(k) ==> spec_record_defs(
            c0,
            u,
            defs,
        ).def[k] == c0.def[k]),
    decreases defs.len(),
{
    if defs.len() > 0 {
        let front = defs.drop_last();
        lemma_defs_def(c0, u, front, k);
        assert(defs[defs.len() - 1] == defs.last());
        if front.contains(k) {
            let i = choose|i: int| 0 <= i < front.len() && front[i] == k;
            assert(defs[i] == k);
        }
        if defs.contains(k) && k != defs.last() {
            let i = choose|i: int| 0 <= i < defs.len() && defs[i] == k;
            assert(front[i] == k);
        }
    }
}

proof fn lemma_defs_defined(c0: CacheV, u: Seq<char>, defs: Seq<Seq<char>>, x: Seq<char>)
    ensures
        x != u ==> spec_record_defs(c0, u, defs).defined.contains_key(x)
            == c0.defined.contains_key(x) && (c0.defined.contains_key(x) ==> spec_record_defs(
            c0,
            u,
            defs,
        ).defined[x] == c0.defined[x]),
        spec_record_defs(c0, u, defs).defined.contains_key(u) == (c0.defined.contains_key(u)
            || defs.len() > 0),
        forall|k: Seq<char>|
            spec_record_defs(c0, u, defs).defined.contains_key(u) ==> (#[trigger] spec_record_defs(
                c0,
                u,
                defs,
            ).defined[u].contains(k)) == ((c0.defined.contains_key(u) && c0.defined[u].contains(
                k,
            )) || defs.contains(k)),
    decreases defs.len(),
{
    if defs.len() > 0 {
        let front = defs.drop_last();
        lemma_defs_defined(c0, u, front, x);
        let cf = spec_record_defs(c0, u, front);
        assert(defs[defs.len() - 1] == defs.last());
        assert forall|k: Seq<char>| spec_record_defs(c0, u, defs).defined.contains_key(u) implies (
        #[trigger] spec_record_defs(c0, u, defs).defined[u].contains(k)) == ((
        c0.defined.contains_key(u) && c0.defined[u].contains(k)) || defs.contains(k)) by {
            assert(cf.defined.contains_key(u) ==> (cf.defined[u].contains(k) == ((
            c0.defined.contains_key(u) && c0.defined[u].contains(k)) || front.contains(k))));
            if front.contains(k) {
                let i = choose|i: int| 0 <= i < front.len() && front[i] == k;
                assert(defs[i] == k);
            }
            if defs.contains(k) && k != defs.last() {
                let i = choose|i: int| 0 <= i < defs.len() && defs[i] == k;
                assert(front[i] == k);
            }
        }
    }
}

proof fn lemma_imps_def(c0: CacheV, u: Seq<char>, imps: Seq<ImportV>, k: Seq<char>)
    ensures
        has_import(imps, k) ==> spec_record_imports(c0, u, imps).def.contains_key(k)
            && spec_record_imports(c0, u, imps).def[k] == last_import_target(imps, k),
        !has_import(imps, k) ==> spec_record_imports(c0, u, imps).def.contains_key(k)
            == c0.def.contains_key(k) && (c0.def.contains_key(k) ==> spec_record_imports(
            c0,
            u,
            imps,
        ).def[k] == c0.def[k]),
    decreases imps.len(),
{
    if imps.len() > 0 {
        lemma_imps_def(c0, u, imps.drop_last(), k);
        lemma_has_import_drop_last(imps, k);
    }
}

proof fn lemma_imps_imported(c0: CacheV, u: Seq<char>, imps: Seq<ImportV>, x: Seq<char>)
    ensures
        x != u ==> spec_record_imports(c0, u, imps).imported.contains_key(x)
            == c0.imported.contains_key(x) && (c0.imported.contains_key(x)
            ==> spec_record_imports(c0, u, imps).imported[x] == c0.imported[x]),
        spec_record_imports(c0, u, imps).imported.contains_key(u) == (c0.imported.contains_key(u)
            || imps.len() > 0),
        forall|k: Seq<char>|
            spec_record_imports(c0, u, imps).imported.contains_key(u) ==> (
            #[trigger] spec_record_imports(c0, u, imps).imported[u].contains(k)) == ((
            c0.imported.contains_key(u) && c0.imported[u].contains(k)) || has_import(imps, k)),
    decreases imps.len(),
{
    if imps.len() > 0 {
        let front = imps.drop_last();
        lemma_imps_imported(c0, u, front, x);
        let cf = spec_record_imports(c0, u, front);
        assert forall|k: Seq<char>|
            spec_record_imports(c0, u, imps).imported.contains_key(u) implies (
        #[trigger] spec_record_imports(c0, u, imps).imported[u].contains(k)) == ((
        c0.imported.contains_key(u) && c0.imported[u].contains(k)) || has_import(imps, k)) by {
            assert(cf.imported.contains_key(u) ==> (cf.imported[u].contains(k) == ((
            c0.imported.contains_key(u) && c0.imported[u].contains(k)) || has_import(front, k))));
            lemma_has_import_drop_last(imps, k);
        }
    }
}

proof fn lemma_imps_defined(c0: CacheV, u: Seq<char>, imps: Seq<ImportV>, x: Seq<char>)
    ensures
        spec_record_imports(c0, u, imps).defined.contains_key(x) == (c0.defined.contains_key(x)
            || has_import_into(imps, x)),
        forall|k: Seq<char>|
            spec_record_imports(c0, u, imps).defined.contains_key(x) ==> (
            #[trigger] spec_record_imports(c0, u, imps).defined[x].contains(k)) == ((
            c0.defined.contains_key(x) && c0.defined[x].contains(k)) || has_import_edge(
                imps,
                k,
                x,
            )),
    decreases imps.len(),
{
    if imps.len() > 0 {
        let front = imps.drop_last();
        lemma_imps_defined(c0, u, front, x);
        let cf = spec_record_imports(c0, u, front);
        lemma_has_import_drop_last(imps, x);
        assert forall|k: Seq<char>|
            spec_record_imports(c0, u, imps).defined.contains_key(x) implies (
        #[trigger] spec_record_imports(c0, u, imps).defined[x].contains(k)) == ((
        c0.defined.contains_key(x) && c0.defined[x].contains(k)) || has_import_edge(
            imps,
            k,
            x,
        )) by {
            assert(cf.defined.contains_key(x) ==> (cf.defined[x].contains(k) == ((
            c0.defined.contains_key(x) && c0.defined[x].contains(k)) || has_import_edge(
                front,
                k,
                x,
            ))));
            lemma_has_import_drop_last(imps, k);
        }
    }
}

/// TESTABLE LAW — what one ingestion step leaves for the ingested file.
///
/// After an ingestion step for file `u` — evict, record `defs`, record
/// `imps` — the file's cache entries are a function of the recorded data
/// alone, whatever stood in the cache before: the file's imported set holds
/// exactly the keys of its import edges, its defined set exactly its
/// definition keys plus the keys of import edges resolved to it, and the
/// definition index sends every recorded key to its recorded target.
pub proof fn lemma_ingest_entries(c: CacheV, u: Seq<char>, defs: Seq<Seq<char>>, imps: Seq<ImportV>)
    ensures
        ({
            let after = spec_apply(c, u, defs, imps);
            &&& after.imported.contains_key(u) == (imps.len() > 0)
            &&& forall|k: Seq<char>|
                after.imported.contains_key(u) ==> (#[trigger] after.imported[u].contains(k))
                    == has_import(imps, k)
            &&& after.defined.contains_key(u) == (defs.len() > 0 || has_import_into(imps, u))
            &&& forall|k: Seq<char>|
                after.defined.contains_key(u) ==> (#[trigger] after.defined[u].contains(k)) == (
                defs.contains(k) || has_import_edge(imps, k, u))
            &&& forall|k: Seq<char>|
                defs.contains(k) || has_import(imps, k) ==> after.def.contains_key(k)
                    && after.def[k] == recorded_target(u, defs, imps, k)
        }),
{
    let c1 = spec_evict(c, u);
    let c2 = spec_record_defs(c1, u, defs);
    let after = spec_apply(c, u, defs, imps);
    assert(!c1.imported.contains_key(u));
    assert(!c1.defined.contains_key(u));
    lemma_defs_imported(c1, u, defs);
    lemma_imps_imported(c2, u, imps, u);
    lemma_defs_defined(c1, u, defs, u);
    lemma_imps_defined(c2, u, imps, u);
    assert forall|k: Seq<char>| defs.contains(k) || has_import(imps, k) implies after.def.contains_key(
        k,
    ) && after.def[k] == recorded_target(u, defs, imps, k) by {
        lemma_defs_def(c1, u, defs, k);
        lemma_imps_def(c2, u, imps, k);
    }
}

/// TESTABLE LAW — re-ingestion is idempotent.
///
/// Ingesting the same definitions and import edges for the same file twice
/// in a row leaves exactly the cache entries of ingesting them once: the
/// file's imported and defined sets and the definition index's answers for
/// every recorded key show no duplicates and no drift.
pub proof fn lemma_reingest_idempotent(
    c: CacheV,
    u: Seq<char>,
    defs: Seq<Seq<char>>,
    imps: Seq<ImportV>,
)
    ensures
        ({
            let once = spec_apply(c, u, defs, imps);
            let twice = spec_apply(once, u, defs, imps);
            &&& twice.imported.contains_key(u) == once.imported.contains_key(u)
            &&& (once.imported.contains_key(u) ==> twice.imported[u] == once.imported[u])
            &&& twice.defined.contains_key(u) == once.defined.contains_key(u)
            &&& (once.defined.contains_key(u) ==> twice.defined[u] == once.defined[u])
            &&& forall|k: Seq<char>|
                defs.contains(k) || has_import(imps, k) ==> twice.def.contains_key(k)
                    && twice.def[k] == once.def[k]
        }),
{
    let once = spec_apply(c, u, defs, imps);
    let twice = spec_apply(once, u, defs, imps);
    lemma_ingest_entries(c, u, defs, imps);
    lemma_ingest_entries(once, u, defs, imps);
    if once.imported.contains_key(u) {
        assert forall|k: Seq<char>| #[trigger] twice.imported[u].contains(k)
            == once.imported[u].contains(k) by {
            assert(once.imported[u].contains(k) == has_import(imps, k));
        }
        assert(twice.imported[u] =~= once.imported[u]);
    }
    if once.defined.contains_key(u) {
        assert forall|k: Seq<char>| #[trigger] twice.defined[u].contains(k)
            == once.defined[u].contains(k) by {
            assert(once.defined[u].contains(k) == (defs.contains(k) || has_import_edge(
                imps,
                k,
                u,
            )));
        }
        assert(twice.defined[u] =~= once.defined[u]);
    }
}

/// TESTABLE LAW — invalidation is unconditional.
///
/// When a file that defined an FQN is re-ingested without that definition,
/// and no import edge of the new ingestion carries the FQN, the FQN can no
/// longer be looked up at all — even if another file still defines it and
/// had merely been overwritten in the definition index.
pub proof fn lemma_invalidation(
    c: CacheV,
    u: Seq<char>,
    defs: Seq<Seq<char>>,
    imps: Seq<ImportV>,
    k: Seq<char>,
)
    requires
        c.defined.contains_key(u),
        c.defined[u].contains(k),
        !defs.contains(k),
        !has_import(imps, k),
    ensures
        !spec_apply(c, u, defs, imps).def.contains_key(k),
{
    let c1 = spec_evict(c, u);
    let c2 = spec_record_defs(c1, u, defs);
    assert(!c1.def.contains_key(k));
    lemma_defs_def(c1, u, defs, k);
    lemma_imps_def(c2, u, imps, k);
}

} // verus!
