use adl_lsp::cache::{FqnCache, ResolvedImport};
use adl_lsp::fqn::Fqn;

fn fqn(module: &str, name: &str) -> Fqn {
    Fqn::from_module_name_and_type_name(module, name)
}

#[test]
fn lookup_finds_recorded_definition() {
    let mut cache = FqnCache::new();
    cache.record_definition("file:///w/m.adl", &fqn("m", "T"));
    assert_eq!(
        cache.lookup_fqn(&fqn("m", "T")),
        Some("file:///w/m.adl".to_string())
    );
    assert_eq!(cache.lookup_fqn(&fqn("m", "U")), None);
}

#[test]
fn record_import_registers_all_three_indices() {
    let mut cache = FqnCache::new();
    cache.record_import("file:///w/a.adl", &fqn("m", "T"), "file:///w/m.adl");
    assert_eq!(
        cache.lookup_fqn(&fqn("m", "T")),
        Some("file:///w/m.adl".to_string())
    );
    let importers = cache.get_files_importing_type(&fqn("m", "T"));
    assert_eq!(importers, vec!["file:///w/a.adl".to_string()]);
}

#[test]
fn evict_purges_a_file_unconditionally() {
    let mut cache = FqnCache::new();
    cache.record_definition("file:///w/m1.adl", &fqn("m", "T"));
    // a second file claims the same FQN; the location is overwritten
    cache.record_definition("file:///w/m2.adl", &fqn("m", "T"));
    assert_eq!(
        cache.lookup_fqn(&fqn("m", "T")),
        Some("file:///w/m2.adl".to_string())
    );
    // evicting the second file drops the FQN entirely, even though the
    // first file also recorded it
    cache.evict_file("file:///w/m2.adl");
    assert_eq!(cache.lookup_fqn(&fqn("m", "T")), None);
}

#[test]
fn reingesting_the_same_update_changes_nothing() {
    let mut cache = FqnCache::new();
    let defs = vec![fqn("m", "T"), fqn("m", "U")];
    let imports = vec![ResolvedImport {
        fqn: fqn("k", "V"),
        target_uri: "file:///w/k.adl".to_string(),
    }];
    cache.apply_file_update("file:///w/m.adl", &defs, &imports);
    let t1 = cache.lookup_fqn(&fqn("m", "T"));
    let u1 = cache.lookup_fqn(&fqn("m", "U"));
    let v1 = cache.lookup_fqn(&fqn("k", "V"));
    let imp1 = cache.get_files_importing_type(&fqn("k", "V"));
    cache.apply_file_update("file:///w/m.adl", &defs, &imports);
    assert_eq!(cache.lookup_fqn(&fqn("m", "T")), t1);
    assert_eq!(cache.lookup_fqn(&fqn("m", "U")), u1);
    assert_eq!(cache.lookup_fqn(&fqn("k", "V")), v1);
    assert_eq!(cache.get_files_importing_type(&fqn("k", "V")), imp1);
    assert_eq!(t1, Some("file:///w/m.adl".to_string()));
    assert_eq!(v1, Some("file:///w/k.adl".to_string()));
    assert_eq!(imp1, vec!["file:///w/m.adl".to_string()]);
}

#[test]
fn update_with_a_definition_removed_invalidates_it() {
    let mut cache = FqnCache::new();
    cache.apply_file_update(
        "file:///w/m.adl",
        &vec![fqn("m", "T"), fqn("m", "U")],
        &Vec::new(),
    );
    assert_eq!(
        cache.lookup_fqn(&fqn("m", "U")),
        Some("file:///w/m.adl".to_string())
    );
    // re-ingest with U removed
    cache.apply_file_update("file:///w/m.adl", &vec![fqn("m", "T")], &Vec::new());
    assert_eq!(cache.lookup_fqn(&fqn("m", "U")), None);
    assert_eq!(
        cache.lookup_fqn(&fqn("m", "T")),
        Some("file:///w/m.adl".to_string())
    );
}

#[test]
fn clear_empties_every_index() {
    let mut cache = FqnCache::new();
    cache.record_definition("file:///w/m.adl", &fqn("m", "T"));
    cache.record_import("file:///w/a.adl", &fqn("m", "T"), "file:///w/m.adl");
    cache.clear();
    assert_eq!(cache.lookup_fqn(&fqn("m", "T")), None);
    assert!(cache.get_files_importing_type(&fqn("m", "T")).is_empty());
}
