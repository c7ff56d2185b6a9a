use adl_lsp::modules::AdlPackageDependency;
use adl_lsp::packages::{
    find_package_definition, resolve_dependency_path, resolve_import,
    resolve_package_dependencies, LoadedManifest, SearchRoot,
};

fn strs(v: &[&str]) -> Vec<String> {
    v.iter().map(|s| s.to_string()).collect()
}

fn root(dir: &str) -> SearchRoot {
    SearchRoot { root: dir.to_string(), files: Vec::new() }
}

#[test]
fn packages_test_resolve_import_in_same_package_sibling() {
    let search_dirs = vec![root("/project/adl")];
    let source_uri = "file:///project/adl/common/main.adl";

    let resolved = resolve_import(
        &search_dirs,
        source_uri,
        "common.main",
        &strs(&["common", "strings"]),
        |_: &String| true,
    );
    assert_eq!(
        resolved,
        Some("file:///project/adl/common/strings.adl".to_string())
    );
}

#[test]
fn packages_test_resolve_import_in_same_package_sibling_implicit() {
    let search_dirs: Vec<SearchRoot> = vec![];
    let source_uri = "file:///project/adl/common/main.adl";

    let resolved = resolve_import(
        &search_dirs,
        source_uri,
        "common.main",
        &strs(&["common", "strings"]),
        |_: &String| true,
    );
    assert_eq!(
        resolved,
        Some("file:///project/adl/common/strings.adl".to_string())
    );
}

#[test]
fn packages_test_resolve_import_in_same_package_cousin_implicit() {
    let search_dirs: Vec<SearchRoot> = vec![];
    let source_uri = "file:///project/adl/common/main.adl";

    let resolved = resolve_import(
        &search_dirs,
        source_uri,
        "common.main",
        &strs(&["app", "main"]),
        |_: &String| true,
    );
    assert_eq!(
        resolved,
        Some("file:///project/adl/app/main.adl".to_string())
    );
}

#[test]
fn packages_test_deeply_nested_import() {
    let search_dirs = vec![root("/project/adl")];
    let source_uri = "file:///project/adl/a/b/c/d/e/f/g/module.adl";
    let resolved = resolve_import(
        &search_dirs,
        source_uri,
        "a.b.c.d.e.f.g.module",
        &strs(&["a", "b", "c", "d", "e", "ff", "gg", "hh", "ii", "module"]),
        |_: &String| true,
    );
    assert_eq!(
        resolved,
        Some("file:///project/adl/a/b/c/d/e/ff/gg/hh/ii/module.adl".to_string())
    );
}

#[test]
fn packages_test_rooted_deep_in_workspace() {
    let search_dirs = vec![root("/project/a/b/c/d/e/f/g/adl")];
    let source_uri = "file:///project/a/b/c/d/e/f/g/adl/a/b/c/d/e/f/g/module.adl";
    let resolved = resolve_import(
        &search_dirs,
        source_uri,
        "a.b.c.d.e.f.g.module",
        &strs(&["a", "b", "c", "d", "e", "ff", "gg", "hh", "ii", "module"]),
        |_: &String| true,
    );
    assert_eq!(
        resolved,
        Some("file:///project/a/b/c/d/e/f/g/adl/a/b/c/d/e/ff/gg/hh/ii/module.adl".to_string())
    );
}

#[test]
fn packages_test_resolve_from_other_package_root() {
    let search_dirs = vec![
        root("/project/adl"),
        root("/project/adl-no-strings"),
        root("/project/adl-strings"),
    ];
    let source_uri = "file:///project/adl/common/main.adl";
    let resolved = resolve_import(
        &search_dirs,
        source_uri,
        "common.main",
        &strs(&["common", "strings"]),
        |path: &String| path.starts_with("/project/adl-strings"),
    );
    assert_eq!(
        resolved,
        Some("file:///project/adl-strings/common/strings.adl".to_string())
    );
}

#[test]
fn packages_file_index_outranks_probing() {
    // a root whose file index already knows the target wins without probing
    let search_dirs = vec![SearchRoot {
        root: "/w/idx".to_string(),
        files: strs(&["file:///w/idx/common/strings.adl"]),
    }];
    let resolved = resolve_import(
        &search_dirs,
        "file:///w/adl/common/main.adl",
        "common.main",
        &strs(&["common", "strings"]),
        |_: &String| false,
    );
    assert_eq!(
        resolved,
        Some("file:///w/idx/common/strings.adl".to_string())
    );
}

#[test]
fn dependency_paths_resolve_against_the_root() {
    assert_eq!(
        resolve_dependency_path("/pkg", "../common"),
        "/pkg/../common".to_string()
    );
    assert_eq!(
        resolve_dependency_path("/pkg", "/abs/utils"),
        "/abs/utils".to_string()
    );
    assert_eq!(
        resolve_dependency_path("/pkg", "lib/utils"),
        "/pkg/lib/utils".to_string()
    );
}

#[test]
fn package_definition_is_found_by_walking_up() {
    let r = find_package_definition("/w/a/b", |d: &String| d == "/w");
    assert_eq!(r, Some("/w/adl-package.json".to_string()));
    let r2 = find_package_definition("/w/a/b", |_: &String| false);
    assert_eq!(r2, None);
}

#[test]
fn dependencies_expand_the_roots() {
    let roots = strs(&["/w/adl", "/w/adl"]);
    let manifests = vec![LoadedManifest {
        package_dir: "/w/adl".to_string(),
        dependencies: vec![
            AdlPackageDependency { name: "common".to_string(), path: "../common".to_string() },
            AdlPackageDependency { name: "gone".to_string(), path: "missing".to_string() },
        ],
    }];
    let r = resolve_package_dependencies(&roots, &manifests, |p: &String| p == "/w/adl/../common");
    assert_eq!(r, strs(&["/w/adl", "/w/adl/../common"]));
}
