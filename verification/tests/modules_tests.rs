use adl_lsp::modules::{
    discover_package_root_from_file, extract_module_name_from_content, resolve_candidates,
    resolve_import,
};

fn strs(v: &[&str]) -> Vec<String> {
    v.iter().map(|s| s.to_string()).collect()
}

#[test]
fn test_extract_module_name_from_content() {
    let content = r#"
module a.b.c;

import x.y.z;

struct Test {};
"#;
    assert_eq!(
        extract_module_name_from_content(content),
        Some("a.b.c".to_string())
    );
}

#[test]
fn test_extract_module_name_with_semicolon() {
    let content = "module some.deeply.nested.module;";
    assert_eq!(
        extract_module_name_from_content(content),
        Some("some.deeply.nested.module".to_string())
    );
}

#[test]
fn test_extract_module_name_without_semicolon() {
    let content = "module simple.module";
    assert_eq!(
        extract_module_name_from_content(content),
        Some("simple.module".to_string())
    );
}

#[test]
fn test_extract_module_name_with_extra_whitespace() {
    let content = "   module   whitespace.test   ;   ";
    assert_eq!(
        extract_module_name_from_content(content),
        Some("whitespace.test".to_string())
    );
}

#[test]
fn modules_test_resolve_import_in_same_package_sibling() {
    let package_roots = strs(&["/project/adl"]);
    let source_uri = "file:///project/adl/common/main.adl";

    let resolved = resolve_import(
        &package_roots,
        source_uri,
        "common.main",
        &strs(&["common", "strings"]),
        |_: &String| true,
    );
    assert_eq!(
        resolved,
        Some("file:///project/adl/common/strings.adl".to_string())
    );
}

#[test]
fn modules_test_resolve_import_in_same_package_sibling_implicit() {
    // no package roots, rely on implicit resolution in the same package root
    let package_roots: Vec<String> = vec![];
    let source_uri = "file:///project/adl/common/main.adl";

    let resolved = resolve_import(
        &package_roots,
        source_uri,
        "common.main",
        &strs(&["common", "strings"]),
        |_: &String| true,
    );
    assert_eq!(
        resolved,
        Some("file:///project/adl/common/strings.adl".to_string())
    );
}

#[test]
fn modules_test_resolve_import_in_same_package_cousin_implicit() {
    let package_roots: Vec<String> = vec![];
    let source_uri = "file:///project/adl/common/main.adl";

    let resolved = resolve_import(
        &package_roots,
        source_uri,
        "common.main",
        &strs(&["app", "main"]),
        |_: &String| true,
    );
    assert_eq!(
        resolved,
        Some("file:///project/adl/app/main.adl".to_string())
    );
}

#[test]
fn modules_test_deeply_nested_import() {
    let package_roots = strs(&["/project/adl"]);
    let source_uri = "file:///project/adl/a/b/c/d/e/f/g/module.adl";
    let resolved = resolve_import(
        &package_roots,
        source_uri,
        "a.b.c.d.e.f.g.module",
        &strs(&["a", "b", "c", "d", "e", "ff", "gg", "hh", "ii", "module"]),
        |_: &String| true,
    );
    assert_eq!(
        resolved,
        Some("file:///project/adl/a/b/c/d/e/ff/gg/hh/ii/module.adl".to_string())
    );
}

#[test]
fn modules_test_rooted_deep_in_workspace() {
    let package_roots = strs(&["/project/a/b/c/d/e/f/g/adl"]);
    let source_uri = "file:///project/a/b/c/d/e/f/g/adl/a/b/c/d/e/f/g/module.adl";
    let resolved = resolve_import(
        &package_roots,
        source_uri,
        "a.b.c.d.e.f.g.module",
        &strs(&["a", "b", "c", "d", "e", "ff", "gg", "hh", "ii", "module"]),
        |_: &String| true,
    );
    assert_eq!(
        resolved,
        Some("file:///project/a/b/c/d/e/f/g/adl/a/b/c/d/e/ff/gg/hh/ii/module.adl".to_string())
    );
}

#[test]
fn modules_test_resolve_from_other_package_root() {
    let package_roots = strs(&[
        "/project/adl",
        "/project/adl-no-strings",
        "/project/adl-strings",
    ]);
    let source_uri = "file:///project/adl/common/main.adl";
    let resolved = resolve_import(
        &package_roots,
        source_uri,
        "common.main",
        &strs(&["common", "strings"]),
        |path: &String| path.starts_with("/project/adl-strings"),
    );
    assert_eq!(
        resolved,
        Some("file:///project/adl-strings/common/strings.adl".to_string())
    );
}

#[test]
fn test_discover_package_root_from_file() {
    let file_uri = "file:///project/adl/a/b/c.adl";
    let module_name = "a.b.c";
    let package_root = discover_package_root_from_file(file_uri, module_name);
    assert_eq!(package_root, Some("/project/adl".to_string()));
}

#[test]
fn test_discover_package_root_single_module() {
    let file_uri = "file:///project/adl/simple.adl";
    let module_name = "simple";
    let package_root = discover_package_root_from_file(file_uri, module_name);
    assert_eq!(package_root, Some("/project/adl".to_string()));
}

#[test]
fn candidates_keep_same_package_first() {
    // the same-package candidate outranks every configured search directory
    let package_roots = strs(&["/w/adl2", "/w/otherProjectAdl", "/w/adl"]);
    let cands = resolve_candidates(
        &package_roots,
        "file:///w/adl/common/main.adl",
        "common.main",
        &strs(&["common", "strings"]),
    );
    assert_eq!(cands[0], "/w/adl/common/strings.adl".to_string());
    assert_eq!(
        cands,
        strs(&[
            "/w/adl/common/strings.adl",
            "/w/adl2/common/strings.adl",
            "/w/otherProjectAdl/common/strings.adl",
        ])
    );
}

#[test]
fn duplicate_same_package_candidate_is_not_repeated() {
    // a search directory identical to the implied package root contributes
    // no second copy of the same-package candidate
    let cands = resolve_candidates(
        &strs(&["/w/adl"]),
        "file:///w/adl/common/main.adl",
        "common.main",
        &strs(&["common", "strings"]),
    );
    assert_eq!(cands, strs(&["/w/adl/common/strings.adl"]));
}
