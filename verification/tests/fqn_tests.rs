use adl_lsp::fqn::Fqn;
use adl_lsp::kind::NodeKind;
use adl_lsp::text::{join_str, lines, split_char, split_whitespace, trim, trim_end_matches_char};

fn strs(v: &[&str]) -> Vec<String> {
    v.iter().map(|s| s.to_string()).collect()
}

#[test]
fn fqn_module_path_parts() {
    let fqn = Fqn::from_module_name_and_type_name("adlc.package", "AdlPackage");
    assert_eq!(fqn.module_path_parts(), vec!["adlc", "package"]);
    assert_eq!(fqn.module_name(), "adlc.package");
    assert_eq!(fqn.local_type_name(), "AdlPackage");
    assert_eq!(fqn.full_name(), "adlc.package.AdlPackage".to_string());
}

#[test]
fn fqn_prefix_matching() {
    let fqn = Fqn::from_module_name_and_type_name("a.b.c", "T");
    assert!(fqn.module_matches_prefix(&strs(&["a", "b"])));
    assert!(fqn.module_matches_prefix(&strs(&[])));
    assert!(!fqn.module_matches_prefix(&strs(&["a", "x"])));
    assert!(!fqn.module_matches_prefix(&strs(&["a", "b", "c", "d"])));
    assert_eq!(
        fqn.next_module_part_after_prefix(&strs(&["a"])),
        Some("b".to_string())
    );
    assert_eq!(fqn.next_module_part_after_prefix(&strs(&["a", "b", "c"])), None);
    assert_eq!(fqn.next_module_part_after_prefix(&strs(&["x"])), None);
}

#[test]
fn node_kind_round_trip() {
    assert_eq!(NodeKind::from_str("module_definition"), NodeKind::ModuleDefinition);
    assert_eq!(NodeKind::from_str("import_declaration"), NodeKind::ImportDeclaration);
    assert_eq!(NodeKind::from_str("no_such_kind"), NodeKind::Error);
    assert_eq!(NodeKind::ModuleDefinition.as_str(), "module_definition");
    assert_eq!(NodeKind::Error.as_str(), "ERROR");
    assert_eq!(NodeKind::from_str(NodeKind::ScopedName.as_str()), NodeKind::ScopedName);
}

#[test]
fn string_utilities_behave() {
    assert_eq!(split_char("a.b.c", '.'), vec!["a", "b", "c"]);
    assert_eq!(split_char("", '.'), vec![""]);
    assert_eq!(split_char("a..b", '.'), vec!["a", "", "b"]);
    assert_eq!(join_str(&strs(&["a", "b", "c"]), "/"), "a/b/c".to_string());
    assert_eq!(join_str(&strs(&[]), "/"), "".to_string());
    assert_eq!(trim("  hi\t"), "hi".to_string());
    assert_eq!(trim("   "), "".to_string());
    assert_eq!(trim_end_matches_char("a;;;", ';'), "a".to_string());
    assert_eq!(split_whitespace(" module  a.b ;"), vec!["module", "a.b", ";"]);
    assert_eq!(lines("a\nb\n"), vec!["a", "b"]);
    assert_eq!(lines("a\r\nb"), vec!["a", "b"]);
    assert_eq!(lines(""), Vec::<String>::new());
}
