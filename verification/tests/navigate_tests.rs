use adl_lsp::navigate::get_module_path_at;
use adl_lsp::parse::parse_adl;

#[test]
fn test_get_module_prefix_from_import() {
    let contents = r#"module test.pkg {
    import common.db.User;
    import other.pkgb.*;

    struct MyStruct {
        String name;
    };
};"#;

    let tree = parse_adl(contents).unwrap();

    // clicking on "db" in "import common.db.User;"
    let result = get_module_path_at(&tree, 1, 15);

    if let Some((mpath, source_module)) = result {
        assert_eq!(mpath, "common.db");
        assert_eq!(source_module, "test.pkg");
    } else {
        panic!("Expected to find module path in import declaration");
    }
}

#[test]
fn test_get_module_prefix_from_scoped_name() {
    let contents = r#"module test.pkg {
    struct MyStruct {
        common.string.StringNE name;
    };
};"#;

    let tree = parse_adl(contents).unwrap();

    // clicking on "common" in "common.string.StringNE": nothing stands
    // before the first segment
    let result = get_module_path_at(&tree, 2, 8);
    if let Some((_mpath, source_module)) = result {
        assert_eq!(source_module, "test.pkg");
    }

    // clicking on "string" in "common.string.StringNE"
    let result = get_module_path_at(&tree, 2, 15);
    if let Some((mpath, source_module)) = result {
        assert_eq!(mpath, "common");
        assert_eq!(source_module, "test.pkg");
    } else {
        panic!("Expected to find module path in scoped name");
    }
}

#[test]
fn test_get_module_prefix_star_import() {
    let contents = r#"module test.pkg {
    import other.pkgb.*;

    struct MyStruct {
        String name;
    };
};"#;

    let tree = parse_adl(contents).unwrap();

    // clicking inside "import other.pkgb.*;"
    let result = get_module_path_at(&tree, 1, 15);

    if let Some((mpath, source_module)) = result {
        assert_eq!(mpath, "other.pkgb");
        assert_eq!(source_module, "test.pkg");
    } else {
        panic!("Expected to find module path in star import");
    }
}
