use adl_lsp::adl::{extract_definitions, extract_imports, tree_module_name};
use adl_lsp::definition::{definition, DefinitionLocation};
use adl_lsp::diagnostics::collect_diagnostics;
use adl_lsp::parse::parse_adl;
use adl_lsp::types::Severity;

const SAMPLE_ADL: &str = r#"
    module foo {
        import foo.bar.Baz;
        import foo.char.*;
    };
    "#;

#[test]
fn test_module_definition_basic() {
    let tree = parse_adl(SAMPLE_ADL).unwrap();
    let module_name = tree_module_name(&tree).expect("expected module definition");
    assert_eq!(module_name, "foo");
}

#[test]
fn test_import_declaration_basic() {
    let tree = parse_adl(SAMPLE_ADL).unwrap();
    let import_declarations = extract_imports(&tree);

    assert_eq!(import_declarations.len(), 2);
    assert_eq!(import_declarations[0].module_name, "foo.bar");
    assert_eq!(import_declarations[1].module_name, "foo.char");
    assert_eq!(import_declarations[0].name, Some("Baz".to_string()));
    assert_eq!(import_declarations[1].name, None);
}

#[test]
fn definitions_carry_the_module_name() {
    let text = "module sample {\nstruct Person {\n};\ntype UserId = Int32;\n};";
    let tree = parse_adl(text).unwrap();
    let module = tree_module_name(&tree).unwrap();
    assert_eq!(module, "sample");
    let defs = extract_definitions(&tree, &module);
    let names: Vec<String> = defs.iter().map(|f| f.local_type_name().to_string()).collect();
    assert_eq!(names, vec!["Person".to_string(), "UserId".to_string()]);
    assert_eq!(defs[0].full_name(), "sample.Person".to_string());
}

#[test]
fn plain_import_classifies_as_import_of_its_module() {
    let tree = parse_adl(SAMPLE_ADL).unwrap();
    let d = definition(&tree, "file:///input/message.adl", "Baz");
    match d {
        Some(DefinitionLocation::Import(u)) => {
            assert_eq!(u.target_module_path, vec!["foo", "bar"]);
            assert_eq!(u.identifier, "Baz".to_string());
            assert_eq!(u.source_module, "foo".to_string());
        }
        other => panic!("expected an import classification, got {:?}", other),
    }
}

#[test]
fn empty_file_yields_a_single_warning() {
    let tree = parse_adl("").unwrap();
    let diags = collect_diagnostics(&tree, "");
    assert_eq!(diags.len(), 1);
    assert_eq!(diags[0].message, "empty file".to_string());
    assert_eq!(diags[0].severity, Severity::Warning);
}

#[test]
fn late_imports_are_reported() {
    let text = "module x {\nstruct A {\n};\nimport y.Z;\n};";
    let tree = parse_adl(text).unwrap();
    let diags = collect_diagnostics(&tree, text);
    assert!(diags
        .iter()
        .any(|d| d.message == "imports must be declared at the beginning of a module"));
}

#[test]
fn early_imports_are_not_reported() {
    let text = "module x {\nimport y.Z;\nstruct A {\n};\n};";
    let tree = parse_adl(text).unwrap();
    let diags = collect_diagnostics(&tree, text);
    assert!(!diags
        .iter()
        .any(|d| d.message == "imports must be declared at the beginning of a module"));
}
