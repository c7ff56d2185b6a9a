use adl_lsp::parse::parse_adl;
use adl_lsp::symbols::{collect_document_symbols, DocumentSymbol, SymbolKind};

#[test]
fn test_document_symbols() {
    let content = r#"
            module sample.simple {
                struct Person {
                    String name;
                    Int age;
                };

                union Color {
                    Void red;
                    Void green;
                    Void blue;
                };

                type UserId = Int32;

                newtype Email = String;
            };"#;

    let tree = parse_adl(content).unwrap();
    let symbols = collect_document_symbols(&tree);

    // Check for module symbol
    let module_idx = symbols
        .iter()
        .position(|s| s.kind == SymbolKind::Module)
        .unwrap();
    assert_eq!(symbols[module_idx].name, "sample.simple");

    let module_children: Vec<&DocumentSymbol> = symbols
        .iter()
        .enumerate()
        .filter(|(j, s)| *j != module_idx && s.parent == module_idx)
        .map(|(_, s)| s)
        .collect();

    let struct_symbol = module_children
        .iter()
        .find(|s| s.kind == SymbolKind::Struct)
        .unwrap();
    assert_eq!(struct_symbol.name, "Person");
    assert_eq!(struct_symbol.detail, None);

    let union_symbol = module_children
        .iter()
        .find(|s| s.kind == SymbolKind::Enum)
        .unwrap();
    assert_eq!(union_symbol.name, "Color");
    assert_eq!(union_symbol.detail, None);

    let type_symbol = module_children.iter().find(|s| s.name == "UserId").unwrap();
    assert_eq!(type_symbol.kind, SymbolKind::Class);
    assert_eq!(type_symbol.detail, Some("Int32".to_string()));

    let newtype_symbol = module_children.iter().find(|s| s.name == "Email").unwrap();
    assert_eq!(newtype_symbol.kind, SymbolKind::Class);
    assert_eq!(newtype_symbol.detail, Some("String".to_string()));
}

#[test]
fn fields_nest_under_their_struct() {
    let content = "module a {\nstruct P {\nString name;\n};\n};";
    let tree = parse_adl(content).unwrap();
    let symbols = collect_document_symbols(&tree);
    let struct_idx = symbols
        .iter()
        .position(|s| s.kind == SymbolKind::Struct)
        .unwrap();
    let field = symbols.iter().find(|s| s.kind == SymbolKind::Field).unwrap();
    assert_eq!(field.parent, struct_idx);
    assert_eq!(field.detail, Some("String".to_string()));
}
