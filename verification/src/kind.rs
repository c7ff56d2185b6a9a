//! The closed vocabulary of syntax-tree node kinds.
//!
//! Tree nodes carry their raw grammar kind as a string; `NodeKind` is the
//! total mapping of those strings onto a closed tagged enumeration, with
//! unknown kinds collapsing to `Error`.

use vstd::prelude::*;
use crate::text::str_eq;

verus! {

#[derive(Debug, Clone, Copy, PartialEq, Eq, Structural)]
pub enum NodeKind {
    // Comments and documentation
    Comment,
    Docstring,
    DefinitionPreamble,
    // Identifiers and names
    Identifier,
    ScopedName,
    TypeName,
    // Type system
    TypeParameters,
    TypeArguments,
    TypeExpression,
    PrimitiveType,
    // Type definitions
    TypeDefinition,
    NewtypeDefinition,
    StructDefinition,
    UnionDefinition,
    Field,
    FieldBlock,
    // Module system
    ModuleDefinition,
    ModuleBody,
    ImportDeclaration,
    ImportPath,
    // Annotations
    Annotation,
    Annotations,
    AnnotationDeclaration,
    FieldReference,
    // JSON literal forms
    JsonValue,
    JsonNumber,
    JsonString,
    JsonArray,
    JsonObject,
    JsonObjectPair,
    // Anything else, including syntax-error nodes
    Error,
}

/// The kind that a raw grammar kind string denotes.
pub open spec fn kind_of_str(s: Seq<char>) -> NodeKind {
    if s == "comment"@ {
        NodeKind::Comment
    } else if s == "docstring"@ {
        NodeKind::Docstring
    } else if s == "definition_preamble"@ {
        NodeKind::DefinitionPreamble
    } else if s == "identifier"@ {
        NodeKind::Identifier
    } else if s == "scoped_name"@ {
        NodeKind::ScopedName
    } else if s == "type_name"@ {
        NodeKind::TypeName
    } else if s == "type_parameters"@ {
        NodeKind::TypeParameters
    } else if s == "type_arguments"@ {
        NodeKind::TypeArguments
    } else if s == "type_expression"@ {
        NodeKind::TypeExpression
    } else if s == "primitive_type"@ {
        NodeKind::PrimitiveType
    } else if s == "type_definition"@ {
        NodeKind::TypeDefinition
    } else if s == "newtype_definition"@ {
        NodeKind::NewtypeDefinition
    } else if s == "struct_definition"@ {
        NodeKind::StructDefinition
    } else if s == "union_definition"@ {
        NodeKind::UnionDefinition
    } else if s == "field"@ {
        NodeKind::Field
    } else if s == "field_block"@ {
        NodeKind::FieldBlock
    } else if s == "module_definition"@ {
        NodeKind::ModuleDefinition
    } else if s == "module_body"@ {
        NodeKind::ModuleBody
    } else if s == "import_declaration"@ {
        NodeKind::ImportDeclaration
    } else if s == "import_path"@ {
        NodeKind::ImportPath
    } else if s == "annotation"@ {
        NodeKind::Annotation
    } else if s == "annotations"@ {
        NodeKind::Annotations
    } else if s == "annotation_declaration"@ {
        NodeKind::AnnotationDeclaration
    } else if s == "field_reference"@ {
        NodeKind::FieldReference
    } else if s == "json_value"@ {
        NodeKind::JsonValue
    } else if s == "json_number"@ {
        NodeKind::JsonNumber
    } else if s == "json_string"@ {
        NodeKind::JsonString
    } else if s == "json_array"@ {
        NodeKind::JsonArray
    } else if s == "json_object"@ {
        NodeKind::JsonObject
    } else if s == "json_object_pair"@ {
        NodeKind::JsonObjectPair
    } else {
        NodeKind::Error
    }
}

/// The canonical kind string of a kind; `Error` prints as the grammar's
/// error-node kind.
pub open spec fn str_of_kind(k: NodeKind) -> Seq<char> {
    match k {
        NodeKind::Comment => "comment"@,
        NodeKind::Docstring => "docstring"@,
        NodeKind::DefinitionPreamble => "definition_preamble"@,
        NodeKind::Identifier => "identifier"@,
        NodeKind::ScopedName => "scoped_name"@,
        NodeKind::TypeName => "type_name"@,
        NodeKind::TypeParameters => "type_parameters"@,
        NodeKind::TypeArguments => "type_arguments"@,
        NodeKind::TypeExpression => "type_expression"@,
        NodeKind::PrimitiveType => "primitive_type"@,
        NodeKind::TypeDefinition => "type_definition"@,
        NodeKind::NewtypeDefinition => "newtype_definition"@,
        NodeKind::StructDefinition => "struct_definition"@,
        NodeKind::UnionDefinition => "union_definition"@,
        NodeKind::Field => "field"@,
        NodeKind::FieldBlock => "field_block"@,
        NodeKind::ModuleDefinition => "module_definition"@,
        NodeKind::ModuleBody => "module_body"@,
        NodeKind::ImportDeclaration => "import_declaration"@,
        NodeKind::ImportPath => "import_path"@,
        NodeKind::Annotation => "annotation"@,
        NodeKind::Annotations => "annotations"@,
        NodeKind::AnnotationDeclaration => "annotation_declaration"@,
        NodeKind::FieldReference => "field_reference"@,
        NodeKind::JsonValue => "json_value"@,
        NodeKind::JsonNumber => "json_number"@,
        NodeKind::JsonString => "json_string"@,
        NodeKind::JsonArray => "json_array"@,
        NodeKind::JsonObject => "json_object"@,
        NodeKind::JsonObjectPair => "json_object_pair"@,
        NodeKind::Error => "ERROR"@,
    }
}

impl NodeKind {
    /// Parse a raw grammar kind string; unknown strings give `Error`.
    pub fn from_str(s: &str) -> (r: NodeKind)
        ensures
            r == kind_of_str(s@),
    {
        if str_eq(s, "comment") {
            NodeKind::Comment
        } else if str_eq(s, "docstring") {
            NodeKind::Docstring
        } else if str_eq(s, "definition_preamble") {
            NodeKind::DefinitionPreamble
        } else if str_eq(s, "identifier") {
            NodeKind::Identifier
        } else if str_eq(s, "scoped_name") {
            NodeKind::ScopedName
        } else if str_eq(s, "type_name") {
            NodeKind::TypeName
        } else if str_eq(s, "type_parameters") {
            NodeKind::TypeParameters
        } else if str_eq(s, "type_arguments") {
            NodeKind::TypeArguments
        } else if str_eq(s, "type_expression") {
            NodeKind::TypeExpression
        } else if str_eq(s, "primitive_type") {
            NodeKind::PrimitiveType
        } else if str_eq(s, "type_definition") {
            NodeKind::TypeDefinition
        } else if str_eq(s, "newtype_definition") {
            NodeKind::NewtypeDefinition
        } else if str_eq(s, "struct_definition") {
            NodeKind::StructDefinition
        } else if str_eq(s, "union_definition") {
            NodeKind::UnionDefinition
        } else if str_eq(s, "field") {
            NodeKind::Field
        } else if str_eq(s, "field_block") {
            NodeKind::FieldBlock
        } else if str_eq(s, "module_definition") {
            NodeKind::ModuleDefinition
        } else if str_eq(s, "module_body") {
            NodeKind::ModuleBody
        } else if str_eq(s, "import_declaration") {
            NodeKind::ImportDeclaration
        } else if str_eq(s, "import_path") {
            NodeKind::ImportPath
        } else if str_eq(s, "annotation") {
            NodeKind::Annotation
        } else if str_eq(s, "annotations") {
            NodeKind::Annotations
        } else if str_eq(s, "annotation_declaration") {
            NodeKind::AnnotationDeclaration
        } else if str_eq(s, "field_reference") {
            NodeKind::FieldReference
        } else if str_eq(s, "json_value") {
            NodeKind::JsonValue
        } else if str_eq(s, "json_number") {
            NodeKind::JsonNumber
        } else if str_eq(s, "json_string") {
            NodeKind::JsonString
        } else if str_eq(s, "json_array") {
            NodeKind::JsonArray
        } else if str_eq(s, "json_object") {
            NodeKind::JsonObject
        } else if str_eq(s, "json_object_pair") {
            NodeKind::JsonObjectPair
        } else {
            NodeKind::Error
        }
    }

    /// The canonical kind string.
    pub fn as_str(&self) -> (r: &'static str)
        ensures
            r@ == str_of_kind(*self),
    {
        match self {
            NodeKind::Comment => "comment",
            NodeKind::Docstring => "docstring",
            NodeKind::DefinitionPreamble => "definition_preamble",
            NodeKind::Identifier => "identifier",
            NodeKind::ScopedName => "scoped_name",
            NodeKind::TypeName => "type_name",
            NodeKind::TypeParameters => "type_parameters",
            NodeKind::TypeArguments => "type_arguments",
            NodeKind::TypeExpression => "type_expression",
            NodeKind::PrimitiveType => "primitive_type",
            NodeKind::TypeDefinition => "type_definition",
            NodeKind::NewtypeDefinition => "newtype_definition",
            NodeKind::StructDefinition => "struct_definition",
            NodeKind::UnionDefinition => "union_definition",
            NodeKind::Field => "field",
            NodeKind::FieldBlock => "field_block",
            NodeKind::ModuleDefinition => "module_definition",
            NodeKind::ModuleBody => "module_body",
            NodeKind::ImportDeclaration => "import_declaration",
            NodeKind::ImportPath => "import_path",
            NodeKind::Annotation => "annotation",
            NodeKind::Annotations => "annotations",
            NodeKind::AnnotationDeclaration => "annotation_declaration",
            NodeKind::FieldReference => "field_reference",
            NodeKind::JsonValue => "json_value",
            NodeKind::JsonNumber => "json_number",
            NodeKind::JsonString => "json_string",
            NodeKind::JsonArray => "json_array",
            NodeKind::JsonObject => "json_object",
            NodeKind::JsonObjectPair => "json_object_pair",
            NodeKind::Error => "ERROR",
        }
    }
}

} // verus!
