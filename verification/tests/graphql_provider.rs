//! The introspection-based type provider: type-reference unwrapping,
//! scalar mapping, and schema-to-types generation on built schemas.

use fusabi::ast::TypeDefinition;
use fusabi::graphql::{
    graphql_scalar_to_fusabi, EnumValue, FullType, GraphQLProvider, IntrospectionSchema,
    TypeKind, TypeRef,
};

fn bare_type(kind: TypeKind, name: &str) -> FullType {
    FullType {
        kind,
        name: Some(name.to_string()),
        description: None,
        fields: None,
        input_fields: None,
        interfaces: None,
        enum_values: None,
        possible_types: None,
    }
}

#[test]
fn test_type_ref_base_name() {
    let simple = TypeRef {
        name: Some("String".to_string()),
        kind: Some(TypeKind::Scalar),
        of_type: None,
    };
    assert_eq!(simple.base_name(), Some("String"));

    let non_null = TypeRef {
        name: None,
        kind: Some(TypeKind::NonNull),
        of_type: Some(Box::new(simple.clone())),
    };
    assert_eq!(non_null.base_name(), Some("String"));
}

#[test]
fn test_type_ref_to_fusabi() {
    let string_type = TypeRef {
        name: Some("String".to_string()),
        kind: Some(TypeKind::Scalar),
        of_type: None,
    };
    assert_eq!(string_type.to_fusabi_type(), "string option");

    let non_null_string = TypeRef {
        name: None,
        kind: Some(TypeKind::NonNull),
        of_type: Some(Box::new(string_type)),
    };
    assert_eq!(non_null_string.to_fusabi_type(), "string");
}

#[test]
fn test_graphql_scalar_mapping() {
    assert_eq!(graphql_scalar_to_fusabi("String"), "string");
    assert_eq!(graphql_scalar_to_fusabi("Int"), "int");
    assert_eq!(graphql_scalar_to_fusabi("Float"), "float");
    assert_eq!(graphql_scalar_to_fusabi("Boolean"), "bool");
    assert_eq!(graphql_scalar_to_fusabi("DateTime"), "DateTime");
}

#[test]
fn test_generate_from_built_schema() {
    // An enumeration and a union generate unions; reflection and
    // scalar types are skipped.
    let mut status = bare_type(TypeKind::Enum, "Status");
    status.enum_values = Some(vec![
        EnumValue {
            name: "ACTIVE".to_string(),
            description: None,
            is_deprecated: Some(false),
            deprecation_reason: None,
        },
        EnumValue {
            name: "RETIRED_STATE".to_string(),
            description: None,
            is_deprecated: Some(true),
            deprecation_reason: None,
        },
        EnumValue {
            name: "PENDING".to_string(),
            description: None,
            is_deprecated: None,
            deprecation_reason: None,
        },
    ]);

    let schema = IntrospectionSchema {
        query_type: None,
        mutation_type: None,
        subscription_type: None,
        types: vec![
            bare_type(TypeKind::Scalar, "ID"),
            bare_type(TypeKind::Object, "__Schema"),
            status,
        ],
        directives: None,
    };

    let provider = GraphQLProvider::new();
    assert_eq!(provider.name(), "GraphQLProvider");
    let generated = provider.generate_from_schema(&schema, "API").unwrap();

    let enums = generated
        .modules
        .iter()
        .find(|m| m.path.contains(&"Enums".to_string()))
        .expect("an Enums module");
    assert_eq!(enums.path, vec!["API".to_string(), "Enums".to_string()]);
    match &enums.types[0] {
        TypeDefinition::Du(du) => {
            assert_eq!(du.name, "Status");
            let names = du.variant_names();
            assert_eq!(names, vec!["Active", "Pending"]);
        },
        _ => panic!("expected a union"),
    }
}

#[test]
fn test_type_ref_list_detection() {
    let inner = TypeRef {
        name: Some("Int".to_string()),
        kind: Some(TypeKind::Scalar),
        of_type: None,
    };
    let list = TypeRef {
        name: None,
        kind: Some(TypeKind::List),
        of_type: Some(Box::new(inner)),
    };
    let non_null_list = TypeRef {
        name: None,
        kind: Some(TypeKind::NonNull),
        of_type: Some(Box::new(list)),
    };
    assert!(non_null_list.is_list());
    assert!(non_null_list.is_non_null());
    assert_eq!(non_null_list.to_fusabi_type(), "int option list");
}

#[test]
fn test_provider_name() {
    let provider = GraphQLProvider::new();
    assert_eq!(provider.name(), "GraphQLProvider");
}
