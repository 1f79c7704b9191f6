//! The module registry: registration, qualified resolution, open
//! imports and module paths.

use fusabi::ast::{BinOp, Expr, Literal, RecordTypeDef, TypeDefinition, TypeExpr};
use fusabi::modules::{ModulePath, ModuleRegistry};

#[test]
fn test_module_registry_new() {
    let registry = ModuleRegistry::new();
    assert_eq!(registry.module_names().len(), 0);
}

#[test]
fn test_register_and_resolve_module() {
    let mut registry = ModuleRegistry::new();

    let bindings = vec![(
        "add".to_string(),
        Expr::Lambda {
            param: "x".to_string(),
            body: Box::new(Expr::Lambda {
                param: "y".to_string(),
                body: Box::new(Expr::BinOp {
                    op: BinOp::Add,
                    left: Box::new(Expr::Var("x".to_string())),
                    right: Box::new(Expr::Var("y".to_string())),
                }),
            }),
        },
    )];

    registry.register_module("Math".to_string(), bindings, vec![]);

    assert!(registry.has_module("Math"));
    assert_eq!(registry.module_names(), vec!["Math"]);

    let expr = registry.resolve_qualified("Math", "add");
    assert!(expr.is_some());
    assert!(expr.unwrap().is_lambda());
}

#[test]
fn test_get_module_bindings() {
    let mut registry = ModuleRegistry::new();

    let bindings = vec![
        ("x".to_string(), Expr::Lit(Literal::Int(42))),
        ("y".to_string(), Expr::Lit(Literal::Int(100))),
    ];

    registry.register_module("Test".to_string(), bindings, vec![]);

    let module_bindings = registry.get_module_bindings("Test");
    assert!(module_bindings.is_some());
    assert_eq!(module_bindings.unwrap().len(), 2);
}

#[test]
fn test_resolve_nonexistent_module() {
    let registry = ModuleRegistry::new();
    assert!(!registry.has_module("Nonexistent"));
    assert!(registry.resolve_qualified("Nonexistent", "add").is_none());
}

#[test]
fn test_module_path() {
    let path = ModulePath::new(vec!["Math".to_string(), "Geometry".to_string()]);
    assert_eq!(path.qualified_name(), "Math.Geometry");
    assert_eq!(path.last(), Some("Geometry"));

    let single = ModulePath::single("Math".to_string());
    assert_eq!(single.qualified_name(), "Math");
    assert_eq!(single.last(), Some("Math"));
}

#[test]
fn test_module_with_types() {
    let mut registry = ModuleRegistry::new();

    let types = vec![(
        "Person".to_string(),
        TypeDefinition::Record(RecordTypeDef {
            name: "Person".to_string(),
            fields: vec![
                ("name".to_string(), TypeExpr::Named("string".to_string())),
                ("age".to_string(), TypeExpr::Named("int".to_string())),
            ],
        }),
    )];

    registry.register_module("Data".to_string(), vec![], types);

    let module_types = registry.get_module_types("Data");
    assert!(module_types.is_some());
    assert_eq!(module_types.unwrap().len(), 1);
    assert!(module_types.unwrap().iter().any(|(k, _)| k == "Person"));
}
