//! The environment-file type provider: type inference, file parsing,
//! type generation and name-case conversion.

use fusabi::ast::TypeDefinition;
use fusabi::envcfg::{to_camel_case, to_pascal_case, EnvConfigProvider, EnvVarType, ParsedEnvConfig};
use fusabi::provider::Schema;

#[test]
fn test_infer_types() {
    assert_eq!(EnvVarType::infer("hello"), EnvVarType::String);
    assert_eq!(EnvVarType::infer("42"), EnvVarType::Int);
    assert_eq!(EnvVarType::infer("3.14"), EnvVarType::Float);
    assert_eq!(EnvVarType::infer("true"), EnvVarType::Bool);
    assert_eq!(EnvVarType::infer("false"), EnvVarType::Bool);
    assert_eq!(EnvVarType::infer("https://example.com"), EnvVarType::Url);
    assert_eq!(EnvVarType::infer("postgres://localhost/db"), EnvVarType::Url);
    assert_eq!(EnvVarType::infer("/var/log/app.log"), EnvVarType::Path);
}

#[test]
fn test_infer_list() {
    assert_eq!(
        EnvVarType::infer("a,b,c"),
        EnvVarType::List(Box::new(EnvVarType::String))
    );
    assert_eq!(
        EnvVarType::infer("1,2,3"),
        EnvVarType::List(Box::new(EnvVarType::Int))
    );
}

#[test]
fn test_parse_env_file() {
    let content = r#"
# Database configuration
DATABASE_URL=postgres://localhost/mydb
DATABASE_POOL_SIZE=10

# App settings
PORT=3000
DEBUG=true
API_KEY=
LOG_LEVEL=info
"#;

    let config = ParsedEnvConfig::parse(content);
    assert_eq!(config.vars.len(), 6);

    let db_url = config.vars.iter().find(|v| v.name == "DATABASE_URL").unwrap();
    assert_eq!(db_url.var_type, EnvVarType::Url);
    assert!(!db_url.required);
    assert_eq!(db_url.description, Some("Database configuration".to_string()));

    let pool_size = config.vars.iter().find(|v| v.name == "DATABASE_POOL_SIZE").unwrap();
    assert_eq!(pool_size.var_type, EnvVarType::Int);

    let api_key = config.vars.iter().find(|v| v.name == "API_KEY").unwrap();
    assert!(api_key.required);

    let debug = config.vars.iter().find(|v| v.name == "DEBUG").unwrap();
    assert_eq!(debug.var_type, EnvVarType::Bool);
}

#[test]
fn test_type_to_fusabi() {
    assert_eq!(EnvVarType::String.to_fusabi_type(), "string");
    assert_eq!(EnvVarType::Int.to_fusabi_type(), "int");
    assert_eq!(EnvVarType::Bool.to_fusabi_type(), "bool");
    assert_eq!(
        EnvVarType::List(Box::new(EnvVarType::String)).to_fusabi_type(),
        "string list"
    );
}

#[test]
fn mod_test_provider_name() {
    let provider = EnvConfigProvider::new();
    assert_eq!(provider.name(), "EnvConfigProvider");
}

#[test]
fn test_generate_from_env_content() {
    let env_content = r#"
# Database
DATABASE_URL=postgres://localhost/test
DATABASE_POOL_SIZE=10

# Server
PORT=3000
HOST=localhost
DEBUG=false

# Required secrets
API_KEY=
SECRET_TOKEN=
"#;

    let provider = EnvConfigProvider::new();
    let schema = Schema::Custom(env_content.to_string());
    let types = provider.generate_types(&schema, "Env").unwrap();

    assert!(!types.modules.is_empty());

    let root_module = types.modules.iter().find(|m| m.path == vec!["Env".to_string()]);
    assert!(root_module.is_some());

    let root_module = root_module.unwrap();
    assert_eq!(root_module.types.len(), 1);

    if let TypeDefinition::Record(config) = &root_module.types[0] {
        assert_eq!(config.name, "Config");

        let field_names: Vec<&str> = config.fields.iter().map(|(n, _)| n.as_str()).collect();

        assert!(field_names.contains(&"DATABASE_URL"));
        assert!(field_names.contains(&"PORT"));
        assert!(field_names.contains(&"API_KEY"));
    } else {
        panic!("Expected Record type");
    }
}

#[test]
fn mod_test_case_conversion() {
    assert_eq!(to_pascal_case("database_url"), "DatabaseUrl");
    assert_eq!(to_camel_case("DATABASE_URL"), "databaseUrl");
}

#[test]
fn test_case_conversion() {
    assert_eq!(to_camel_case("user_name"), "userName");
    assert_eq!(to_camel_case("id"), "id");
    assert_eq!(to_pascal_case("ACTIVE_STATUS"), "ActiveStatus");
    assert_eq!(to_pascal_case("active"), "Active");
}
