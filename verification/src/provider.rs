use vstd::prelude::*;

use crate::ast::TypeDefinition;

verus! {

/// A schema a type provider has resolved: its raw text.
#[derive(Debug)]
pub enum Schema {
    Custom(String),
}

/// A failure while resolving or translating a schema.
#[derive(Debug)]
pub enum ProviderError {
    ParseError(String),
    IoError(String),
    FetchError(String),
}

/// One generated module: its path and the types it holds.
#[derive(Debug)]
pub struct GeneratedModule {
    pub path: Vec<String>,
    pub types: Vec<TypeDefinition>,
}

/// Everything a provider generated from one schema.
#[derive(Debug)]
pub struct GeneratedTypes {
    pub modules: Vec<GeneratedModule>,
    pub root_types: Vec<TypeDefinition>,
}

} // verus!
