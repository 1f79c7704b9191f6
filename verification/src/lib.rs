//! Core execution engine of a small functional scripting language in
//! the ML family: a lexer and parser for its surface syntax, a bytecode
//! compiler, the runtime value and chunk model with its serialized
//! form, a stack-based virtual machine with closures and upvalues, a
//! host-function registry with the standard-library hosts, the data
//! model of its asynchronous runtime, and the module and type-provider
//! machinery around it.

mod util;

pub mod ast;
pub mod asyncrt;
pub mod chunk;
pub mod codec;
pub mod compiler;
pub mod envcfg;
pub mod graphql;
pub mod instruction;
pub mod lexer;
pub mod modules;
pub mod numfmt;
pub mod parser;
pub mod provider;
pub mod stdlib;
pub mod value;
pub mod vm;
