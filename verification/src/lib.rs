//! Symbol extraction for Rust, TypeScript and C# sources, driven by tree-sitter
//! queries: listing symbols, rebuilding a file's outline and cutting out the
//! signature of a named definition.

pub mod error;
pub mod lang;
pub mod text;
pub mod capture;
pub mod ts;
pub mod queries;
pub mod parser;
pub mod types;
pub mod tools;
pub mod server;
