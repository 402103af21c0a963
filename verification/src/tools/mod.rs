//! The analyses behind the server's tools, computed from the matches that
//! tree-sitter queries yield.

pub mod fields;
pub mod list_symbols;
pub mod get_file_structure;
pub mod get_signature;
pub mod laws;
