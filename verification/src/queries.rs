use vstd::prelude::*;

use crate::lang::Lang;
use crate::ts::{compile_query, compiled_query, grammar_for, language_of, load_language, query_capture_names, text_capture_names};

verus! {

/// The compiled queries for one language: the symbols a file defines, the
/// definitions whose signatures can be cut out, and the methods of impl
/// blocks or classes.
pub struct LangQueries {
    pub symbols: tree_sitter::Query,
    pub function_body: tree_sitter::Query,
    pub impl_methods: tree_sitter::Query,
}

/// The three queries are what tree-sitter compiles from these three texts
/// for the grammar, and each holds the capture names of its text.
pub open spec fn compiled_from(
    q: LangQueries,
    grammar: tree_sitter_language::LanguageFn,
    symbols: Seq<char>,
    function_body: Seq<char>,
    impl_methods: Seq<char>,
) -> bool {
    &&& compiled_query(language_of(grammar), symbols) == Ok::<tree_sitter::Query, tree_sitter::QueryError>(q.symbols)
    &&& compiled_query(language_of(grammar), function_body) == Ok::<tree_sitter::Query, tree_sitter::QueryError>(q.function_body)
    &&& compiled_query(language_of(grammar), impl_methods) == Ok::<tree_sitter::Query, tree_sitter::QueryError>(q.impl_methods)
    &&& query_capture_names(q.symbols) == text_capture_names(symbols)
    &&& query_capture_names(q.function_body) == text_capture_names(function_body)
    &&& query_capture_names(q.impl_methods) == text_capture_names(impl_methods)
}

/// Each of the three query texts compiles for the grammar.
pub open spec fn queries_compile(grammar: tree_sitter_language::LanguageFn, symbols: Seq<char>, function_body: Seq<char>, impl_methods: Seq<char>) -> bool {
    &&& compiled_query(language_of(grammar), symbols) is Ok
    &&& compiled_query(language_of(grammar), function_body) is Ok
    &&& compiled_query(language_of(grammar), impl_methods) is Ok
}

/// The queries of `lang` are those compiled from its texts for its grammar.
pub open spec fn queries_of_lang(q: LangQueries, lang: Lang) -> bool {
    match lang {
        Lang::Rust => compiled_from(q, grammar_for(lang), RUST_SYMBOLS@, RUST_FUNCTION_BODY@, RUST_IMPL_METHODS@),
        Lang::TypeScript => compiled_from(q, grammar_for(lang), TS_SYMBOLS@, TS_FUNCTION_BODY@, TS_CLASS_METHODS@),
        Lang::CSharp => compiled_from(q, grammar_for(lang), CSHARP_SYMBOLS@, CSHARP_FUNCTION_BODY@, CSHARP_CLASS_METHODS@),
    }
}

/// The Rust query texts compile for the grammar.
pub open spec fn rust_queries_compile(grammar: tree_sitter_language::LanguageFn) -> bool {
    queries_compile(grammar, RUST_SYMBOLS@, RUST_FUNCTION_BODY@, RUST_IMPL_METHODS@)
}

/// The TypeScript query texts compile for the grammar.
pub open spec fn typescript_queries_compile(grammar: tree_sitter_language::LanguageFn) -> bool {
    queries_compile(grammar, TS_SYMBOLS@, TS_FUNCTION_BODY@, TS_CLASS_METHODS@)
}

/// The C# query texts compile for the grammar.
pub open spec fn csharp_queries_compile(grammar: tree_sitter_language::LanguageFn) -> bool {
    queries_compile(grammar, CSHARP_SYMBOLS@, CSHARP_FUNCTION_BODY@, CSHARP_CLASS_METHODS@)
}

/// Compiles three query texts for a grammar; fails exactly when one of them
/// does not compile, with the error of the first that does not.
pub fn compile_all(
    grammar: tree_sitter_language::LanguageFn,
    symbols: &str,
    function_body: &str,
    impl_methods: &str,
) -> (r: Result<LangQueries, tree_sitter::QueryError>)
    ensures
        r is Ok <==> queries_compile(grammar, symbols@, function_body@, impl_methods@),
        r matches Ok(q) ==> compiled_from(q, grammar, symbols@, function_body@, impl_methods@),
        r matches Err(e) ==> {
            let language = language_of(grammar);
            if compiled_query(language, symbols@) is Err {
                compiled_query(language, symbols@) == Err::<tree_sitter::Query, tree_sitter::QueryError>(e)
            } else if compiled_query(language, function_body@) is Err {
                compiled_query(language, function_body@) == Err::<tree_sitter::Query, tree_sitter::QueryError>(e)
            } else {
                compiled_query(language, impl_methods@) == Err::<tree_sitter::Query, tree_sitter::QueryError>(e)
            }
        },
{
    let language = load_language(grammar);
    let symbols = match compile_query(&language, symbols) {
        Ok(q) => q,
        Err(e) => {
            return Err(e);
        },
    };
    let function_body = match compile_query(&language, function_body) {
        Ok(q) => q,
        Err(e) => {
            return Err(e);
        },
    };
    let impl_methods = match compile_query(&language, impl_methods) {
        Ok(q) => q,
        Err(e) => {
            return Err(e);
        },
    };
    Ok(LangQueries { symbols, function_body, impl_methods })
}

/// The Rust queries, compiled for the grammar `lang`, which must accept
/// them.
pub fn rust_queries(lang: tree_sitter_language::LanguageFn) -> (r: LangQueries)
    requires
        rust_queries_compile(lang),
    ensures
        compiled_from(r, lang, RUST_SYMBOLS@, RUST_FUNCTION_BODY@, RUST_IMPL_METHODS@),
{
    compile_all(lang, RUST_SYMBOLS, RUST_FUNCTION_BODY, RUST_IMPL_METHODS).unwrap()
}

/// The TypeScript queries, compiled for the grammar `lang`, which must
/// accept them.
pub fn typescript_queries(lang: tree_sitter_language::LanguageFn) -> (r: LangQueries)
    requires
        typescript_queries_compile(lang),
    ensures
        compiled_from(r, lang, TS_SYMBOLS@, TS_FUNCTION_BODY@, TS_CLASS_METHODS@),
{
    compile_all(lang, TS_SYMBOLS, TS_FUNCTION_BODY, TS_CLASS_METHODS).unwrap()
}

/// The C# queries, compiled for the grammar `lang`, which must accept
/// them.
pub fn csharp_queries(lang: tree_sitter_language::LanguageFn) -> (r: LangQueries)
    requires
        csharp_queries_compile(lang),
    ensures
        compiled_from(r, lang, CSHARP_SYMBOLS@, CSHARP_FUNCTION_BODY@, CSHARP_CLASS_METHODS@),
{
    compile_all(lang, CSHARP_SYMBOLS, CSHARP_FUNCTION_BODY, CSHARP_CLASS_METHODS).unwrap()
}

// Rust queries

pub const RUST_SYMBOLS: &'static str = r#"[
  (function_item name: (identifier) @name) @def
  (struct_item name: (type_identifier) @name) @def
  (enum_item name: (type_identifier) @name) @def
  (trait_item name: (type_identifier) @name) @def
  (impl_item trait: (type_identifier)? @trait_name type: (type_identifier) @name) @def
  (type_item name: (type_identifier) @name) @def
  (const_item name: (identifier) @name) @def
  (static_item name: (identifier) @name) @def
  (mod_item name: (identifier) @name) @def
]"#;

pub const RUST_FUNCTION_BODY: &'static str = r#"[
  (function_item name: (identifier) @name body: (block) @body) @def
  (const_item name: (identifier) @name) @def
  (static_item name: (identifier) @name) @def
  (struct_item name: (type_identifier) @name body: (_)? @body) @def
  (enum_item name: (type_identifier) @name body: (_)? @body) @def
  (trait_item name: (type_identifier) @name body: (_)? @body) @def
  (impl_item type: (type_identifier) @name body: (_)? @body) @def
  (type_item name: (type_identifier) @name) @def
  (mod_item name: (identifier) @name body: (_)? @body) @def
]"#;

pub const RUST_IMPL_METHODS: &'static str = r#"
(impl_item
  type: (type_identifier) @impl_name
  body: (declaration_list
    (function_item name: (identifier) @method_name) @method_def))
"#;

// TypeScript queries

pub const TS_SYMBOLS: &'static str = r#"[
  (function_declaration name: (identifier) @name) @def
  (class_declaration name: (type_identifier) @name) @def
  (interface_declaration name: (type_identifier) @name) @def
  (type_alias_declaration name: (type_identifier) @name) @def
  (enum_declaration name: (identifier) @name) @def
  (lexical_declaration
    (variable_declarator name: (identifier) @name)) @def
  (export_statement
    declaration: (function_declaration name: (identifier) @name)) @def
  (export_statement
    declaration: (class_declaration name: (type_identifier) @name)) @def
  (export_statement
    declaration: (interface_declaration name: (type_identifier) @name)) @def
  (export_statement
    declaration: (type_alias_declaration name: (type_identifier) @name)) @def
  (export_statement
    declaration: (enum_declaration name: (identifier) @name)) @def
  (export_statement
    declaration: (lexical_declaration
      (variable_declarator name: (identifier) @name))) @def
]"#;

pub const TS_FUNCTION_BODY: &'static str = r#"[
  (function_declaration name: (identifier) @name body: (statement_block) @body) @def
  (class_declaration name: (type_identifier) @name body: (class_body) @body) @def
  (interface_declaration name: (type_identifier) @name body: (interface_body) @body) @def
  (type_alias_declaration name: (type_identifier) @name) @def
  (enum_declaration name: (identifier) @name body: (enum_body) @body) @def
  (lexical_declaration
    (variable_declarator name: (identifier) @name)) @def
  (export_statement
    declaration: (function_declaration name: (identifier) @name body: (statement_block) @body)) @def
  (export_statement
    declaration: (class_declaration name: (type_identifier) @name body: (class_body) @body)) @def
  (export_statement
    declaration: (interface_declaration name: (type_identifier) @name body: (interface_body) @body)) @def
  (export_statement
    declaration: (type_alias_declaration name: (type_identifier) @name)) @def
  (export_statement
    declaration: (enum_declaration name: (identifier) @name body: (enum_body) @body)) @def
  (export_statement
    declaration: (lexical_declaration
      (variable_declarator name: (identifier) @name))) @def
]"#;

pub const TS_CLASS_METHODS: &'static str = r#"
(class_declaration
  name: (type_identifier) @class_name
  body: (class_body
    (method_definition name: (property_identifier) @method_name) @method_def))
"#;

// C# queries

pub const CSHARP_SYMBOLS: &'static str = r#"[
  (namespace_declaration name: (_) @name) @def
  (file_scoped_namespace_declaration name: (_) @name) @def
  (class_declaration name: (identifier) @name) @def
  (interface_declaration name: (identifier) @name) @def
  (struct_declaration name: (identifier) @name) @def
  (enum_declaration name: (identifier) @name) @def
  (record_declaration name: (identifier) @name) @def
  (method_declaration name: (identifier) @name) @def
  (constructor_declaration name: (identifier) @name) @def
  (property_declaration name: (identifier) @name) @def
  (field_declaration
    (variable_declaration (variable_declarator name: (identifier) @name))) @def
  (delegate_declaration name: (identifier) @name) @def
]"#;

pub const CSHARP_FUNCTION_BODY: &'static str = r#"[
  (namespace_declaration name: (_) @name body: (declaration_list) @body) @def
  (file_scoped_namespace_declaration name: (_) @name) @def
  (class_declaration name: (identifier) @name body: (declaration_list) @body) @def
  (interface_declaration name: (identifier) @name body: (declaration_list) @body) @def
  (struct_declaration name: (identifier) @name body: (declaration_list) @body) @def
  (enum_declaration name: (identifier) @name body: (enum_member_declaration_list) @body) @def
  (record_declaration name: (identifier) @name body: (_)? @body) @def
  (method_declaration name: (identifier) @name body: (_)? @body) @def
  (constructor_declaration name: (identifier) @name body: (_)? @body) @def
  (property_declaration name: (identifier) @name) @def
  (field_declaration
    (variable_declaration (variable_declarator name: (identifier) @name))) @def
  (delegate_declaration name: (identifier) @name) @def
]"#;

pub const CSHARP_CLASS_METHODS: &'static str = r#"
(class_declaration
  name: (identifier) @class_name
  body: (declaration_list
    (method_declaration name: (identifier) @method_name) @method_def))
"#;

} // verus!
