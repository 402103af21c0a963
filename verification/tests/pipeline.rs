use code_search_mcp::queries::{compile_all, RUST_FUNCTION_BODY, RUST_IMPL_METHODS, RUST_SYMBOLS};
use code_search_mcp::lang::Lang;
use code_search_mcp::parser::{fresh_parse, FileTime, ParseCache};
use code_search_mcp::tools::get_file_structure::method_indices;
use code_search_mcp::tools::list_symbols::name_and_def_indices;
use code_search_mcp::tools::get_file_structure::get_file_structure;
use code_search_mcp::tools::get_signature::{get_definition, get_signature};
use code_search_mcp::tools::list_symbols::list_symbols;
use code_search_mcp::error::ToolError;

const RUST: &str = "fn alpha() {}\n\nstruct Beta;\n\nimpl Beta {\n    fn new() -> Self { Beta }\n    fn get(&self) -> u8 { 0 }\n}\n";

const TS: &str = "class Greeter {\n  greet(): string { return \"hi\"; }\n}\nfunction main(): void {}\n";

fn at(secs: u64) -> FileTime {
    FileTime { after_epoch: true, secs, nanos: 0 }
}

#[test]
fn rust_symbols_are_listed_with_lines() {
    let mut cache = ParseCache::new().unwrap();
    let (tree, source) = cache.parse_source("a.rs", at(1), RUST.as_bytes().to_vec()).unwrap();
    let syms = list_symbols(&cache, Lang::Rust, &tree, &source).unwrap();
    let got: Vec<(String, String, usize, usize)> =
        syms.into_iter().map(|s| (s.name, s.kind, s.line, s.end_line)).collect();
    assert_eq!(
        got,
        vec![
            ("alpha".to_string(), "function_item".to_string(), 1, 1),
            ("Beta".to_string(), "struct_item".to_string(), 3, 3),
            ("Beta".to_string(), "impl_item".to_string(), 5, 8),
            ("new".to_string(), "function_item".to_string(), 6, 6),
            ("get".to_string(), "function_item".to_string(), 7, 7),
        ]
    );
}

#[test]
fn rust_signature_and_definition() {
    let mut cache = ParseCache::new().unwrap();
    let (tree, source) = cache.parse_source("a.rs", at(1), RUST.as_bytes().to_vec()).unwrap();
    assert_eq!(get_signature(&cache, Lang::Rust, &tree, &source, "new"), Ok(Some("fn new() -> Self".to_string())));
    assert_eq!(get_signature(&cache, Lang::Rust, &tree, &source, "Beta"), Ok(Some("struct Beta;".to_string())));
    assert_eq!(get_signature(&cache, Lang::Rust, &tree, &source, "missing"), Ok(None));
    assert_eq!(get_definition(&cache, Lang::Rust, &tree, &source, "alpha"), Ok(Some("fn alpha() {}".to_string())));
}

#[test]
fn rust_outline_nests_methods_under_impl() {
    let mut cache = ParseCache::new().unwrap();
    let (tree, source) = cache.parse_source("a.rs", at(1), RUST.as_bytes().to_vec()).unwrap();
    let fs = get_file_structure(&cache, Lang::Rust, "a.rs", &tree, &source).unwrap();
    assert_eq!(fs.file, "a.rs");
    let top: Vec<(&str, &str, usize)> = fs.items.iter().map(|i| (i.name.as_str(), i.kind.as_str(), i.line)).collect();
    assert_eq!(
        top,
        vec![
            ("alpha", "function_item", 1),
            ("Beta", "struct_item", 3),
            ("Beta", "impl_item", 5),
            ("new", "function_item", 6),
            ("get", "function_item", 7),
        ]
    );
    let children: Vec<(&str, &str, usize)> =
        fs.items[2].children.iter().map(|c| (c.name.as_str(), c.kind.as_str(), c.line)).collect();
    assert_eq!(children, vec![("new", "function_item", 6), ("get", "function_item", 7)]);
    assert!(fs.items[0].children.is_empty());
    assert!(fs.items[1].children.is_empty());
}

#[test]
fn typescript_outline_nests_methods_under_class() {
    let mut cache = ParseCache::new().unwrap();
    let (tree, source) = cache.parse_source("g.ts", at(1), TS.as_bytes().to_vec()).unwrap();
    let fs = get_file_structure(&cache, Lang::TypeScript, "g.ts", &tree, &source).unwrap();
    let top: Vec<(&str, &str, usize)> = fs.items.iter().map(|i| (i.name.as_str(), i.kind.as_str(), i.line)).collect();
    assert_eq!(top, vec![("Greeter", "class_declaration", 1), ("main", "function_declaration", 4)]);
    let children: Vec<(&str, &str, usize)> =
        fs.items[0].children.iter().map(|c| (c.name.as_str(), c.kind.as_str(), c.line)).collect();
    assert_eq!(children, vec![("greet", "method_definition", 2)]);
    assert_eq!(
        get_signature(&cache, Lang::TypeScript, &tree, &source, "main"),
        Ok(Some("function main(): void".to_string()))
    );
}

#[test]
fn cache_answers_only_for_the_same_modification_time() {
    let mut cache = ParseCache::new().unwrap();
    assert!(cache.cached("a.rs", at(1)).is_none());
    cache.parse_source("a.rs", at(1), RUST.as_bytes().to_vec()).unwrap();
    let (_, source) = cache.cached("a.rs", at(1)).unwrap();
    assert_eq!(source, RUST.as_bytes());
    assert!(cache.cached("a.rs", at(2)).is_none());
    assert!(cache.cached("b.rs", at(1)).is_none());
}

#[test]
fn unsupported_file_is_refused_before_parsing() {
    let mut cache = ParseCache::new().unwrap();
    let r = cache.parse_source("notes.txt", at(1), b"hello".to_vec());
    assert!(matches!(r, Err(ToolError::UnsupportedFileType)));
    assert!(cache.cached("notes.txt", at(1)).is_none());
}

#[test]
fn outline_and_symbol_list_name_the_same_definitions() {
    let mut cache = ParseCache::new().unwrap();
    let src = "mod m {}\nfn f() {}\nfn f() {}\nenum E { A }\n";
    let (tree, source) = cache.parse_source("c.rs", at(3), src.as_bytes().to_vec()).unwrap();
    let syms = list_symbols(&cache, Lang::Rust, &tree, &source).unwrap();
    let fs = get_file_structure(&cache, Lang::Rust, "c.rs", &tree, &source).unwrap();
    for s in &syms {
        assert!(!s.name.is_empty());
        assert!(s.line <= s.end_line);
        assert!(fs.items.iter().any(|i| i.name == s.name && i.kind == s.kind && i.line == s.line));
    }
    for i in &fs.items {
        assert!(syms.iter().any(|s| i.name == s.name && i.kind == s.kind && i.line == s.line));
    }
    let names: Vec<&str> = fs.items.iter().map(|i| i.name.as_str()).collect();
    assert_eq!(names, vec!["m", "f", "f", "E"]);
}

#[test]
fn signature_is_a_prefix_of_the_definition() {
    let mut cache = ParseCache::new().unwrap();
    let (tree, source) = cache.parse_source("a.rs", at(1), RUST.as_bytes().to_vec()).unwrap();
    for name in ["alpha", "Beta", "new", "get"] {
        let sig = get_signature(&cache, Lang::Rust, &tree, &source, name).unwrap().unwrap();
        let def = get_definition(&cache, Lang::Rust, &tree, &source, name).unwrap().unwrap();
        assert!(def.starts_with(&sig), "{name}: {sig:?} / {def:?}");
        assert_eq!(sig.trim_end(), sig);
    }
    assert_eq!(
        get_definition(&cache, Lang::Rust, &tree, &source, "get"),
        Ok(Some("fn get(&self) -> u8 { 0 }".to_string()))
    );
}

#[test]
fn capture_indices_follow_the_query_text() {
    let mut cache = ParseCache::new().unwrap();
    let rust = cache.queries(Lang::Rust);
    assert_eq!(name_and_def_indices(&rust.symbols), Ok((0, 1)));
    assert_eq!(method_indices(&rust.impl_methods, Lang::Rust), Some((0, 1, 2)));
    assert_eq!(method_indices(&rust.impl_methods, Lang::TypeScript), None);
    assert_eq!(name_and_def_indices(&rust.impl_methods), Err(ToolError::MissingNameCapture));
    let ts = cache.queries(Lang::TypeScript);
    assert_eq!(method_indices(&ts.impl_methods, Lang::TypeScript), Some((0, 1, 2)));
}

#[test]
fn fresh_parse_keeps_only_matching_times() {
    let mut cache = ParseCache::new().unwrap();
    let (tree, source) = cache.parse_source("a.rs", at(1), RUST.as_bytes().to_vec()).unwrap();
    let hit = fresh_parse(Some((tree.clone(), source.clone(), at(1))), at(1)).unwrap();
    assert_eq!(hit.1, source);
    assert!(fresh_parse(Some((tree, source, at(1))), at(2)).is_none());
    assert!(fresh_parse(None, at(1)).is_none());
}

const CS: &str = "using System;\n\nnamespace TestNamespace\n{\n    public class GameCharacter\n    {\n        public string Name { get; set; }\n        public int Health { get; private set; }\n\n        public GameCharacter(string name)\n        {\n            Name = name;\n            Health = 100;\n        }\n\n        public void TakeDamage(int amount)\n        {\n            Health -= amount;\n        }\n    }\n\n    public interface ISpellCaster\n    {\n        void Cast();\n    }\n\n    public enum CharacterClass { Warrior, Mage }\n}\n";

#[test]
fn csharp_symbols_are_listed() {
    let mut cache = ParseCache::new().unwrap();
    let (tree, source) = cache.parse_source("GameCharacter.cs", at(1), CS.as_bytes().to_vec()).unwrap();
    let syms = list_symbols(&cache, Lang::CSharp, &tree, &source).unwrap();
    let got: Vec<(&str, &str, usize)> = syms.iter().map(|s| (s.name.as_str(), s.kind.as_str(), s.line)).collect();
    assert_eq!(
        got,
        vec![
            ("TestNamespace", "namespace_declaration", 3),
            ("GameCharacter", "class_declaration", 5),
            ("Name", "property_declaration", 7),
            ("Health", "property_declaration", 8),
            ("GameCharacter", "constructor_declaration", 10),
            ("TakeDamage", "method_declaration", 16),
            ("ISpellCaster", "interface_declaration", 22),
            ("Cast", "method_declaration", 24),
            ("CharacterClass", "enum_declaration", 27),
        ]
    );
}

#[test]
fn csharp_outline_and_signatures() {
    let mut cache = ParseCache::new().unwrap();
    let (tree, source) = cache.parse_source("GameCharacter.cs", at(1), CS.as_bytes().to_vec()).unwrap();
    let fs = get_file_structure(&cache, Lang::CSharp, "GameCharacter.cs", &tree, &source).unwrap();
    assert_eq!(fs.items.len(), 1);
    let ns = &fs.items[0];
    assert_eq!((ns.name.as_str(), ns.kind.as_str(), ns.line), ("TestNamespace", "namespace_declaration", 3));
    let members: Vec<(&str, &str, usize)> = ns.children.iter().map(|c| (c.name.as_str(), c.kind.as_str(), c.line)).collect();
    assert_eq!(
        members,
        vec![
            ("GameCharacter", "class_declaration", 5),
            ("ISpellCaster", "interface_declaration", 22),
            ("CharacterClass", "enum_declaration", 27),
        ]
    );
    let class = &ns.children[0];
    let children: Vec<(&str, usize)> = class.children.iter().map(|c| (c.name.as_str(), c.line)).collect();
    assert_eq!(children, vec![("TakeDamage", 16)]);
    assert!(ns.children[1].children.is_empty());
    assert_eq!(
        get_signature(&cache, Lang::CSharp, &tree, &source, "TakeDamage"),
        Ok(Some("public void TakeDamage(int amount)".to_string()))
    );
    assert_eq!(
        get_signature(&cache, Lang::CSharp, &tree, &source, "GameCharacter"),
        Ok(Some("public class GameCharacter".to_string()))
    );
    assert_eq!(
        get_definition(&cache, Lang::CSharp, &tree, &source, "Cast"),
        Ok(Some("void Cast();".to_string()))
    );
}

#[test]
fn container_signatures_are_headers() {
    let mut cache = ParseCache::new().unwrap();
    let src = "struct P {\n    x: i32,\n}\n\ntrait T {\n    fn f(&self);\n}\n\nimpl T for P {\n    fn f(&self) {}\n}\n";
    let (tree, source) = cache.parse_source("h.rs", at(1), src.as_bytes().to_vec()).unwrap();
    assert_eq!(get_signature(&cache, Lang::Rust, &tree, &source, "P"), Ok(Some("struct P".to_string())));
    assert_eq!(get_signature(&cache, Lang::Rust, &tree, &source, "T"), Ok(Some("trait T".to_string())));
    assert_eq!(
        get_definition(&cache, Lang::Rust, &tree, &source, "P"),
        Ok(Some("struct P {\n    x: i32,\n}".to_string()))
    );
    let (ttree, tsource) = cache.parse_source("g.ts", at(1), TS.as_bytes().to_vec()).unwrap();
    assert_eq!(
        get_signature(&cache, Lang::TypeScript, &ttree, &tsource, "Greeter"),
        Ok(Some("class Greeter".to_string()))
    );
}

#[test]
fn queries_compile_for_their_own_grammars() {
    assert!(ParseCache::new().is_ok());
    let rust = code_search_mcp::queries::rust_queries(tree_sitter_rust::LANGUAGE);
    assert_eq!(name_and_def_indices(&rust.symbols), Ok((0, 1)));
    let g = code_search_mcp::ts::grammar(Lang::Rust);
    assert!(compile_all(g, RUST_SYMBOLS, RUST_FUNCTION_BODY, RUST_IMPL_METHODS).is_ok());
    let wrong = code_search_mcp::ts::grammar(Lang::TypeScript);
    assert!(compile_all(wrong, RUST_SYMBOLS, RUST_FUNCTION_BODY, RUST_IMPL_METHODS).is_err());
}

#[test]
fn module_members_are_nested_under_the_module() {
    let mut cache = ParseCache::new().unwrap();
    let src = "mod combat {\n    struct Weapon;\n    fn calculate_damage() {}\n}\n\nfn outside() {}\n";
    let (tree, source) = cache.parse_source("m.rs", at(1), src.as_bytes().to_vec()).unwrap();
    let fs = get_file_structure(&cache, Lang::Rust, "m.rs", &tree, &source).unwrap();
    let top: Vec<(&str, &str, usize)> = fs.items.iter().map(|i| (i.name.as_str(), i.kind.as_str(), i.line)).collect();
    assert_eq!(top, vec![("combat", "mod_item", 1), ("outside", "function_item", 6)]);
    let module = &fs.items[0];
    let members: Vec<(&str, &str, usize)> =
        module.children.iter().map(|c| (c.name.as_str(), c.kind.as_str(), c.line)).collect();
    assert_eq!(members, vec![("Weapon", "struct_item", 2), ("calculate_damage", "function_item", 3)]);
    assert!(fs.items[1].children.is_empty());
}

#[test]
fn module_member_is_listed_once() {
    let mut cache = ParseCache::new().unwrap();
    let src = "mod m {\n    fn f() {}\n}\n";
    let (tree, source) = cache.parse_source("a.rs", at(1), src.as_bytes().to_vec()).unwrap();
    let fs = get_file_structure(&cache, Lang::Rust, "a.rs", &tree, &source).unwrap();
    assert_eq!(fs.file, "a.rs");
    assert_eq!(fs.items.len(), 1);
    let m = &fs.items[0];
    assert_eq!((m.name.as_str(), m.kind.as_str(), m.line), ("m", "mod_item", 1));
    assert_eq!(m.children.len(), 1);
    let f = &m.children[0];
    assert_eq!((f.name.as_str(), f.kind.as_str(), f.line), ("f", "function_item", 2));
    assert!(f.children.is_empty());
}

#[test]
fn nested_modules_keep_only_direct_members() {
    let mut cache = ParseCache::new().unwrap();
    let src = "mod a {\n    mod b {\n        fn g() {}\n    }\n    struct S;\n    impl S {\n        fn h() {}\n    }\n}\n";
    let (tree, source) = cache.parse_source("n.rs", at(1), src.as_bytes().to_vec()).unwrap();
    let fs = get_file_structure(&cache, Lang::Rust, "n.rs", &tree, &source).unwrap();
    assert_eq!(fs.items.len(), 1);
    let a = &fs.items[0];
    let members: Vec<(&str, &str, usize)> = a.children.iter().map(|c| (c.name.as_str(), c.kind.as_str(), c.line)).collect();
    assert_eq!(members, vec![("b", "mod_item", 2), ("S", "struct_item", 5), ("S", "impl_item", 6)]);
    let b = &a.children[0];
    let inner: Vec<(&str, usize)> = b.children.iter().map(|c| (c.name.as_str(), c.line)).collect();
    assert_eq!(inner, vec![("g", 3)]);
    let methods: Vec<(&str, usize)> = a.children[2].children.iter().map(|c| (c.name.as_str(), c.line)).collect();
    assert_eq!(methods, vec![("h", 7)]);
}

#[test]
fn new_cache_holds_no_file() {
    let cache = ParseCache::new().unwrap();
    assert_eq!(cache.cached_files(), 0);
}

#[test]
fn parse_keeps_one_entry_per_path_as_given() {
    let mut cache = ParseCache::new().unwrap();
    cache.parse_source("a.rs", at(1), RUST.as_bytes().to_vec()).unwrap();
    assert_eq!(cache.cached_files(), 1);
    cache.parse_source("./a.rs", at(1), RUST.as_bytes().to_vec()).unwrap();
    assert_eq!(cache.cached_files(), 2);
    cache.parse_source("a.rs", at(1), RUST.as_bytes().to_vec()).unwrap();
    assert_eq!(cache.cached_files(), 2);
}

#[test]
fn stale_entry_is_replaced() {
    let mut cache = ParseCache::new().unwrap();
    cache.parse_source("a.rs", at(1), b"fn old() {}\n".to_vec()).unwrap();
    assert!(cache.cached("a.rs", at(2)).is_none());
    let (_, source) = cache.parse_source("a.rs", at(2), b"fn new() {}\n".to_vec()).unwrap();
    assert_eq!(source, b"fn new() {}\n".to_vec());
    assert_eq!(cache.cached_files(), 1);
    let (tree, kept) = cache.cached("a.rs", at(2)).unwrap();
    assert_eq!(kept, b"fn new() {}\n".to_vec());
    let syms = list_symbols(&cache, Lang::Rust, &tree, &kept).unwrap();
    assert_eq!(syms[0].name, "new");
    assert!(cache.cached("a.rs", at(1)).is_none());
}

#[test]
fn failed_parse_leaves_cache_unchanged() {
    let mut cache = ParseCache::new().unwrap();
    cache.parse_source("a.rs", at(1), RUST.as_bytes().to_vec()).unwrap();
    assert!(matches!(cache.parse_source("notes.txt", at(1), b"x".to_vec()), Err(ToolError::UnsupportedFileType)));
    assert_eq!(cache.cached_files(), 1);
    let (_, source) = cache.cached("a.rs", at(1)).unwrap();
    assert_eq!(source, RUST.as_bytes());
}

#[test]
fn repeated_lookup_gives_the_same_parse() {
    let mut cache = ParseCache::new().unwrap();
    let (t1, s1) = cache.parse_source("a.rs", at(1), RUST.as_bytes().to_vec()).unwrap();
    let (t2, s2) = cache.cached("a.rs", at(1)).unwrap();
    assert_eq!(s1, s2);
    assert_eq!(t1.root_node().to_sexp(), t2.root_node().to_sexp());
    assert_eq!(cache.cached_files(), 1);
}
