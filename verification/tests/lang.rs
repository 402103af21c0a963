use code_search_mcp::lang::Lang;

#[test]
fn rust_extension_selects_rust() {
    assert_eq!(Lang::from_path("server/src/lib.rs"), Some(Lang::Rust));
    assert_eq!(Lang::from_extension("rs"), Some(Lang::Rust));
}

#[test]
fn typescript_extensions_select_typescript() {
    assert_eq!(Lang::from_path("web/app.ts"), Some(Lang::TypeScript));
    assert_eq!(Lang::from_path("web/view.tsx"), Some(Lang::TypeScript));
    assert_eq!(Lang::from_extension("ts"), Some(Lang::TypeScript));
    assert_eq!(Lang::from_extension("tsx"), Some(Lang::TypeScript));
}

#[test]
fn csharp_extension_selects_csharp() {
    assert_eq!(Lang::from_path("GameCharacter.cs"), Some(Lang::CSharp));
    assert_eq!(Lang::from_extension("cs"), Some(Lang::CSharp));
}

#[test]
fn other_files_are_unsupported() {
    assert_eq!(Lang::from_path("index.js"), None);
    assert_eq!(Lang::from_path("Makefile"), None);
    assert_eq!(Lang::from_path(".rs"), None);
    assert_eq!(Lang::from_path("archive.tar.gz"), None);
    assert_eq!(Lang::from_extension("RS"), None);
    assert_eq!(Lang::from_extension(""), None);
}

#[test]
fn extension_is_taken_after_the_last_dot() {
    assert_eq!(Lang::from_path("generated.d.ts"), Some(Lang::TypeScript));
    assert_eq!(Lang::from_path("module.ts.rs"), Some(Lang::Rust));
    assert_eq!(Lang::from_path("dir.rs/readme"), None);
}
