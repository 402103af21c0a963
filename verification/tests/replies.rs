use code_search_mcp::error::ToolError;
use code_search_mcp::lang::Lang;
use code_search_mcp::server::{error_reply, lang_or_error, lookup_reply, unsupported_file_message};

#[test]
fn lookup_reply_passes_found_text_through() {
    assert_eq!(lookup_reply(Some("fn f()".to_string()), "f", "a.rs"), "fn f()");
}

#[test]
fn lookup_reply_reports_missing_symbol() {
    assert_eq!(
        lookup_reply(None, "compute_movement_speed", "server/src/lib.rs"),
        "Symbol 'compute_movement_speed' not found in server/src/lib.rs"
    );
}

#[test]
fn error_reply_prefixes_message() {
    assert_eq!(error_reply("failed to read file"), "Error: failed to read file");
}

#[test]
fn error_messages_name_the_cause() {
    assert_eq!(ToolError::UnsupportedFileType.message(), "unsupported file type");
    assert_eq!(unsupported_file_message("notes.txt"), "unsupported file type: notes.txt");
    assert_eq!(ToolError::LanguageRejected.message(), "failed to set language");
    assert_eq!(ToolError::ParseFailed.message(), "tree-sitter parse failed");
    assert_eq!(ToolError::MissingNameCapture.message(), "query missing @name capture");
    assert_eq!(ToolError::MissingDefCapture.message(), "query missing @def capture");
    assert_eq!(ToolError::NodeOutOfRange.message(), "captured node lies outside the source");
}

#[test]
fn file_type_decides_language_or_message() {
    assert_eq!(lang_or_error("src/lib.rs"), Ok(Lang::Rust));
    assert_eq!(lang_or_error("Game.cs"), Ok(Lang::CSharp));
    assert_eq!(lang_or_error("notes.txt"), Err("unsupported file type: notes.txt".to_string()));
}
