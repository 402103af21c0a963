use vstd::prelude::*;

use crate::error::ToolError;
use crate::lang::{lang_of_path, Lang};

verus! {

/// The reply to a lookup of `name` in `file` that found nothing.
pub open spec fn not_found_text(name: Seq<char>, file: Seq<char>) -> Seq<char> {
    "Symbol '"@ + name + "' not found in "@ + file
}

/// The reply of a tool that looks a symbol up: what it found, or a note that
/// `name` is not in `file`.
pub fn lookup_reply(found: Option<String>, name: &str, file: &str) -> (r: String)
    ensures
        r@ == match found {
            Some(s) => s@,
            None => not_found_text(name@, file@),
        },
{
    match found {
        Some(s) => s,
        None => {
            let mut r = String::from_str("Symbol '");
            r.append(name);
            r.append("' not found in ");
            r.append(file);
            r
        },
    }
}

/// The reply of a tool that failed with the message `message`.
pub fn error_reply(message: &str) -> (r: String)
    ensures
        r@ == "Error: "@ + message@,
{
    let mut r = String::from_str("Error: ");
    r.append(message);
    r
}

/// The reply to a file whose type no supported language has.
pub fn unsupported_file_message(path: &str) -> (r: String)
    ensures
        r@ == "unsupported file type: "@ + path@,
{
    let mut r = String::from_str("unsupported file type: ");
    r.append(path);
    r
}

/// The language of the file at `path`, or, for a file type that no
/// supported language has, the message that says so.
pub fn lang_or_error(path: &str) -> (r: Result<Lang, String>)
    ensures
        match lang_of_path(path@) {
            Some(lang) => r == Ok::<Lang, String>(lang),
            None => r matches Err(m) && m@ == "unsupported file type: "@ + path@,
        },
{
    match Lang::from_path(path) {
        Some(lang) => Ok(lang),
        None => Err(unsupported_file_message(path)),
    }
}

impl ToolError {
    /// What went wrong.
    pub fn message(&self) -> (r: String)
        ensures
            r@ == match *self {
                ToolError::UnsupportedFileType => "unsupported file type"@,
                ToolError::LanguageRejected => "failed to set language"@,
                ToolError::ParseFailed => "tree-sitter parse failed"@,
                ToolError::MissingNameCapture => "query missing @name capture"@,
                ToolError::MissingDefCapture => "query missing @def capture"@,
                ToolError::NodeOutOfRange => "captured node lies outside the source"@,
            },
    {
        match self {
            ToolError::UnsupportedFileType => String::from_str("unsupported file type"),
            ToolError::LanguageRejected => String::from_str("failed to set language"),
            ToolError::ParseFailed => String::from_str("tree-sitter parse failed"),
            ToolError::MissingNameCapture => String::from_str("query missing @name capture"),
            ToolError::MissingDefCapture => String::from_str("query missing @def capture"),
            ToolError::NodeOutOfRange => String::from_str("captured node lies outside the source"),
        }
    }
}

} // verus!
