use vstd::prelude::*;

verus! {

/// Why a tool could not answer.
#[derive(Clone, Copy, Debug, PartialEq, Eq, Structural)]
pub enum ToolError {
    /// The file's extension selects no supported language.
    UnsupportedFileType,
    /// The parser would not take the language's grammar.
    LanguageRejected,
    /// The parser produced no tree.
    ParseFailed,
    /// A query lacks the `@name` capture.
    MissingNameCapture,
    /// A query lacks the `@def` capture.
    MissingDefCapture,
    /// A captured node does not lie within the source it was matched in.
    NodeOutOfRange,
}

} // verus!
