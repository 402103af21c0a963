use vstd::prelude::*;

use crate::text::str_eq;

verus! {

/// The languages whose sources can be analysed.
#[derive(Clone, Copy, Debug, PartialEq, Eq, Structural)]
pub enum Lang {
    Rust,
    TypeScript,
    CSharp,
}

/// Name for what `std::path::Path::extension` yields for a path written as
/// text (the part of the file name after its final `.`), taken as characters.
pub uninterp spec fn path_extension(path: Seq<char>) -> Option<Seq<char>>;

/// The language that a file extension selects: `rs` for Rust, `ts` and `tsx`
/// for TypeScript, `cs` for C#, nothing otherwise.
pub open spec fn lang_of_extension(ext: Seq<char>) -> Option<Lang> {
    if ext == "rs"@ {
        Some(Lang::Rust)
    } else if ext == "ts"@ || ext == "tsx"@ {
        Some(Lang::TypeScript)
    } else if ext == "cs"@ {
        Some(Lang::CSharp)
    } else {
        None
    }
}

/// The language of a file, decided by its path's extension.
pub open spec fn lang_of_path(path: Seq<char>) -> Option<Lang> {
    match path_extension(path) {
        Some(ext) => lang_of_extension(ext),
        None => None,
    }
}

/// Calls `std::path::Path::extension` on the path and keeps the extension
/// when it is valid UTF-8. Claimed: the result is the name `path_extension`
/// of the path's characters.
#[verifier::external_body]
fn extension_of(path: &str) -> (r: Option<&str>)
    ensures
        match r {
            Some(e) => path_extension(path@) == Some(e@),
            None => path_extension(path@) is None,
        },
{
    std::path::Path::new(path).extension().and_then(|e| e.to_str())
}

impl Lang {
    /// The language that a file extension (without its dot) selects.
    pub fn from_extension(ext: &str) -> (r: Option<Lang>)
        ensures
            r == lang_of_extension(ext@),
    {
        if str_eq(ext, "rs") {
            Some(Lang::Rust)
        } else if str_eq(ext, "ts") || str_eq(ext, "tsx") {
            Some(Lang::TypeScript)
        } else if str_eq(ext, "cs") {
            Some(Lang::CSharp)
        } else {
            None
        }
    }

    /// The language of the file at `path`, by its extension; `None` for a
    /// file type that is not supported.
    pub fn from_path(path: &str) -> (r: Option<Lang>)
        ensures
            r == lang_of_path(path@),
    {
        match extension_of(path) {
            Some(ext) => Lang::from_extension(ext),
            None => None,
        }
    }
}

} // verus!
