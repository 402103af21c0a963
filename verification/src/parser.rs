use vstd::prelude::*;

use crate::error::ToolError;
use crate::lang::{lang_of_path, Lang};
use crate::queries::{
    compile_all, csharp_queries_compile, queries_of_lang, rust_queries_compile, typescript_queries_compile, CSHARP_CLASS_METHODS,
    CSHARP_FUNCTION_BODY, CSHARP_SYMBOLS, LangQueries, RUST_FUNCTION_BODY, RUST_IMPL_METHODS, RUST_SYMBOLS, TS_CLASS_METHODS,
    TS_FUNCTION_BODY, TS_SYMBOLS,
};
use crate::ts::{clone_tree, grammar, grammar_accepted, grammar_for, load_language, new_parser, parse_bytes, set_parser_language, tree_for};

verus! {

/// When a file was last modified, as a signed offset from the Unix epoch:
/// `after_epoch` tells its side, `secs` and `nanos` its size.
#[derive(Clone, Copy, Debug, PartialEq, Eq, Structural)]
pub struct FileTime {
    pub after_epoch: bool,
    pub secs: u64,
    pub nanos: u32,
}

/// A parsed file as the cache keeps it.
pub struct CachedParse {
    pub tree: tree_sitter::Tree,
    pub source: Vec<u8>,
    pub mtime: FileTime,
}

/// Makes `dashmap::DashMap`, a concurrent hash map, known to Verus as an
/// opaque type.
#[verifier::external_type_specification]
#[verifier::external_body]
#[verifier::reject_recursive_types(K)]
#[verifier::reject_recursive_types(V)]
#[verifier::reject_recursive_types(S)]
pub struct ExDashMap<K, V, S>(dashmap::DashMap<K, V, S>);

/// Name for what a map of parsed files holds: for each path, the tree, the
/// source bytes and the modification time of the entry stored under it.
pub uninterp spec fn stored_parses(map: dashmap::DashMap<String, CachedParse>) -> Map<Seq<char>, (tree_sitter::Tree, Seq<u8>, FileTime)>;

/// Calls `dashmap::DashMap::new`. Claimed: the new map holds no entry.
#[verifier::external_body]
fn new_map() -> (r: dashmap::DashMap<String, CachedParse>)
    ensures
        stored_parses(r).dom() == Set::<Seq<char>>::empty(),
{
    dashmap::DashMap::new()
}

/// Calls `dashmap::DashMap::get` and copies out the tree, the source and the
/// modification time of the entry stored under `path`. Claimed: the copies
/// are those of the entry under `path`, and there is none when no entry has
/// that key. The map is only changed through `map_insert`, which takes it
/// by `&mut`, so what Verus knows of it stays true between calls.
#[verifier::external_body]
fn map_get(map: &dashmap::DashMap<String, CachedParse>, path: &str) -> (r: Option<(tree_sitter::Tree, Vec<u8>, FileTime)>)
    ensures
        match r {
            Some(e) => stored_parses(*map).dom().contains(path@) && (e.0, e.1@, e.2) == stored_parses(*map)[path@],
            None => !stored_parses(*map).dom().contains(path@),
        },
{
    map.get(path).map(|e| (e.tree.clone(), e.source.clone(), e.mtime))
}

/// Calls `dashmap::DashMap::insert`. Claimed: afterwards the entry under
/// `path` is the one given and every other entry is as it was.
#[verifier::external_body]
fn map_insert(map: &mut dashmap::DashMap<String, CachedParse>, path: String, entry: CachedParse)
    ensures
        stored_parses(*final(map)) == stored_parses(*old(map)).insert(path@, (entry.tree, entry.source@, entry.mtime)),
{
    map.insert(path, entry);
}

/// Calls `dashmap::DashMap::len`. Claimed: the result is the number of
/// entries.
#[verifier::external_body]
fn map_len(map: &dashmap::DashMap<String, CachedParse>) -> (r: usize)
    ensures
        r == stored_parses(*map).len(),
{
    map.len()
}

/// The parse kept under `path` in `entries`, when it was made at the
/// modification time `mtime`.
pub open spec fn lookup(entries: Map<Seq<char>, (tree_sitter::Tree, Seq<u8>, FileTime)>, path: Seq<char>, mtime: FileTime) -> Option<(tree_sitter::Tree, Seq<u8>)> {
    if entries.dom().contains(path) && entries[path].2 == mtime {
        Some((entries[path].0, entries[path].1))
    } else {
        None
    }
}

/// The parse that a cache entry holds, when the entry was made at the
/// modification time `mtime`; none for a missing or out-of-date entry.
pub fn fresh_parse(entry: Option<(tree_sitter::Tree, Vec<u8>, FileTime)>, mtime: FileTime) -> (r: Option<(tree_sitter::Tree, Vec<u8>)>)
    ensures
        match entry {
            Some(e) => if e.2 == mtime {
                r matches Some(p) && p.0 == e.0 && p.1@ == e.1@
            } else {
                r is None
            },
            None => r is None,
        },
{
    match entry {
        Some((tree, source, stored)) => {
            if stored == mtime {
                Some((tree, source))
            } else {
                None
            }
        },
        None => None,
    }
}

/// The compiled queries of every language.
struct QuerySets {
    rust: LangQueries,
    typescript: LangQueries,
    csharp: LangQueries,
}

impl QuerySets {
    /// The queries of one language.
    closed spec fn of(self, lang: Lang) -> LangQueries {
        match lang {
            Lang::Rust => self.rust,
            Lang::TypeScript => self.typescript,
            Lang::CSharp => self.csharp,
        }
    }

    /// The queries of each language are compiled from that language's texts
    /// for its grammar.
    #[verifier::type_invariant]
    closed spec fn match_grammars(self) -> bool {
        &&& queries_of_lang(self.rust, Lang::Rust)
        &&& queries_of_lang(self.typescript, Lang::TypeScript)
        &&& queries_of_lang(self.csharp, Lang::CSharp)
    }
}

/// Parsed files, reused while a file's modification time stays the same,
/// and the compiled queries of each language.
pub struct ParseCache {
    cache: dashmap::DashMap<String, CachedParse>,
    queries: QuerySets,
}

impl ParseCache {
    /// The queries that the cache holds for a language.
    pub closed spec fn queries_for(self, lang: Lang) -> LangQueries {
        self.queries.of(lang)
    }

    /// The parsed files the cache keeps: for each path, the tree, the source
    /// and the modification time the file had when it was parsed.
    pub closed spec fn entries(self) -> Map<Seq<char>, (tree_sitter::Tree, Seq<u8>, FileTime)> {
        stored_parses(self.cache)
    }

    /// An empty cache with the queries of every language compiled; the
    /// error of the first query that does not compile otherwise.
    pub fn new() -> (r: Result<ParseCache, tree_sitter::QueryError>)
        ensures
            r is Ok <==> {
                &&& rust_queries_compile(grammar_for(Lang::Rust))
                &&& typescript_queries_compile(grammar_for(Lang::TypeScript))
                &&& csharp_queries_compile(grammar_for(Lang::CSharp))
            },
            r matches Ok(c) ==> {
                &&& c.entries() == Map::<Seq<char>, (tree_sitter::Tree, Seq<u8>, FileTime)>::empty()
                &&& forall|lang: Lang| queries_of_lang(#[trigger] c.queries_for(lang), lang)
            },
    {
        let rust = match compile_all(grammar(Lang::Rust), RUST_SYMBOLS, RUST_FUNCTION_BODY, RUST_IMPL_METHODS) {
            Ok(q) => q,
            Err(e) => {
                return Err(e);
            },
        };
        let ts = match compile_all(grammar(Lang::TypeScript), TS_SYMBOLS, TS_FUNCTION_BODY, TS_CLASS_METHODS) {
            Ok(q) => q,
            Err(e) => {
                return Err(e);
            },
        };
        let csharp = match compile_all(grammar(Lang::CSharp), CSHARP_SYMBOLS, CSHARP_FUNCTION_BODY, CSHARP_CLASS_METHODS) {
            Ok(q) => q,
            Err(e) => {
                return Err(e);
            },
        };
        let c = ParseCache { cache: new_map(), queries: QuerySets { rust, typescript: ts, csharp } };
        assert forall|lang: Lang| queries_of_lang(#[trigger] c.queries_for(lang), lang) by {
            match lang {
                Lang::Rust => {},
                Lang::TypeScript => {},
                Lang::CSharp => {},
            }
        }
        Ok(c)
    }

    /// The queries of one language, compiled from its texts for its grammar.
    pub fn queries(&self, lang: Lang) -> (r: &LangQueries)
        ensures
            *r == self.queries_for(lang),
            queries_of_lang(*r, lang),
    {
        proof {
            use_type_invariant(&self.queries);
        }
        match lang {
            Lang::Rust => &self.queries.rust,
            Lang::TypeScript => &self.queries.typescript,
            Lang::CSharp => &self.queries.csharp,
        }
    }

    /// How many files the cache keeps.
    pub fn cached_files(&self) -> (r: usize)
        ensures
            r == self.entries().len(),
    {
        map_len(&self.cache)
    }

    /// The parse kept for `path`, if it was made when the file had the
    /// modification time `mtime`.
    pub fn cached(&self, path: &str, mtime: FileTime) -> (r: Option<(tree_sitter::Tree, Vec<u8>)>)
        ensures
            match lookup(self.entries(), path@, mtime) {
                Some(p) => r matches Some(q) && q.0 == p.0 && q.1@ == p.1,
                None => r is None,
            },
    {
        fresh_parse(map_get(&self.cache, path), mtime)
    }

    /// Parses `source`, the contents of the file at `path` as of `mtime`,
    /// with the grammar its extension selects, and keeps the result under
    /// `path` for later calls; on failure the cache is left as it was.
    pub fn parse_source(&mut self, path: &str, mtime: FileTime, source: Vec<u8>) -> (r: Result<(tree_sitter::Tree, Vec<u8>), ToolError>)
        ensures
            match lang_of_path(path@) {
                None => r == Err::<(tree_sitter::Tree, Vec<u8>), ToolError>(ToolError::UnsupportedFileType),
                Some(lang) => if grammar_accepted(lang) {
                    &&& r matches Ok(p) && p.0 == tree_for(lang, source@) && p.1@ == source@
                    &&& final(self).entries() == old(self).entries().insert(path@, (tree_for(lang, source@), source@, mtime))
                } else {
                    r == Err::<(tree_sitter::Tree, Vec<u8>), ToolError>(ToolError::LanguageRejected)
                },
            },
            r is Err ==> final(self).entries() == old(self).entries(),
            forall|lang: Lang| #[trigger] final(self).queries_for(lang) == old(self).queries_for(lang),
    {
        let lang = match Lang::from_path(path) {
            Some(l) => l,
            None => {
                return Err(ToolError::UnsupportedFileType);
            },
        };
        let mut parser = new_parser();
        let language = load_language(grammar(lang));
        match set_parser_language(&mut parser, &language) {
            Ok(()) => {},
            Err(_) => {
                return Err(ToolError::LanguageRejected);
            },
        }
        let tree = match parse_bytes(&mut parser, source.as_slice()) {
            Some(t) => t,
            None => {
                return Err(ToolError::ParseFailed);
            },
        };
        let result = (clone_tree(&tree), source.clone());
        map_insert(&mut self.cache, path.to_owned(), CachedParse { tree, source, mtime });
        Ok(result)
    }
}

/// What the cache gives back for a path is what was last kept there: right
/// after a parse of `path` at `mtime` is kept, a lookup of `path` at that
/// time finds it, a lookup at any other time finds nothing, and lookups of
/// every other path find what they found before.
pub proof fn lemma_lookup_after_keep(
    entries: Map<Seq<char>, (tree_sitter::Tree, Seq<u8>, FileTime)>,
    path: Seq<char>,
    tree: tree_sitter::Tree,
    source: Seq<u8>,
    mtime: FileTime,
    other: Seq<char>,
    at: FileTime,
)
    ensures
        lookup(entries.insert(path, (tree, source, mtime)), path, mtime) == Some((tree, source)),
        at != mtime ==> lookup(entries.insert(path, (tree, source, mtime)), path, at) is None,
        other != path ==> lookup(entries.insert(path, (tree, source, mtime)), other, at) == lookup(entries, other, at),
{
}

} // verus!
