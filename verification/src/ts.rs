use vstd::prelude::*;

use crate::capture::{CaptureData, CaptureView, MatchData};
use crate::lang::Lang;

use tree_sitter::StreamingIterator;

verus! {

/// Makes `tree_sitter::Tree`, a parsed syntax tree, known to Verus as an
/// opaque type.
#[verifier::external_type_specification]
#[verifier::external_body]
pub struct ExTree(tree_sitter::Tree);

/// Makes `tree_sitter::Query`, a compiled query, known to Verus as an opaque
/// type.
#[verifier::external_type_specification]
#[verifier::external_body]
pub struct ExQuery(tree_sitter::Query);

/// Makes `tree_sitter::QueryCursor` known to Verus as an opaque type.
#[verifier::external_type_specification]
#[verifier::external_body]
pub struct ExQueryCursor(tree_sitter::QueryCursor);

/// Makes `tree_sitter::QueryError` known to Verus as an opaque type.
#[verifier::external_type_specification]
#[verifier::external_body]
pub struct ExQueryError(tree_sitter::QueryError);

/// Makes `tree_sitter::Language`, a loaded grammar, known to Verus as an
/// opaque type.
#[verifier::external_type_specification]
#[verifier::external_body]
pub struct ExLanguage(tree_sitter::Language);

/// Makes `tree_sitter::LanguageError` known to Verus as an opaque type.
#[verifier::external_type_specification]
#[verifier::external_body]
pub struct ExLanguageError(tree_sitter::LanguageError);

/// Makes `tree_sitter::Parser` known to Verus as an opaque type.
#[verifier::external_type_specification]
#[verifier::external_body]
pub struct ExParser(tree_sitter::Parser);

/// Makes `tree_sitter_language::LanguageFn`, a grammar's entry point, known to
/// Verus as an opaque type.
#[verifier::external_type_specification]
#[verifier::external_body]
pub struct ExLanguageFn(tree_sitter_language::LanguageFn);

/// Name for the grammar that the tree-sitter crate of a language exports.
pub uninterp spec fn grammar_for(lang: Lang) -> tree_sitter_language::LanguageFn;

/// Name for the language that `tree_sitter::Language::from` loads from a
/// grammar.
pub uninterp spec fn language_of(grammar: tree_sitter_language::LanguageFn) -> tree_sitter::Language;

/// Name for whether `tree_sitter::Parser::set_language` takes a language:
/// its ABI version lies in the range the library supports and it can be
/// used for parsing.
pub uninterp spec fn accepts_language(language: tree_sitter::Language) -> bool;

/// Name for the language a parser has been given, if any.
pub uninterp spec fn parser_language(parser: tree_sitter::Parser) -> Option<tree_sitter::Language>;

/// Name for the syntax tree that tree-sitter builds from `source` with a
/// language.
pub uninterp spec fn parsed_tree(language: tree_sitter::Language, source: Seq<u8>) -> tree_sitter::Tree;

/// Name for what `tree_sitter::Query::new` gives for a language and a query
/// text: the query compiled for that language, or the error that says where
/// the text is wrong.
pub uninterp spec fn compiled_query(language: tree_sitter::Language, text: Seq<char>) -> Result<tree_sitter::Query, tree_sitter::QueryError>;

/// Name for the matches that a query finds in a tree, in the order tree-sitter
/// yields them, when its predicates read `source`.
pub uninterp spec fn query_matches(query: tree_sitter::Query, tree: tree_sitter::Tree, source: Seq<u8>) -> Seq<Seq<CaptureView>>;

/// Name for a query cursor with no byte or point range and no match limit
/// set, as `tree_sitter::QueryCursor::new` makes it.
pub uninterp spec fn cursor_is_fresh(cursor: tree_sitter::QueryCursor) -> bool;

/// The tree that tree-sitter builds from `source` with the grammar of
/// `lang`.
pub open spec fn tree_for(lang: Lang, source: Seq<u8>) -> tree_sitter::Tree {
    parsed_tree(language_of(grammar_for(lang)), source)
}

/// The parser takes the grammar of `lang`.
pub open spec fn grammar_accepted(lang: Lang) -> bool {
    accepts_language(language_of(grammar_for(lang)))
}

/// Returns `tree_sitter_rust::LANGUAGE`, the Rust grammar. Claimed: it is
/// the grammar named for Rust.
#[verifier::external_body]
pub(crate) fn rust_grammar() -> (r: tree_sitter_language::LanguageFn)
    ensures
        r == grammar_for(Lang::Rust),
{
    tree_sitter_rust::LANGUAGE
}

/// Returns `tree_sitter_typescript::LANGUAGE_TYPESCRIPT`, the TypeScript
/// grammar. Claimed: it is the grammar named for TypeScript.
#[verifier::external_body]
pub(crate) fn typescript_grammar() -> (r: tree_sitter_language::LanguageFn)
    ensures
        r == grammar_for(Lang::TypeScript),
{
    tree_sitter_typescript::LANGUAGE_TYPESCRIPT
}

/// Returns `tree_sitter_c_sharp::LANGUAGE`, the C# grammar. Claimed: it is
/// the grammar named for C#.
#[verifier::external_body]
pub(crate) fn csharp_grammar() -> (r: tree_sitter_language::LanguageFn)
    ensures
        r == grammar_for(Lang::CSharp),
{
    tree_sitter_c_sharp::LANGUAGE
}

/// The grammar that the tree-sitter crate of `lang` exports.
pub fn grammar(lang: Lang) -> (r: tree_sitter_language::LanguageFn)
    ensures
        r == grammar_for(lang),
{
    match lang {
        Lang::Rust => rust_grammar(),
        Lang::TypeScript => typescript_grammar(),
        Lang::CSharp => csharp_grammar(),
    }
}

/// Loads a grammar with `tree_sitter::Language::from`. Claimed: the result
/// is the language named for that grammar.
#[verifier::external_body]
pub(crate) fn load_language(grammar: tree_sitter_language::LanguageFn) -> (r: tree_sitter::Language)
    ensures
        r == language_of(grammar),
{
    tree_sitter::Language::from(grammar)
}

/// Name for the capture names that a compiled query holds, in the order of
/// their indices (what `tree_sitter::Query::capture_names` lists).
pub uninterp spec fn query_capture_names(query: tree_sitter::Query) -> Seq<Seq<char>>;

/// Name for the capture names that tree-sitter reads from a query's text:
/// each `@name` of the text, in the order of its first appearance.
pub uninterp spec fn text_capture_names(text: Seq<char>) -> Seq<Seq<char>>;

/// The position of the first entry of `names` equal to `name`.
pub open spec fn first_position(names: Seq<Seq<char>>, name: Seq<char>) -> Option<int>
    decreases names.len(),
{
    if names.len() == 0 {
        None
    } else if names[0] == name {
        Some(0)
    } else {
        match first_position(names.drop_first(), name) {
            Some(p) => Some(p + 1),
            None => None,
        }
    }
}

/// The index of the capture called `name` in `query`: its position among the
/// query's capture names, as a `u32`.
pub open spec fn capture_index_of(query: tree_sitter::Query, name: Seq<char>) -> Option<u32> {
    match first_position(query_capture_names(query), name) {
        Some(p) => Some(p as u32),
        None => None,
    }
}

/// Calls `tree_sitter::Query::new`, which compiles a query's text for a
/// language or reports where the text is wrong. Claimed: the result is the
/// one named for the language and the text, and a compiled query holds the
/// capture names of its text (tree-sitter collects them from the text alone,
/// as it reads the `@` captures).
#[verifier::external_body]
pub(crate) fn compile_query(language: &tree_sitter::Language, text: &str) -> (r: Result<tree_sitter::Query, tree_sitter::QueryError>)
    ensures
        r == compiled_query(*language, text@),
        r matches Ok(q) ==> query_capture_names(q) == text_capture_names(text@),
{
    tree_sitter::Query::new(language, text)
}

/// Calls `tree_sitter::Query::capture_index_for_name`. Claimed: the result
/// is the position of the first capture name equal to `name`, cast to `u32`,
/// or none when the query has no such capture.
#[verifier::external_body]
pub(crate) fn capture_index(query: &tree_sitter::Query, name: &str) -> (r: Option<u32>)
    ensures
        r == capture_index_of(*query, name@),
{
    query.capture_index_for_name(name)
}

/// Calls `tree_sitter::Parser::new`. Claimed: the new parser has no
/// language.
#[verifier::external_body]
pub(crate) fn new_parser() -> (r: tree_sitter::Parser)
    ensures
        parser_language(r) is None,
{
    tree_sitter::Parser::new()
}

/// Calls `tree_sitter::Parser::set_language`. Claimed: it succeeds exactly
/// when the parser takes the language, and then the parser has that
/// language; on failure the parser keeps the language it had.
#[verifier::external_body]
pub(crate) fn set_parser_language(parser: &mut tree_sitter::Parser, language: &tree_sitter::Language) -> (r: Result<(), tree_sitter::LanguageError>)
    ensures
        r is Ok <==> accepts_language(*language),
        r is Ok ==> parser_language(*final(parser)) == Some(*language),
        r is Err ==> parser_language(*final(parser)) == parser_language(*old(parser)),
{
    parser.set_language(language)
}

/// Calls `tree_sitter::Parser::parse` on the whole of `source`, with no
/// earlier tree, no time limit and no cancellation. Claimed: with a language
/// it yields the tree named for that language and source, and without one it
/// yields none; the parser keeps its language.
#[verifier::external_body]
pub(crate) fn parse_bytes(parser: &mut tree_sitter::Parser, source: &[u8]) -> (r: Option<tree_sitter::Tree>)
    ensures
        match parser_language(*old(parser)) {
            Some(language) => r == Some(parsed_tree(language, source@)),
            None => r is None,
        },
        parser_language(*final(parser)) == parser_language(*old(parser)),
{
    parser.parse(source, None)
}

/// Calls `tree_sitter::Tree::clone`. Claimed: the copy is the same tree.
#[verifier::external_body]
pub(crate) fn clone_tree(tree: &tree_sitter::Tree) -> (r: tree_sitter::Tree)
    ensures
        r == *tree,
{
    tree.clone()
}

/// A running query over one tree: the matches that tree-sitter hands out one
/// by one. Verus does not take the bounds of `tree_sitter::QueryMatches`,
/// so the stream is held in a field that it does not read.
#[verifier::external_body]
pub struct MatchStream<'a> {
    matches: tree_sitter::QueryMatches<'a, 'a, 'static, &'a [u8], &'a [u8]>,
}

/// The matches that a running query has not handed out yet.
pub uninterp spec fn pending_matches(m: MatchStream<'_>) -> Seq<Seq<CaptureView>>;

/// Calls `tree_sitter::QueryCursor::new`. Claimed: the cursor is fresh.
#[verifier::external_body]
pub(crate) fn new_query_cursor() -> (r: tree_sitter::QueryCursor)
    ensures
        cursor_is_fresh(r),
{
    tree_sitter::QueryCursor::new()
}

/// Calls `tree_sitter::QueryCursor::matches` on the root node of `tree`,
/// with `source` as the text that predicates read. Claimed: from a fresh
/// cursor, the stream holds the matches named for query, tree and source.
#[verifier::external_body]
pub(crate) fn start_matches<'a>(
    cursor: &'a mut tree_sitter::QueryCursor,
    query: &'a tree_sitter::Query,
    tree: &'a tree_sitter::Tree,
    source: &'a [u8],
) -> (r: MatchStream<'a>)
    requires
        cursor_is_fresh(*old(cursor)),
    ensures
        pending_matches(r) == query_matches(*query, *tree, source@),
{
    MatchStream { matches: cursor.matches(query, tree.root_node(), source) }
}

/// Calls `StreamingIterator::next` on the matches and copies the match it
/// yields into plain values. Claimed: it yields the first pending match and
/// leaves the others pending, or `None` when none is pending.
#[verifier::external_body]
pub(crate) fn next_match<'a>(matches: &mut MatchStream<'a>) -> (r: Option<MatchData>)
    ensures
        match r {
            Some(m) => {
                &&& pending_matches(*old(matches)).len() > 0
                &&& m@ == pending_matches(*old(matches))[0]
                &&& pending_matches(*final(matches)) == pending_matches(*old(matches)).drop_first()
            },
            None => {
                &&& pending_matches(*old(matches)).len() == 0
                &&& pending_matches(*final(matches)) == pending_matches(*old(matches))
            },
        },
{
    matches.matches.next().map(|m| MatchData {
        captures: m.captures().iter().map(|c| CaptureData {
            index: c.index,
            kind: c.node.kind().to_string(),
            start_byte: c.node.start_byte(),
            end_byte: c.node.end_byte(),
            start_row: c.node.start_position().row,
            end_row: c.node.end_position().row,
        }).collect(),
    })
}

/// Drains a running query: every match it has still to yield, in order.
pub(crate) fn collect_matches(stream: &mut MatchStream) -> (r: Vec<MatchData>)
    ensures
        r@.map_values(|m: MatchData| m@) == pending_matches(*old(stream)),
        pending_matches(*final(stream)).len() == 0,
{
    let ghost all = pending_matches(*stream);
    let mut out: Vec<MatchData> = Vec::new();
    loop
        invariant
            all == pending_matches(*old(stream)),
            all == out@.map_values(|m: MatchData| m@) + pending_matches(*stream),
        ensures
            all == out@.map_values(|m: MatchData| m@),
            pending_matches(*stream).len() == 0,
        decreases pending_matches(*stream).len(),
    {
        match next_match(stream) {
            Some(m) => {
                proof {
                    assert(out@.push(m).map_values(|m: MatchData| m@) =~= out@.map_values(|m: MatchData| m@).push(m@));
                }
                out.push(m);
            },
            None => {
                assert(all =~= out@.map_values(|m: MatchData| m@));
                break;
            },
        }
    }
    out
}

} // verus!
