use vstd::prelude::*;

use crate::queries::queries_of_lang;

use crate::capture::{CaptureView, MatchData};
use crate::error::ToolError;
use crate::lang::Lang;
use crate::parser::ParseCache;
use crate::text::{str_eq, text_of_range, trim_end, trim_end_spec, utf8_or_empty};
use crate::tools::fields::{capture_text_of, check_texts_fit, last_pos, pick_slots, slot_text, slots, texts_fit};
use crate::tools::list_symbols::{match_views, name_and_def_indices};
use crate::ts::{capture_index, capture_index_of, collect_matches, new_query_cursor, query_matches, start_matches};

verus! {

/// The name a match of a definitions query carries: the text of its last
/// `name` capture, or nothing.
pub open spec fn match_name(m: Seq<CaptureView>, source: Seq<u8>, name_idx: u32) -> Seq<char> {
    slot_text(m, source, last_pos(m, name_idx))
}

/// The byte range of a match's signature: from the start of its `def`
/// capture to the start of its `body` capture, or to the end of the `def`
/// capture when it has no body (0 for a missing capture).
pub open spec fn signature_range(m: Seq<CaptureView>, name_idx: u32, def_idx: u32, body_idx: Option<u32>) -> (int, int) {
    let s = slots(m, name_idx, def_idx, body_idx);
    let def_start: int = match s.1 {
        Some(d) => m[d].start_byte as int,
        None => 0,
    };
    let def_end: int = match s.1 {
        Some(d) => m[d].end_byte as int,
        None => 0,
    };
    let sig_end: int = match s.2 {
        Some(b) => m[b].start_byte as int,
        None => def_end,
    };
    (def_start, sig_end)
}

/// Match `i` is the first that carries the name `symbol`.
pub open spec fn first_named(ms: Seq<Seq<CaptureView>>, source: Seq<u8>, name_idx: u32, symbol: Seq<char>, i: int) -> bool {
    &&& 0 <= i < ms.len()
    &&& match_name(ms[i], source, name_idx) == symbol
    &&& forall|k: int| 0 <= k < i ==> match_name(#[trigger] ms[k], source, name_idx) != symbol
}

/// The signature of `symbol`: the text of the signature range of the first
/// match that carries the name, without trailing white space; none when no
/// match carries it.
pub open spec fn signature_spec(
    ms: Seq<Seq<CaptureView>>,
    source: Seq<u8>,
    name_idx: u32,
    def_idx: u32,
    body_idx: Option<u32>,
    symbol: Seq<char>,
) -> Option<Seq<char>> {
    if exists|i: int| first_named(ms, source, name_idx, symbol, i) {
        let i = choose|i: int| first_named(ms, source, name_idx, symbol, i);
        let r = signature_range(ms[i], name_idx, def_idx, body_idx);
        Some(trim_end_spec(utf8_or_empty(source.subrange(r.0, r.1))))
    } else {
        None
    }
}

/// Every capture the search reads lies within the source: the name captures
/// of the matches up to the first that carries `symbol`, and the signature
/// range of that match.
pub open spec fn signature_fits(
    ms: Seq<Seq<CaptureView>>,
    source: Seq<u8>,
    name_idx: u32,
    def_idx: u32,
    body_idx: Option<u32>,
    symbol: Seq<char>,
) -> bool {
    forall|i: int|
        0 <= i < ms.len() && (forall|k: int| 0 <= k < i ==> match_name(#[trigger] ms[k], source, name_idx) != symbol) ==> {
            &&& texts_fit(#[trigger] ms[i], name_idx, source.len())
            &&& (match_name(ms[i], source, name_idx) == symbol ==> {
                let r = signature_range(ms[i], name_idx, def_idx, body_idx);
                0 <= r.0 <= r.1 <= source.len()
            })
        }
}

proof fn lemma_first_named_unique(ms: Seq<Seq<CaptureView>>, source: Seq<u8>, name_idx: u32, symbol: Seq<char>, i: int, j: int)
    requires
        first_named(ms, source, name_idx, symbol, i),
        first_named(ms, source, name_idx, symbol, j),
    ensures
        i == j,
{
    if i < j {
        assert(match_name(ms[i], source, name_idx) != symbol);
    } else if j < i {
        assert(match_name(ms[j], source, name_idx) != symbol);
    }
}

/// The signature of the definition named `symbol`, from the matches of a
/// definitions query: the source text from the start of the first such
/// definition to the start of its body (or to its end when it has none),
/// with trailing white space removed. Fails with `NodeOutOfRange` when a
/// capture that the search reads does not lie within the source.
pub fn signature_from_matches(
    matches: &Vec<MatchData>,
    source: &[u8],
    name_idx: u32,
    def_idx: u32,
    body_idx: Option<u32>,
    symbol: &str,
) -> (r: Result<Option<String>, ToolError>)
    ensures
        match r {
            Ok(found) => {
                &&& signature_fits(match_views(matches@), source@, name_idx, def_idx, body_idx, symbol@)
                &&& match signature_spec(match_views(matches@), source@, name_idx, def_idx, body_idx, symbol@) {
                    Some(s) => found matches Some(t) && t@ == s,
                    None => found is None,
                }
            },
            Err(e) => {
                &&& e == ToolError::NodeOutOfRange
                &&& !signature_fits(match_views(matches@), source@, name_idx, def_idx, body_idx, symbol@)
            },
        },
{
    let ghost views = match_views(matches@);
    let mut i: usize = 0;
    while i < matches.len()
        invariant
            i <= matches@.len(),
            views == match_views(matches@),
            forall|k: int| 0 <= k < i ==> match_name(#[trigger] views[k], source@, name_idx) != symbol@,
            forall|k: int| 0 <= k < i ==> texts_fit(#[trigger] views[k], name_idx, source@.len()),
        decreases matches@.len() - i,
    {
        let m = &matches[i];
        proof {
            assert(views[i as int] == m@);
        }
        if !check_texts_fit(m, name_idx, source.len()) {
            proof {
                assert(forall|k: int| 0 <= k < i ==> match_name(#[trigger] views[k], source@, name_idx) != symbol@);
                assert(!texts_fit(views[i as int], name_idx, source@.len()));
            }
            return Err(ToolError::NodeOutOfRange);
        }
        let (pn, pd, pb) = pick_slots(m, name_idx, def_idx, body_idx);
        let name = match pn {
            Some(p) => capture_text_of(source, &m.captures[p]),
            None => String::new(),
        };
        if str_eq(name.as_str(), symbol) {
            let (def_start, def_end) = match pd {
                Some(p) => (m.captures[p].start_byte, m.captures[p].end_byte),
                None => (0, 0),
            };
            let sig_end = match pb {
                Some(p) => m.captures[p].start_byte,
                None => def_end,
            };
            if !(def_start <= sig_end && sig_end <= source.len()) {
                proof {
                    assert(forall|k: int| 0 <= k < i ==> match_name(#[trigger] views[k], source@, name_idx) != symbol@);
                    assert(match_name(views[i as int], source@, name_idx) == symbol@);
                }
                return Err(ToolError::NodeOutOfRange);
            }
            let text = text_of_range(source, def_start, sig_end);
            let sig = trim_end(text.as_str()).to_owned();
            proof {
                assert(first_named(views, source@, name_idx, symbol@, i as int));
                let j = choose|j: int| first_named(views, source@, name_idx, symbol@, j);
                lemma_first_named_unique(views, source@, name_idx, symbol@, i as int, j);
                assert forall|k: int|
                    0 <= k < views.len() && (forall|l: int| 0 <= l < k ==> match_name(#[trigger] views[l], source@, name_idx) != symbol@) implies {
                        &&& texts_fit(#[trigger] views[k], name_idx, source@.len())
                        &&& (match_name(views[k], source@, name_idx) == symbol@ ==> {
                            let r = signature_range(views[k], name_idx, def_idx, body_idx);
                            0 <= r.0 <= r.1 <= source@.len()
                        })
                    } by {
                    if k > i {
                        assert(match_name(views[i as int], source@, name_idx) == symbol@);
                    }
                }
            }
            return Ok(Some(sig));
        }
        i = i + 1;
    }
    proof {
        assert forall|j: int| !first_named(views, source@, name_idx, symbol@, j) by {
            if 0 <= j < views.len() {
                assert(match_name(views[j], source@, name_idx) != symbol@);
            }
        }
    }
    Ok(None)
}

/// `found` is the signature that `spec` describes, or none when it
/// describes none.
pub open spec fn finds_signature(found: Option<String>, spec: Option<Seq<char>>) -> bool {
    match spec {
        Some(s) => found matches Some(t) && t@ == s,
        None => found is None,
    }
}

/// What looking `symbol` up gives for a definitions query, a tree and its
/// source: the text of the first definition that carries the name, from its
/// start to the start of its body when `with_body` is false and `body` is a
/// capture of the query, else to its end, without trailing white space (none
/// when nothing carries the name); or the error that says that the query
/// lacks `@name` or `@def`, or that a capture read lies outside the source.
pub open spec fn lookup_spec(query: tree_sitter::Query, tree: tree_sitter::Tree, source: Seq<u8>, symbol: Seq<char>, with_body: bool) -> Result<Option<Seq<char>>, ToolError> {
    match (capture_index_of(query, "name"@), capture_index_of(query, "def"@)) {
        (Some(n), Some(d)) => {
            let ms = query_matches(query, tree, source);
            let b = if with_body { None } else { capture_index_of(query, "body"@) };
            if signature_fits(ms, source, n, d, b, symbol) {
                Ok(signature_spec(ms, source, n, d, b, symbol))
            } else {
                Err(ToolError::NodeOutOfRange)
            }
        },
        (None, _) => Err(ToolError::MissingNameCapture),
        (Some(_), None) => Err(ToolError::MissingDefCapture),
    }
}

/// `r` is the answer that `spec` describes.
pub open spec fn answers(r: Result<Option<String>, ToolError>, spec: Result<Option<Seq<char>>, ToolError>) -> bool {
    match spec {
        Ok(found) => r matches Ok(f) && finds_signature(f, found),
        Err(e) => r == Err::<Option<String>, ToolError>(e),
    }
}

/// The signature of the definition named `symbol_name` in `tree`, the tree
/// parsed from `source`, as the definitions query of `lang` finds it: the
/// text from the start of the first such definition to the start of its
/// body, without trailing white space; none when nothing carries the name.
pub fn get_signature(
    cache: &ParseCache,
    lang: Lang,
    tree: &tree_sitter::Tree,
    source: &[u8],
    symbol_name: &str,
) -> (r: Result<Option<String>, ToolError>)
    ensures
        queries_of_lang(cache.queries_for(lang), lang),
        answers(r, lookup_spec(cache.queries_for(lang).function_body, *tree, source@, symbol_name@, false)),
{
    let queries = cache.queries(lang);
    let (name_idx, def_idx) = match name_and_def_indices(&queries.function_body) {
        Ok(ix) => ix,
        Err(e) => {
            return Err(e);
        },
    };
    let body_idx = capture_index(&queries.function_body, "body");
    let mut cursor = new_query_cursor();
    let mut stream = start_matches(&mut cursor, &queries.function_body, tree, source);
    let matches = collect_matches(&mut stream);
    let res = signature_from_matches(&matches, source, name_idx, def_idx, body_idx, symbol_name);
    proof {
        if res is Ok {
            assert(finds_signature(res->Ok_0, signature_spec(match_views(matches@), source@, name_idx, def_idx, body_idx, symbol_name@)));
        }
    }
    res
}

/// The source of the definition named `symbol_name` in `tree`, the tree
/// parsed from `source`, as the definitions query of `lang` finds it: the
/// text of the first such definition, start to end, without trailing white
/// space; none when nothing carries the name.
pub fn get_definition(
    cache: &ParseCache,
    lang: Lang,
    tree: &tree_sitter::Tree,
    source: &[u8],
    symbol_name: &str,
) -> (r: Result<Option<String>, ToolError>)
    ensures
        queries_of_lang(cache.queries_for(lang), lang),
        answers(r, lookup_spec(cache.queries_for(lang).function_body, *tree, source@, symbol_name@, true)),
{
    let queries = cache.queries(lang);
    let (name_idx, def_idx) = match name_and_def_indices(&queries.function_body) {
        Ok(ix) => ix,
        Err(e) => {
            return Err(e);
        },
    };
    let mut cursor = new_query_cursor();
    let mut stream = start_matches(&mut cursor, &queries.function_body, tree, source);
    let matches = collect_matches(&mut stream);
    let res = signature_from_matches(&matches, source, name_idx, def_idx, None, symbol_name);
    proof {
        if res is Ok {
            assert(finds_signature(res->Ok_0, signature_spec(match_views(matches@), source@, name_idx, def_idx, None, symbol_name@)));
        }
    }
    res
}

} // verus!
