use vstd::prelude::*;

use crate::queries::queries_of_lang;

use crate::capture::{CaptureView, MatchData};
use crate::error::ToolError;
use crate::lang::Lang;
use crate::parser::ParseCache;
use crate::tools::fields::{capture_text_of, check_rows_fit, check_texts_fit, pick_slots, rows_fit, slot_text, slots, texts_fit};
use crate::ts::{capture_index, capture_index_of, collect_matches, new_query_cursor, query_matches, start_matches};
use crate::types::{SymbolInfo, SymbolView};

verus! {

/// The values of a list of matches.
pub open spec fn match_views(ms: Seq<MatchData>) -> Seq<Seq<CaptureView>> {
    ms.map_values(|m: MatchData| m@)
}

/// The symbol one match of a symbols query names: the text of its `name`
/// capture with the kind and one-based lines of its `def` capture. A match
/// whose name is empty names no symbol.
pub open spec fn symbol_of(m: Seq<CaptureView>, source: Seq<u8>, name_idx: u32, def_idx: u32) -> Option<SymbolView> {
    let s = slots(m, name_idx, def_idx, None);
    let name = slot_text(m, source, s.0);
    if name.len() == 0 {
        None
    } else {
        Some(
            match s.1 {
                Some(d) => SymbolView {
                    name,
                    kind: m[d].kind,
                    line: m[d].start_row + 1,
                    end_line: m[d].end_row + 1,
                },
                None => SymbolView { name, kind: Seq::empty(), line: 0, end_line: 0 },
            },
        )
    }
}

/// The symbols that a sequence of matches names, in match order.
pub open spec fn symbols_spec(ms: Seq<Seq<CaptureView>>, source: Seq<u8>, name_idx: u32, def_idx: u32) -> Seq<SymbolView>
    decreases ms.len(),
{
    if ms.len() == 0 {
        Seq::empty()
    } else {
        let prev = symbols_spec(ms.drop_last(), source, name_idx, def_idx);
        match symbol_of(ms.last(), source, name_idx, def_idx) {
            Some(sym) => prev.push(sym),
            None => prev,
        }
    }
}

/// Every capture that the symbol extraction reads lies within the source
/// and has rows that a one-based count can hold.
pub open spec fn symbols_fit(ms: Seq<Seq<CaptureView>>, len: nat, name_idx: u32, def_idx: u32) -> bool {
    forall|i: int| 0 <= i < ms.len() ==> {
        &&& texts_fit(#[trigger] ms[i], name_idx, len)
        &&& (def_idx != name_idx ==> rows_fit(ms[i], def_idx))
    }
}

/// `syms` holds the symbols `vs`, one for one.
pub open spec fn lists_symbols(syms: Seq<SymbolInfo>, vs: Seq<SymbolView>) -> bool {
    &&& syms.len() == vs.len()
    &&& forall|i: int| 0 <= i < syms.len() ==> #[trigger] syms[i]@ == vs[i]
}

/// The symbol that one match names, if any.
fn symbol_from_match(m: &MatchData, source: &[u8], name_idx: u32, def_idx: u32) -> (r: Option<SymbolInfo>)
    requires
        texts_fit(m@, name_idx, source@.len()),
        def_idx != name_idx ==> rows_fit(m@, def_idx),
    ensures
        match symbol_of(m@, source@, name_idx, def_idx) {
            Some(v) => r matches Some(s) && s@ == v,
            None => r is None,
        },
{
    let (pn, pd, _) = pick_slots(m, name_idx, def_idx, None);
    let name = match pn {
        Some(p) => capture_text_of(source, &m.captures[p]),
        None => String::new(),
    };
    if name.as_str().is_empty() {
        return None;
    }
    match pd {
        Some(p) => {
            let c = &m.captures[p];
            Some(SymbolInfo { name, kind: c.kind.clone(), line: c.start_row + 1, end_line: c.end_row + 1 })
        },
        None => Some(SymbolInfo { name, kind: String::new(), line: 0, end_line: 0 }),
    }
}

/// The symbols named by the matches of a symbols query, in match order: for
/// each match with a non-empty `name` capture, its name with the kind and
/// lines of its `def` capture.
pub fn symbols_from_matches(matches: &Vec<MatchData>, source: &[u8], name_idx: u32, def_idx: u32) -> (r: Vec<SymbolInfo>)
    requires
        symbols_fit(match_views(matches@), source@.len(), name_idx, def_idx),
    ensures
        lists_symbols(r@, symbols_spec(match_views(matches@), source@, name_idx, def_idx)),
{
    let ghost views = match_views(matches@);
    let mut out: Vec<SymbolInfo> = Vec::new();
    let mut i: usize = 0;
    while i < matches.len()
        invariant
            i <= matches@.len(),
            views == match_views(matches@),
            symbols_fit(views, source@.len(), name_idx, def_idx),
            out@.len() == symbols_spec(views.take(i as int), source@, name_idx, def_idx).len(),
            forall|k: int| 0 <= k < out@.len() ==> #[trigger] out@[k]@ == symbols_spec(views.take(i as int), source@, name_idx, def_idx)[k],
        decreases matches@.len() - i,
    {
        proof {
            assert(views[i as int] == matches@[i as int]@);
            assert(views.take(i + 1).drop_last() =~= views.take(i as int));
            assert(views.take(i + 1).last() == views[i as int]);
        }
        let found = symbol_from_match(&matches[i], source, name_idx, def_idx);
        match found {
            Some(s) => { out.push(s); },
            None => {},
        }
        i = i + 1;
    }
    proof {
        assert(views.take(matches@.len() as int) =~= views);
    }
    out
}

/// Whether every capture that the symbol extraction reads lies within a
/// source of `len` bytes and has rows that a one-based count can hold.
pub fn check_symbols_fit(matches: &Vec<MatchData>, len: usize, name_idx: u32, def_idx: u32) -> (r: bool)
    ensures
        r == symbols_fit(match_views(matches@), len as nat, name_idx, def_idx),
{
    let ghost views = match_views(matches@);
    let mut i: usize = 0;
    while i < matches.len()
        invariant
            i <= matches@.len(),
            views == match_views(matches@),
            forall|k: int| 0 <= k < i ==> {
                &&& texts_fit(#[trigger] views[k], name_idx, len as nat)
                &&& (def_idx != name_idx ==> rows_fit(views[k], def_idx))
            },
        decreases matches@.len() - i,
    {
        let m = &matches[i];
        proof {
            assert(views[i as int] == m@);
        }
        if !check_texts_fit(m, name_idx, len) {
            return false;
        }
        if def_idx != name_idx && !check_rows_fit(m, def_idx) {
            return false;
        }
        i = i + 1;
    }
    true
}

/// The capture indices of `@name` and `@def` in a query.
pub fn name_and_def_indices(query: &tree_sitter::Query) -> (r: Result<(u32, u32), ToolError>)
    ensures
        r == match (capture_index_of(*query, "name"@), capture_index_of(*query, "def"@)) {
            (Some(n), Some(d)) => Ok((n, d)),
            (None, _) => Err(ToolError::MissingNameCapture),
            (Some(_), None) => Err(ToolError::MissingDefCapture),
        },
{
    let name_idx = match capture_index(query, "name") {
        Some(i) => i,
        None => {
            return Err(ToolError::MissingNameCapture);
        },
    };
    let def_idx = match capture_index(query, "def") {
        Some(i) => i,
        None => {
            return Err(ToolError::MissingDefCapture);
        },
    };
    Ok((name_idx, def_idx))
}

/// What listing the symbols gives for a symbols query, a tree and its
/// source: the symbols of the query's matches when the query has `@name`
/// and `@def` captures and every capture read lies within the source, and
/// otherwise the error that says which of these fails.
pub open spec fn list_symbols_spec(query: tree_sitter::Query, tree: tree_sitter::Tree, source: Seq<u8>) -> Result<Seq<SymbolView>, ToolError> {
    match (capture_index_of(query, "name"@), capture_index_of(query, "def"@)) {
        (Some(n), Some(d)) => {
            let ms = query_matches(query, tree, source);
            if symbols_fit(ms, source.len(), n, d) {
                Ok(symbols_spec(ms, source, n, d))
            } else {
                Err(ToolError::NodeOutOfRange)
            }
        },
        (None, _) => Err(ToolError::MissingNameCapture),
        (Some(_), None) => Err(ToolError::MissingDefCapture),
    }
}

/// Lists the symbols that the symbols query of `lang` finds in `tree`, the
/// tree parsed from `source`: for each match with a non-empty name, in match
/// order, the name with the kind and one-based start and end lines of its
/// definition.
pub fn list_symbols(cache: &ParseCache, lang: Lang, tree: &tree_sitter::Tree, source: &[u8]) -> (r: Result<Vec<SymbolInfo>, ToolError>)
    ensures
        queries_of_lang(cache.queries_for(lang), lang),
        match list_symbols_spec(cache.queries_for(lang).symbols, *tree, source@) {
            Ok(v) => r matches Ok(syms) && lists_symbols(syms@, v),
            Err(e) => r == Err::<Vec<SymbolInfo>, ToolError>(e),
        },
        r matches Ok(syms) ==> forall|i: int| 0 <= i < syms@.len() ==> (#[trigger] syms@[i]).name@.len() > 0,
{
    let queries = cache.queries(lang);
    let (name_idx, def_idx) = match name_and_def_indices(&queries.symbols) {
        Ok(ix) => ix,
        Err(e) => {
            return Err(e);
        },
    };
    let mut cursor = new_query_cursor();
    let mut stream = start_matches(&mut cursor, &queries.symbols, tree, source);
    let matches = collect_matches(&mut stream);
    if !check_symbols_fit(&matches, source.len(), name_idx, def_idx) {
        return Err(ToolError::NodeOutOfRange);
    }
    let syms = symbols_from_matches(&matches, source, name_idx, def_idx);
    proof {
        crate::tools::laws::lemma_symbols_named(match_views(matches@), source@, name_idx, def_idx);
    }
    let res: Result<Vec<SymbolInfo>, ToolError> = Ok(syms);
    assert(lists_symbols(res->Ok_0@, symbols_spec(match_views(matches@), source@, name_idx, def_idx)));
    assert forall|i: int| 0 <= i < res->Ok_0@.len() implies (#[trigger] res->Ok_0@[i]).name@.len() > 0 by {
        assert(res->Ok_0@[i]@ == symbols_spec(match_views(matches@), source@, name_idx, def_idx)[i]);
    }
    res
}

} // verus!
