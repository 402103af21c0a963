//! Properties that hold of every answer the tools give.

use vstd::prelude::*;

use vstd::utf8::{decode_utf8, decode_utf8_split, is_char_boundary, valid_utf8, valid_utf8_split};

use crate::capture::CaptureView;
use crate::text::{is_white_space, trim_end_spec, utf8_or_empty};
use crate::tools::fields::{last_pos, slot_text, slots};
use crate::error::ToolError;
use crate::lang::Lang;
use crate::queries::LangQueries;
use crate::tools::get_file_structure::{
    container_around, def_range, enclosed, entry_of, holds_members, has_between, holds_methods, listed, member_of, members_tree, method_indices_of, method_of, strictly_within, methods_fit, methods_list, nested, outline_result,
    outline_spec,
};
use crate::ts::{capture_index_of, query_matches};
use crate::tools::get_signature::{first_named, match_name, signature_range, signature_spec};
use crate::tools::list_symbols::{list_symbols_spec, symbol_of, symbols_spec};
use crate::types::{ItemView, SymbolView};

verus! {

/// Some symbol among `syms` has this name, kind and line.
pub open spec fn has_symbol(syms: Seq<SymbolView>, name: Seq<char>, kind: Seq<char>, line: int) -> bool {
    exists|k: int| 0 <= k < syms.len() && #[trigger] syms[k].name == name && syms[k].kind == kind && syms[k].line == line
}

/// Every symbol that `list_symbols` reports has a non-empty name.
pub proof fn lemma_symbols_named(ms: Seq<Seq<CaptureView>>, source: Seq<u8>, name_idx: u32, def_idx: u32)
    ensures
        forall|i: int| 0 <= i < symbols_spec(ms, source, name_idx, def_idx).len()
            ==> (#[trigger] symbols_spec(ms, source, name_idx, def_idx)[i]).name.len() > 0,
    decreases ms.len(),
{
    if ms.len() > 0 {
        lemma_symbols_named(ms.drop_last(), source, name_idx, def_idx);
        let prev = symbols_spec(ms.drop_last(), source, name_idx, def_idx);
        let all = symbols_spec(ms, source, name_idx, def_idx);
        assert forall|i: int| 0 <= i < all.len() implies (#[trigger] all[i]).name.len() > 0 by {
            if i < prev.len() {
                assert(all[i] == prev[i]);
            }
        }
    }
}

/// A symbol's definition ends on or after the line it starts on, whenever
/// each captured node ends on or after the row it starts on.
pub proof fn lemma_symbol_lines_ordered(ms: Seq<Seq<CaptureView>>, source: Seq<u8>, name_idx: u32, def_idx: u32)
    requires
        forall|i: int, j: int| 0 <= i < ms.len() && 0 <= j < ms[i].len() ==> (#[trigger] ms[i][j]).start_row <= ms[i][j].end_row,
    ensures
        forall|i: int| 0 <= i < symbols_spec(ms, source, name_idx, def_idx).len()
            ==> (#[trigger] symbols_spec(ms, source, name_idx, def_idx)[i]).line <= symbols_spec(ms, source, name_idx, def_idx)[i].end_line,
    decreases ms.len(),
{
    if ms.len() > 0 {
        let prefix = ms.drop_last();
        assert forall|i: int, j: int| 0 <= i < prefix.len() && 0 <= j < prefix[i].len() implies (#[trigger] prefix[i][j]).start_row <= prefix[i][j].end_row by {
            assert(prefix[i] == ms[i]);
        }
        lemma_symbol_lines_ordered(prefix, source, name_idx, def_idx);
        let m = ms.last();
        let s = slots(m, name_idx, def_idx, None);
        crate::tools::fields::lemma_slots_in_bounds(m, name_idx, def_idx, None);
        if let Some(d) = s.1 {
            assert(ms[ms.len() - 1][d].start_row <= ms[ms.len() - 1][d].end_row);
        }
        let prev = symbols_spec(prefix, source, name_idx, def_idx);
        let all = symbols_spec(ms, source, name_idx, def_idx);
        assert forall|i: int| 0 <= i < all.len() implies (#[trigger] all[i]).line <= all[i].end_line by {
            if i < prev.len() {
                assert(all[i] == prev[i]);
            }
        }
    }
}

/// No two entries of an outline share their name, kind and line.
pub proof fn lemma_outline_distinct(
    ms: Seq<Seq<CaptureView>>,
    source: Seq<u8>,
    name_idx: u32,
    def_idx: u32,
    method_ms: Seq<Seq<CaptureView>>,
    method_idx: Option<(u32, u32, u32)>,
    all: Seq<Seq<CaptureView>>,
)
    ensures
        ({
            let o = outline_spec(ms, source, name_idx, def_idx, method_ms, method_idx, all);
            forall|i: int, j: int| 0 <= i < j < o.len() ==> !(#[trigger] o[i].name == #[trigger] o[j].name && o[i].kind == o[j].kind && o[i].line == o[j].line)
        }),
    decreases ms.len(),
{
    if ms.len() > 0 {
        lemma_outline_distinct(ms.drop_last(), source, name_idx, def_idx, method_ms, method_idx, all);
        let prev = outline_spec(ms.drop_last(), source, name_idx, def_idx, method_ms, method_idx, all);
        let o = outline_spec(ms, source, name_idx, def_idx, method_ms, method_idx, all);
        if o.len() > prev.len() {
            let last = o.last();
            assert forall|i: int, j: int| 0 <= i < j < o.len() implies !(#[trigger] o[i].name == #[trigger] o[j].name && o[i].kind == o[j].kind && o[i].line == o[j].line) by {
                if j == o.len() - 1 {
                    if o[i].name == o[j].name && o[i].kind == o[j].kind && o[i].line == o[j].line {
                        assert(prev[i].name == last.name);
                        assert(listed(prev, last.name, last.kind, last.line));
                    }
                } else {
                    assert(o[i] == prev[i] && o[j] == prev[j]);
                }
            }
        }
    }
}

/// Every outline entry has a non-empty name.
pub proof fn lemma_outline_named(
    ms: Seq<Seq<CaptureView>>,
    source: Seq<u8>,
    name_idx: u32,
    def_idx: u32,
    method_ms: Seq<Seq<CaptureView>>,
    method_idx: Option<(u32, u32, u32)>,
    all: Seq<Seq<CaptureView>>,
)
    ensures
        forall|i: int| 0 <= i < outline_spec(ms, source, name_idx, def_idx, method_ms, method_idx, all).len()
            ==> (#[trigger] outline_spec(ms, source, name_idx, def_idx, method_ms, method_idx, all)[i]).name.len() > 0,
    decreases ms.len(),
{
    if ms.len() > 0 {
        lemma_outline_named(ms.drop_last(), source, name_idx, def_idx, method_ms, method_idx, all);
        let prev = outline_spec(ms.drop_last(), source, name_idx, def_idx, method_ms, method_idx, all);
        let o = outline_spec(ms, source, name_idx, def_idx, method_ms, method_idx, all);
        assert forall|i: int| 0 <= i < o.len() implies (#[trigger] o[i]).name.len() > 0 by {
            if i < prev.len() {
                assert(o[i] == prev[i]);
            }
        }
    }
}

/// Every outline entry is a listed symbol of the same matches, with its
/// name, kind and line.
pub proof fn lemma_outline_covers_symbols(
    ms: Seq<Seq<CaptureView>>,
    source: Seq<u8>,
    name_idx: u32,
    def_idx: u32,
    method_ms: Seq<Seq<CaptureView>>,
    method_idx: Option<(u32, u32, u32)>,
    all: Seq<Seq<CaptureView>>,
)
    ensures
        ({
            let o = outline_spec(ms, source, name_idx, def_idx, method_ms, method_idx, all);
            let syms = symbols_spec(ms, source, name_idx, def_idx);
            forall|i: int| 0 <= i < o.len() ==> has_symbol(syms, (#[trigger] o[i]).name, o[i].kind, o[i].line)
        }),
    decreases ms.len(),
{
    if ms.len() > 0 {
        let prefix = ms.drop_last();
        lemma_outline_covers_symbols(prefix, source, name_idx, def_idx, method_ms, method_idx, all);
        let prev = outline_spec(prefix, source, name_idx, def_idx, method_ms, method_idx, all);
        let psyms = symbols_spec(prefix, source, name_idx, def_idx);
        let o = outline_spec(ms, source, name_idx, def_idx, method_ms, method_idx, all);
        let syms = symbols_spec(ms, source, name_idx, def_idx);
        let m = ms.last();
        match entry_of(m, source, name_idx, def_idx) {
            Some(e) => {
                let s = symbol_of(m, source, name_idx, def_idx).unwrap();
                assert(syms == psyms.push(s));
                assert(s.name == e.0 && s.kind == e.1 && s.line == e.2);
                assert forall|i: int| 0 <= i < o.len() implies has_symbol(syms, (#[trigger] o[i]).name, o[i].kind, o[i].line) by {
                    if i < prev.len() {
                        assert(o[i] == prev[i]);
                        assert(has_symbol(psyms, prev[i].name, prev[i].kind, prev[i].line));
                        let k = choose|k: int| 0 <= k < psyms.len() && #[trigger] psyms[k].name == prev[i].name && psyms[k].kind == prev[i].kind && psyms[k].line == prev[i].line;
                        assert(syms[k] == psyms[k]);
                    } else {
                        assert(syms[psyms.len() as int] == s);
                    }
                }
            },
            None => {
                assert(symbol_of(m, source, name_idx, def_idx) is None);
            },
        }
    }
}

/// Every method that `get_methods` reports has a non-empty name and no
/// children of its own.
pub proof fn lemma_methods_named_leaves(ms: Seq<Seq<CaptureView>>, source: Seq<u8>, idx: (u32, u32, u32), parent: Seq<char>)
    ensures
        forall|i: int| 0 <= i < methods_list(ms, source, idx, parent).len() ==> {
            &&& (#[trigger] methods_list(ms, source, idx, parent)[i]).name.len() > 0
            &&& methods_list(ms, source, idx, parent)[i].children.len() == 0
        },
    decreases ms.len(),
{
    if ms.len() > 0 {
        lemma_methods_named_leaves(ms.drop_last(), source, idx, parent);
        let prev = methods_list(ms.drop_last(), source, idx, parent);
        let all = methods_list(ms, source, idx, parent);
        assert forall|i: int| 0 <= i < all.len() implies {
            &&& (#[trigger] all[i]).name.len() > 0
            &&& all[i].children.len() == 0
        } by {
            if i < prev.len() {
                assert(all[i] == prev[i]);
            }
        }
    }
}

/// Every member that `get_members` reports has a non-empty name, and only
/// impl blocks, classes, modules and namespaces among them have children.
pub proof fn lemma_members_named(
    ms: Seq<Seq<CaptureView>>,
    source: Seq<u8>,
    name_idx: u32,
    def_idx: u32,
    method_ms: Seq<Seq<CaptureView>>,
    method_idx: Option<(u32, u32, u32)>,
    outer: (usize, usize),
    all: Seq<Seq<CaptureView>>,
)
    ensures
        ({
            let list = members_tree(ms, source, name_idx, def_idx, method_ms, method_idx, outer, all);
            forall|i: int| 0 <= i < list.len() ==> {
                &&& (#[trigger] list[i]).name.len() > 0
                &&& (list[i].children.len() > 0 ==> holds_methods(list[i].kind) || holds_members(list[i].kind))
            }
        }),
    decreases ms.len(),
{
    if ms.len() > 0 {
        lemma_members_named(ms.drop_last(), source, name_idx, def_idx, method_ms, method_idx, outer, all);
        let prev = members_tree(ms.drop_last(), source, name_idx, def_idx, method_ms, method_idx, outer, all);
        let list = members_tree(ms, source, name_idx, def_idx, method_ms, method_idx, outer, all);
        assert forall|i: int| 0 <= i < list.len() implies {
            &&& (#[trigger] list[i]).name.len() > 0
            &&& (list[i].children.len() > 0 ==> holds_methods(list[i].kind) || holds_members(list[i].kind))
        } by {
            if i < prev.len() {
                assert(list[i] == prev[i]);
            }
        }
    }
}

/// In an outline, only impl blocks, classes, modules and namespaces have
/// children; each child has a non-empty name, and only the impl blocks,
/// classes, modules and namespaces among the children have children.
pub proof fn lemma_outline_children(
    ms: Seq<Seq<CaptureView>>,
    source: Seq<u8>,
    name_idx: u32,
    def_idx: u32,
    method_ms: Seq<Seq<CaptureView>>,
    method_idx: Option<(u32, u32, u32)>,
    all: Seq<Seq<CaptureView>>,
)
    ensures
        ({
            let o = outline_spec(ms, source, name_idx, def_idx, method_ms, method_idx, all);
            forall|i: int| 0 <= i < o.len() ==> {
                &&& ((#[trigger] o[i]).children.len() > 0 ==> holds_methods(o[i].kind) || holds_members(o[i].kind))
                &&& forall|j: int| 0 <= j < o[i].children.len() ==> {
                    &&& (#[trigger] o[i].children[j]).name.len() > 0
                    &&& (o[i].children[j].children.len() > 0 ==> holds_methods(o[i].children[j].kind) || holds_members(o[i].children[j].kind))
                }
            }
        }),
    decreases ms.len(),
{
    if ms.len() > 0 {
        lemma_outline_children(ms.drop_last(), source, name_idx, def_idx, method_ms, method_idx, all);
        let m = ms.last();
        let prev = outline_spec(ms.drop_last(), source, name_idx, def_idx, method_ms, method_idx, all);
        let o = outline_spec(ms, source, name_idx, def_idx, method_ms, method_idx, all);
        if let Some(e) = entry_of(m, source, name_idx, def_idx) {
            if let Some(t) = method_idx {
                lemma_methods_named_leaves(method_ms, source, t, e.0);
            }
            if let Some(r) = def_range(m, name_idx, def_idx) {
                lemma_members_named(all, source, name_idx, def_idx, method_ms, method_idx, r, all);
            }
        }
        assert forall|i: int| 0 <= i < o.len() implies {
            &&& ((#[trigger] o[i]).children.len() > 0 ==> holds_methods(o[i].kind) || holds_members(o[i].kind))
            &&& forall|j: int| 0 <= j < o[i].children.len() ==> {
                &&& (#[trigger] o[i].children[j]).name.len() > 0
                &&& (o[i].children[j].children.len() > 0 ==> holds_methods(o[i].children[j].kind) || holds_members(o[i].children[j].kind))
            }
        } by {
            if i < prev.len() {
                assert(o[i] == prev[i]);
            }
        }
    }
}

/// A text without its trailing white space is a prefix of the text that
/// does not end in white space, and all it leaves out is white space.
pub proof fn lemma_trim_end(s: Seq<char>)
    ensures
        trim_end_spec(s).len() <= s.len(),
        trim_end_spec(s) == s.subrange(0, trim_end_spec(s).len() as int),
        trim_end_spec(s).len() > 0 ==> !is_white_space(trim_end_spec(s).last()),
        forall|k: int| trim_end_spec(s).len() <= k < s.len() ==> is_white_space(#[trigger] s[k]),
    decreases s.len(),
{
    if s.len() > 0 && is_white_space(s.last()) {
        lemma_trim_end(s.drop_last());
        assert forall|k: int| trim_end_spec(s).len() <= k < s.len() implies is_white_space(#[trigger] s[k]) by {
            if k < s.len() - 1 {
                assert(s[k] == s.drop_last()[k]);
            }
        }
        assert(s.drop_last().subrange(0, trim_end_spec(s).len() as int) == s.subrange(0, trim_end_spec(s).len() as int));
    } else {
        assert(s == s.subrange(0, s.len() as int));
    }
}

/// Some match carries the name `symbol` exactly when a first such match
/// exists.
pub proof fn lemma_first_named_exists(ms: Seq<Seq<CaptureView>>, source: Seq<u8>, name_idx: u32, symbol: Seq<char>, i: int)
    requires
        0 <= i < ms.len(),
        match_name(ms[i], source, name_idx) == symbol,
    ensures
        exists|j: int| first_named(ms, source, name_idx, symbol, j),
    decreases i,
{
    if exists|k: int| 0 <= k < i && match_name(#[trigger] ms[k], source, name_idx) == symbol {
        let k = choose|k: int| 0 <= k < i && match_name(#[trigger] ms[k], source, name_idx) == symbol;
        lemma_first_named_exists(ms, source, name_idx, symbol, k);
    } else {
        assert(first_named(ms, source, name_idx, symbol, i));
    }
}

/// `get_signature` finds a signature exactly when some match carries the
/// name; the signature is a prefix of the text of the first such match's
/// signature range and does not end in white space.
pub proof fn lemma_signature(
    ms: Seq<Seq<CaptureView>>,
    source: Seq<u8>,
    name_idx: u32,
    def_idx: u32,
    body_idx: Option<u32>,
    symbol: Seq<char>,
)
    ensures
        signature_spec(ms, source, name_idx, def_idx, body_idx, symbol) is Some
            <==> exists|i: int| 0 <= i < ms.len() && match_name(#[trigger] ms[i], source, name_idx) == symbol,
        signature_spec(ms, source, name_idx, def_idx, body_idx, symbol) matches Some(sig) ==> {
            &&& sig.len() > 0 ==> !is_white_space(sig.last())
            &&& exists|i: int| #[trigger] first_named(ms, source, name_idx, symbol, i) && {
                let r = signature_range(ms[i], name_idx, def_idx, body_idx);
                let text = utf8_or_empty(source.subrange(r.0, r.1));
                sig == text.subrange(0, sig.len() as int)
            }
        },
{
    if exists|i: int| 0 <= i < ms.len() && match_name(#[trigger] ms[i], source, name_idx) == symbol {
        let i = choose|i: int| 0 <= i < ms.len() && match_name(#[trigger] ms[i], source, name_idx) == symbol;
        lemma_first_named_exists(ms, source, name_idx, symbol, i);
        let j = choose|j: int| first_named(ms, source, name_idx, symbol, j);
        let r = signature_range(ms[j], name_idx, def_idx, body_idx);
        lemma_trim_end(utf8_or_empty(source.subrange(r.0, r.1)));
    }
}

/// A character that is not white space survives trimming: the trimmed text
/// reaches past it.
proof fn lemma_trim_keeps(s: Seq<char>, j: int)
    requires
        0 <= j < s.len(),
        !is_white_space(s[j]),
    ensures
        trim_end_spec(s).len() > j,
    decreases s.len(),
{
    if s.len() > 0 && is_white_space(s.last()) {
        lemma_trim_keeps(s.drop_last(), j);
    }
}

/// Trimming a text gives a prefix of what trimming any longer text that
/// starts with it gives.
proof fn lemma_trim_prefix(a: Seq<char>, b: Seq<char>)
    ensures
        trim_end_spec(a).len() <= trim_end_spec(a + b).len(),
        trim_end_spec(a) == trim_end_spec(a + b).subrange(0, trim_end_spec(a).len() as int),
{
    let t = trim_end_spec(a);
    let u = trim_end_spec(a + b);
    lemma_trim_end(a);
    lemma_trim_end(a + b);
    if t.len() > 0 {
        let j = t.len() - 1;
        assert(t[j] == a[j]);
        assert((a + b)[j] == a[j]);
        lemma_trim_keeps(a + b, j);
        assert(u.subrange(0, t.len() as int) =~= t) by {
            assert forall|k: int| 0 <= k < t.len() implies u[k] == t[k] by {
                assert(u[k] == (a + b)[k]);
                assert(t[k] == a[k]);
            }
        }
    } else {
        assert(t =~= u.subrange(0, 0));
    }
}

/// `get_signature` and `get_definition` look the same name up among the
/// same matches: one finds an answer exactly when the other does. When the
/// definition found is valid UTF-8 and its body starts inside it on a
/// character boundary, the signature is a prefix of the definition.
pub proof fn lemma_signature_prefix_of_definition(
    ms: Seq<Seq<CaptureView>>,
    source: Seq<u8>,
    name_idx: u32,
    def_idx: u32,
    body_idx: Option<u32>,
    symbol: Seq<char>,
)
    ensures
        signature_spec(ms, source, name_idx, def_idx, body_idx, symbol) is Some
            <==> signature_spec(ms, source, name_idx, def_idx, None, symbol) is Some,
        ({
            let i = choose|i: int| first_named(ms, source, name_idx, symbol, i);
            let sig_range = signature_range(ms[i], name_idx, def_idx, body_idx);
            let def_range = signature_range(ms[i], name_idx, def_idx, None);
            let def_bytes = source.subrange(def_range.0, def_range.1);
            (signature_spec(ms, source, name_idx, def_idx, body_idx, symbol) is Some
                && 0 <= def_range.0 <= sig_range.1 <= def_range.1 <= source.len()
                && valid_utf8(def_bytes)
                && is_char_boundary(def_bytes, sig_range.1 - def_range.0))
            ==> {
                let sig = signature_spec(ms, source, name_idx, def_idx, body_idx, symbol).unwrap();
                let def = signature_spec(ms, source, name_idx, def_idx, None, symbol).unwrap();
                &&& sig.len() <= def.len()
                &&& sig == def.subrange(0, sig.len() as int)
            }
        }),
{
    let i = choose|i: int| first_named(ms, source, name_idx, symbol, i);
    let sig_range = signature_range(ms[i], name_idx, def_idx, body_idx);
    let def_range = signature_range(ms[i], name_idx, def_idx, None);
    let def_bytes = source.subrange(def_range.0, def_range.1);
    if signature_spec(ms, source, name_idx, def_idx, body_idx, symbol) is Some
        && 0 <= def_range.0 <= sig_range.1 <= def_range.1 <= source.len()
        && valid_utf8(def_bytes)
        && is_char_boundary(def_bytes, sig_range.1 - def_range.0)
    {
        assert(sig_range.0 == def_range.0);
        let cut = sig_range.1 - def_range.0;
        let sig_bytes = source.subrange(sig_range.0, sig_range.1);
        assert(sig_bytes =~= def_bytes.subrange(0, cut));
        valid_utf8_split(def_bytes, cut);
        decode_utf8_split(def_bytes, cut);
        let head = decode_utf8(def_bytes.subrange(0, cut));
        let tail = decode_utf8(def_bytes.subrange(cut, def_bytes.len() as int));
        assert(utf8_or_empty(sig_bytes) == head);
        assert(utf8_or_empty(def_bytes) == head + tail);
        lemma_trim_prefix(head, tail);
    }
}

/// A name, kind and line.
pub type Entry = (Seq<char>, Seq<char>, int);

/// The entries of a sequence, each at its first occurrence, in order.
pub open spec fn first_occurrences(es: Seq<Entry>) -> Seq<Entry>
    decreases es.len(),
{
    if es.len() == 0 {
        Seq::empty()
    } else {
        let prev = first_occurrences(es.drop_last());
        if prev.contains(es.last()) {
            prev
        } else {
            prev.push(es.last())
        }
    }
}

/// The name, kind and line of each symbol.
pub open spec fn symbol_entries(syms: Seq<SymbolView>) -> Seq<Entry> {
    syms.map_values(|s: SymbolView| (s.name, s.kind, s.line))
}

/// The name, kind and line of each outline entry.
pub open spec fn item_entries(items: Seq<ItemView>) -> Seq<Entry> {
    items.map_values(|i: ItemView| (i.name, i.kind, i.line))
}

/// The name, kind and line of each named match whose definition lies inside
/// no module or namespace of `all`, in match order.
pub open spec fn top_entries(ms: Seq<Seq<CaptureView>>, source: Seq<u8>, name_idx: u32, def_idx: u32, all: Seq<Seq<CaptureView>>) -> Seq<Entry>
    decreases ms.len(),
{
    if ms.len() == 0 {
        Seq::empty()
    } else {
        let prev = top_entries(ms.drop_last(), source, name_idx, def_idx, all);
        match entry_of(ms.last(), source, name_idx, def_idx) {
            Some(e) => if nested(ms.last(), source, name_idx, def_idx, all) {
                prev
            } else {
                prev.push(e)
            },
            None => prev,
        }
    }
}

/// The outline lists the symbols of the same matches that lie inside no
/// module or namespace, in the same order, each name, kind and line at its
/// first occurrence only.
pub proof fn lemma_outline_is_deduplicated_symbols(
    ms: Seq<Seq<CaptureView>>,
    source: Seq<u8>,
    name_idx: u32,
    def_idx: u32,
    method_ms: Seq<Seq<CaptureView>>,
    method_idx: Option<(u32, u32, u32)>,
    all: Seq<Seq<CaptureView>>,
)
    ensures
        item_entries(outline_spec(ms, source, name_idx, def_idx, method_ms, method_idx, all))
            == first_occurrences(top_entries(ms, source, name_idx, def_idx, all)),
    decreases ms.len(),
{
    if ms.len() > 0 {
        let prefix = ms.drop_last();
        lemma_outline_is_deduplicated_symbols(prefix, source, name_idx, def_idx, method_ms, method_idx, all);
        let prev = outline_spec(prefix, source, name_idx, def_idx, method_ms, method_idx, all);
        let ptop = top_entries(prefix, source, name_idx, def_idx, all);
        let o = outline_spec(ms, source, name_idx, def_idx, method_ms, method_idx, all);
        let top = top_entries(ms, source, name_idx, def_idx, all);
        let m = ms.last();
        match entry_of(m, source, name_idx, def_idx) {
            Some(e) => {
                if !nested(m, source, name_idx, def_idx, all) {
                    assert(top == ptop.push(e));
                    assert(top.drop_last() =~= ptop);
                    let fo = first_occurrences(ptop);
                    assert(item_entries(prev) == fo);
                    if listed(prev, e.0, e.1, e.2) {
                        let j = choose|j: int| 0 <= j < prev.len() && #[trigger] prev[j].name == e.0 && prev[j].kind == e.1 && prev[j].line == e.2;
                        assert(fo[j] == e);
                        assert(fo.contains(e));
                    } else {
                        assert(!fo.contains(e)) by {
                            if fo.contains(e) {
                                let j = choose|j: int| 0 <= j < fo.len() && fo[j] == e;
                                assert(item_entries(prev)[j] == (prev[j].name, prev[j].kind, prev[j].line));
                            }
                        }
                        assert(item_entries(o) =~= item_entries(prev).push(e));
                    }
                }
            },
            None => {},
        }
    } else {
        assert(item_entries(outline_spec(ms, source, name_idx, def_idx, method_ms, method_idx, all)) =~= Seq::<Entry>::empty());
    }
}

/// Among matches with no module or namespace, no entry is nested: the
/// entries kept at the top are those of every listed symbol.
pub proof fn lemma_top_entries_without_containers(
    ms: Seq<Seq<CaptureView>>,
    source: Seq<u8>,
    name_idx: u32,
    def_idx: u32,
    all: Seq<Seq<CaptureView>>,
)
    requires
        forall|k: int| 0 <= k < all.len() ==> !(#[trigger] entry_of(all[k], source, name_idx, def_idx) matches Some(e) && holds_members(e.1)),
    ensures
        top_entries(ms, source, name_idx, def_idx, all) == symbol_entries(symbols_spec(ms, source, name_idx, def_idx)),
    decreases ms.len(),
{
    if ms.len() > 0 {
        let prefix = ms.drop_last();
        lemma_top_entries_without_containers(prefix, source, name_idx, def_idx, all);
        let m = ms.last();
        let psyms = symbols_spec(prefix, source, name_idx, def_idx);
        let syms = symbols_spec(ms, source, name_idx, def_idx);
        match entry_of(m, source, name_idx, def_idx) {
            Some(e) => {
                if let Some(r) = def_range(m, name_idx, def_idx) {
                    assert(!enclosed(all, source, name_idx, def_idx, r)) by {
                        if enclosed(all, source, name_idx, def_idx, r) {
                            let k = choose|k: int| 0 <= k < all.len() && #[trigger] container_around(all[k], source, name_idx, def_idx, r);
                            assert(entry_of(all[k], source, name_idx, def_idx) is Some);
                        }
                    }
                }
                let s = symbol_of(m, source, name_idx, def_idx).unwrap();
                assert(syms == psyms.push(s));
                assert(symbol_entries(syms) =~= symbol_entries(psyms).push(e));
            },
            None => {
                assert(symbol_of(m, source, name_idx, def_idx) is None);
            },
        }
    } else {
        assert(symbol_entries(symbols_spec(ms, source, name_idx, def_idx)) =~= Seq::<Entry>::empty());
    }
}

/// Over the same queries, tree and source, `get_file_structure` fails with
/// the error `list_symbols` fails with, and when it succeeds every item is a
/// listed symbol with its name, kind and line; when the file has no module
/// or namespace, its items are the listed symbols in order, each name, kind
/// and line kept at its first occurrence only. It succeeds whenever
/// `list_symbols` does and every capture of the methods query lies within the
/// source.
pub proof fn lemma_outline_follows_symbol_list(queries: LangQueries, lang: Lang, tree: tree_sitter::Tree, source: Seq<u8>)
    ensures
        ({
            let midx = method_indices_of(queries.impl_methods, lang);
            &&& list_symbols_spec(queries.symbols, tree, source) is Ok
            &&& (midx is Some ==> methods_fit(query_matches(queries.impl_methods, tree, source), source.len(), midx))
        }) ==> outline_result(queries, lang, tree, source) is Ok,
        list_symbols_spec(queries.symbols, tree, source) matches Err(e)
            ==> outline_result(queries, lang, tree, source) == Err::<Seq<ItemView>, ToolError>(e),
        outline_result(queries, lang, tree, source) matches Ok(items) ==> {
            &&& list_symbols_spec(queries.symbols, tree, source) matches Ok(syms)
            &&& forall|i: int| 0 <= i < items.len() ==> has_symbol(syms, (#[trigger] items[i]).name, items[i].kind, items[i].line)
            &&& (forall|k: int| 0 <= k < syms.len() ==> !holds_members(#[trigger] syms[k].kind))
                ==> item_entries(items) == first_occurrences(symbol_entries(syms))
        },
{
    if let (Some(n), Some(d)) = (capture_index_of(queries.symbols, "name"@), capture_index_of(queries.symbols, "def"@)) {
        let ms = query_matches(queries.symbols, tree, source);
        let midx = method_indices_of(queries.impl_methods, lang);
        let mms = if midx is Some { query_matches(queries.impl_methods, tree, source) } else { Seq::empty() };
        lemma_outline_covers_symbols(ms, source, n, d, mms, midx, ms);
        lemma_outline_is_deduplicated_symbols(ms, source, n, d, mms, midx, ms);
        let syms = symbols_spec(ms, source, n, d);
        if forall|k: int| 0 <= k < syms.len() ==> !holds_members(#[trigger] syms[k].kind) {
            assert forall|k: int| 0 <= k < ms.len() implies !(#[trigger] entry_of(ms[k], source, n, d) matches Some(e) && holds_members(e.1)) by {
                if let Some(e) = entry_of(ms[k], source, n, d) {
                    lemma_symbol_of_listed(ms, source, n, d, k);
                    let j = choose|j: int| 0 <= j < syms.len() && #[trigger] syms[j].name == e.0 && syms[j].kind == e.1 && syms[j].line == e.2;
                }
            }
            lemma_top_entries_without_containers(ms, source, n, d, ms);
        }
    }
}

/// The entry of every named match is among the listed symbols.
pub proof fn lemma_symbol_of_listed(ms: Seq<Seq<CaptureView>>, source: Seq<u8>, name_idx: u32, def_idx: u32, k: int)
    requires
        0 <= k < ms.len(),
        entry_of(ms[k], source, name_idx, def_idx) is Some,
    ensures
        ({
            let e = entry_of(ms[k], source, name_idx, def_idx).unwrap();
            has_symbol(symbols_spec(ms, source, name_idx, def_idx), e.0, e.1, e.2)
        }),
    decreases ms.len(),
{
    let e = entry_of(ms[k], source, name_idx, def_idx).unwrap();
    let prefix = ms.drop_last();
    let psyms = symbols_spec(prefix, source, name_idx, def_idx);
    let syms = symbols_spec(ms, source, name_idx, def_idx);
    if k < ms.len() - 1 {
        assert(prefix[k] == ms[k]);
        lemma_symbol_of_listed(prefix, source, name_idx, def_idx, k);
        let j = choose|j: int| 0 <= j < psyms.len() && #[trigger] psyms[j].name == e.0 && psyms[j].kind == e.1 && psyms[j].line == e.2;
        if let Some(s) = symbol_of(ms.last(), source, name_idx, def_idx) {
            assert(syms == psyms.push(s));
        }
        assert(syms[j] == psyms[j]);
        assert(syms[j].name == e.0 && syms[j].kind == e.1 && syms[j].line == e.2);
    } else {
        assert(ms[k] == ms.last());
        let s = symbol_of(ms.last(), source, name_idx, def_idx).unwrap();
        assert(s.name == e.0 && s.kind == e.1 && s.line == e.2);
        assert(syms == psyms.push(s));
        assert(syms[psyms.len() as int] == s);
        assert(syms[psyms.len() as int].name == e.0 && syms[psyms.len() as int].kind == e.1 && syms[psyms.len() as int].line == e.2);
    }
}

/// How many of the matches satisfy `p`.
pub open spec fn count_where(ms: Seq<Seq<CaptureView>>, p: spec_fn(Seq<CaptureView>) -> bool) -> nat
    decreases ms.len(),
{
    if ms.len() == 0 {
        0
    } else {
        count_where(ms.drop_last(), p) + if p(ms.last()) { 1nat } else { 0nat }
    }
}

/// A match satisfying `p` is preceded by fewer such matches than the whole
/// sequence holds.
pub proof fn lemma_count_take(ms: Seq<Seq<CaptureView>>, p: spec_fn(Seq<CaptureView>) -> bool, k: int)
    requires
        0 <= k <= ms.len(),
    ensures
        count_where(ms.take(k), p) <= count_where(ms, p),
        k < ms.len() && p(ms[k]) ==> count_where(ms.take(k), p) < count_where(ms, p),
    decreases ms.len(),
{
    if k == ms.len() {
        assert(ms.take(k) =~= ms);
    } else {
        let pre = ms.drop_last();
        if k == ms.len() - 1 {
            assert(ms.take(k) =~= pre);
        } else {
            assert(ms.take(k) =~= pre.take(k));
            lemma_count_take(pre, p, k);
            assert(pre[k] == ms[k]);
        }
    }
}

/// The match's last capture with index `idx` carries a non-empty text.
pub open spec fn names_something(source: Seq<u8>, idx: u32) -> spec_fn(Seq<CaptureView>) -> bool {
    |m: Seq<CaptureView>| slot_text(m, source, last_pos(m, idx)).len() > 0
}

/// The definition capture of a symbols match: its last capture with index
/// `def_idx`, unless that index is also the name's.
pub open spec fn def_capture(m: Seq<CaptureView>, name_idx: u32, def_idx: u32) -> Option<int> {
    if def_idx == name_idx { None } else { last_pos(m, def_idx) }
}

/// The symbol `s` is the one the match names: the text of its name capture,
/// with the node kind, one-based start row and one-based end row of its
/// definition capture (empty and zero without one).
pub open spec fn symbol_names_match(s: SymbolView, m: Seq<CaptureView>, source: Seq<u8>, name_idx: u32, def_idx: u32) -> bool {
    &&& s.name == slot_text(m, source, last_pos(m, name_idx))
    &&& match def_capture(m, name_idx, def_idx) {
        Some(p) => s.kind == m[p].kind && s.line == m[p].start_row + 1 && s.end_line == m[p].end_row + 1,
        None => s.kind == Seq::<char>::empty() && s.line == 0 && s.end_line == 0,
    }
}

/// `list_symbols` misses no named match and adds nothing: it lists one
/// symbol per match whose name capture carries a non-empty text, whatever
/// the kind of its definition, in match order; the symbol of such a match
/// has that text as its name and the kind and one-based start and end rows
/// of the match's definition capture.
pub proof fn lemma_symbols_exact(ms: Seq<Seq<CaptureView>>, source: Seq<u8>, name_idx: u32, def_idx: u32)
    ensures
        symbols_spec(ms, source, name_idx, def_idx).len() == count_where(ms, names_something(source, name_idx)),
        forall|k: int| 0 <= k < ms.len() && names_something(source, name_idx)(#[trigger] ms[k]) ==> symbol_names_match(
            symbols_spec(ms, source, name_idx, def_idx)[count_where(ms.take(k), names_something(source, name_idx)) as int],
            ms[k],
            source,
            name_idx,
            def_idx,
        ),
    decreases ms.len(),
{
    let p = names_something(source, name_idx);
    if ms.len() > 0 {
        let pre = ms.drop_last();
        lemma_symbols_exact(pre, source, name_idx, def_idx);
        let prev = symbols_spec(pre, source, name_idx, def_idx);
        let syms = symbols_spec(ms, source, name_idx, def_idx);
        let m = ms.last();
        if p(m) {
            assert(symbol_of(m, source, name_idx, def_idx) is Some);
            assert(syms == prev.push(symbol_of(m, source, name_idx, def_idx).unwrap()));
        } else {
            assert(symbol_of(m, source, name_idx, def_idx) is None);
        }
        assert forall|k: int| 0 <= k < ms.len() && p(#[trigger] ms[k]) implies symbol_names_match(
            syms[count_where(ms.take(k), p) as int],
            ms[k],
            source,
            name_idx,
            def_idx,
        ) by {
            if k < ms.len() - 1 {
                assert(ms.take(k) =~= pre.take(k));
                assert(pre[k] == ms[k]);
                lemma_count_take(pre, p, k);
                assert(syms[count_where(pre.take(k), p) as int] == prev[count_where(pre.take(k), p) as int]);
            } else {
                assert(ms.take(k) =~= pre);
            }
        }
    }
}

/// The method `item` is the one the methods match names: the text of its
/// method-name capture, with the node kind and one-based start row of its
/// method-definition capture (empty and zero without one), and no children.
pub open spec fn method_names_match(item: ItemView, m: Seq<CaptureView>, source: Seq<u8>, idx: (u32, u32, u32)) -> bool {
    let name_pos = if idx.1 == idx.0 { None } else { last_pos(m, idx.1) };
    let def_pos = if idx.2 == idx.0 || idx.2 == idx.1 { None } else { last_pos(m, idx.2) };
    &&& item.name == slot_text(m, source, name_pos)
    &&& item.children.len() == 0
    &&& match def_pos {
        Some(d) => item.kind == m[d].kind && item.line == m[d].start_row + 1,
        None => item.kind == Seq::<char>::empty() && item.line == 0,
    }
}

/// The methods match belongs to `parent`: the text of its owner capture is
/// `parent` and the text of its method-name capture is not empty.
pub open spec fn method_of_parent(source: Seq<u8>, idx: (u32, u32, u32), parent: Seq<char>) -> spec_fn(Seq<CaptureView>) -> bool {
    |m: Seq<CaptureView>| {
        let name_pos = if idx.1 == idx.0 { None } else { last_pos(m, idx.1) };
        slot_text(m, source, last_pos(m, idx.0)) == parent && slot_text(m, source, name_pos).len() > 0
    }
}

/// The methods of an impl block or class miss none: one child per match of
/// the methods query whose owner text is the parent's name and whose method
/// name is not empty, whatever that name is, in match order; the child of
/// such a match has its method name and the kind and one-based start row of
/// its method-definition capture.
pub proof fn lemma_methods_exact(ms: Seq<Seq<CaptureView>>, source: Seq<u8>, idx: (u32, u32, u32), parent: Seq<char>)
    ensures
        methods_list(ms, source, idx, parent).len() == count_where(ms, method_of_parent(source, idx, parent)),
        forall|k: int| 0 <= k < ms.len() && method_of_parent(source, idx, parent)(#[trigger] ms[k]) ==> method_names_match(
            methods_list(ms, source, idx, parent)[count_where(ms.take(k), method_of_parent(source, idx, parent)) as int],
            ms[k],
            source,
            idx,
        ),
    decreases ms.len(),
{
    let p = method_of_parent(source, idx, parent);
    if ms.len() > 0 {
        let pre = ms.drop_last();
        lemma_methods_exact(pre, source, idx, parent);
        let prev = methods_list(pre, source, idx, parent);
        let all = methods_list(ms, source, idx, parent);
        let m = ms.last();
        if p(m) {
            assert(method_of(m, source, idx, parent) is Some);
            assert(all == prev.push(method_of(m, source, idx, parent).unwrap()));
        } else {
            assert(method_of(m, source, idx, parent) is None);
        }
        assert forall|k: int| 0 <= k < ms.len() && p(#[trigger] ms[k]) implies method_names_match(
            all[count_where(ms.take(k), p) as int],
            ms[k],
            source,
            idx,
        ) by {
            if k < ms.len() - 1 {
                assert(ms.take(k) =~= pre.take(k));
                assert(pre[k] == ms[k]);
                lemma_count_take(pre, p, k);
                assert(all[count_where(pre.take(k), p) as int] == prev[count_where(pre.take(k), p) as int]);
            } else {
                assert(ms.take(k) =~= pre);
            }
        }
    }
}

/// The outline misses no definition outside the modules and namespaces:
/// every match whose name capture carries a non-empty text and whose
/// definition lies in no module or namespace has a top-level entry with
/// that name and the kind and one-based start row of its definition
/// capture, whatever that kind is.
pub proof fn lemma_outline_lists_top_matches(
    ms: Seq<Seq<CaptureView>>,
    source: Seq<u8>,
    name_idx: u32,
    def_idx: u32,
    method_ms: Seq<Seq<CaptureView>>,
    method_idx: Option<(u32, u32, u32)>,
    all: Seq<Seq<CaptureView>>,
)
    ensures
        forall|k: int| 0 <= k < ms.len() && names_something(source, name_idx)(#[trigger] ms[k]) && !nested(ms[k], source, name_idx, def_idx, all) ==> {
            let o = outline_spec(ms, source, name_idx, def_idx, method_ms, method_idx, all);
            let name = slot_text(ms[k], source, last_pos(ms[k], name_idx));
            match def_capture(ms[k], name_idx, def_idx) {
                Some(p) => listed(o, name, ms[k][p].kind, ms[k][p].start_row + 1),
                None => listed(o, name, Seq::<char>::empty(), 0),
            }
        },
    decreases ms.len(),
{
    let p = names_something(source, name_idx);
    if ms.len() > 0 {
        let pre = ms.drop_last();
        lemma_outline_lists_top_matches(pre, source, name_idx, def_idx, method_ms, method_idx, all);
        let prev = outline_spec(pre, source, name_idx, def_idx, method_ms, method_idx, all);
        let o = outline_spec(ms, source, name_idx, def_idx, method_ms, method_idx, all);
        assert forall|j: int| 0 <= j < prev.len() implies o[j] == prev[j] by {}
        assert forall|k: int| 0 <= k < ms.len() && p(#[trigger] ms[k]) && !nested(ms[k], source, name_idx, def_idx, all) implies {
            let name = slot_text(ms[k], source, last_pos(ms[k], name_idx));
            match def_capture(ms[k], name_idx, def_idx) {
                Some(q) => listed(o, name, ms[k][q].kind, ms[k][q].start_row + 1),
                None => listed(o, name, Seq::<char>::empty(), 0),
            }
        } by {
            let name = slot_text(ms[k], source, last_pos(ms[k], name_idx));
            let kind = match def_capture(ms[k], name_idx, def_idx) { Some(q) => ms[k][q].kind, None => Seq::<char>::empty() };
            let line = match def_capture(ms[k], name_idx, def_idx) { Some(q) => ms[k][q].start_row + 1, None => 0 };
            if k < ms.len() - 1 {
                assert(pre[k] == ms[k]);
                assert(listed(prev, name, kind, line));
                let j = choose|j: int| 0 <= j < prev.len() && #[trigger] prev[j].name == name && prev[j].kind == kind && prev[j].line == line;
                assert(o[j] == prev[j]);
            } else {
                assert(ms[k] == ms.last());
                let e = entry_of(ms.last(), source, name_idx, def_idx).unwrap();
                assert(e == (name, kind, line));
                if listed(prev, name, kind, line) {
                    let j = choose|j: int| 0 <= j < prev.len() && #[trigger] prev[j].name == name && prev[j].kind == kind && prev[j].line == line;
                    assert(o[j] == prev[j]);
                } else {
                    assert(o[prev.len() as int].name == name && o[prev.len() as int].kind == kind && o[prev.len() as int].line == line);
                }
            }
        }
    }
}

/// A module or namespace misses none of its direct members: every match
/// whose name capture carries a non-empty text and whose definition lies
/// strictly inside the container's span `outer`, with no named definition
/// between the two, is a child with that name and the kind and one-based
/// start row of its definition capture, whatever that kind is.
pub proof fn lemma_members_list_direct_matches(
    ms: Seq<Seq<CaptureView>>,
    source: Seq<u8>,
    name_idx: u32,
    def_idx: u32,
    method_ms: Seq<Seq<CaptureView>>,
    method_idx: Option<(u32, u32, u32)>,
    outer: (usize, usize),
    all: Seq<Seq<CaptureView>>,
)
    ensures
        forall|k: int| 0 <= k < ms.len() && names_something(source, name_idx)(#[trigger] ms[k]) ==> {
            let list = members_tree(ms, source, name_idx, def_idx, method_ms, method_idx, outer, all);
            let name = slot_text(ms[k], source, last_pos(ms[k], name_idx));
            match def_capture(ms[k], name_idx, def_idx) {
                Some(p) => {
                    let r = (ms[k][p].start_byte, ms[k][p].end_byte);
                    strictly_within(r, outer) && !has_between(all, source, name_idx, def_idx, r, outer)
                        ==> listed(list, name, ms[k][p].kind, ms[k][p].start_row + 1)
                },
                None => true,
            }
        },
    decreases ms.len(),
{
    let pr = names_something(source, name_idx);
    if ms.len() > 0 {
        let pre = ms.drop_last();
        lemma_members_list_direct_matches(pre, source, name_idx, def_idx, method_ms, method_idx, outer, all);
        let prev = members_tree(pre, source, name_idx, def_idx, method_ms, method_idx, outer, all);
        let list = members_tree(ms, source, name_idx, def_idx, method_ms, method_idx, outer, all);
        assert forall|j: int| 0 <= j < prev.len() implies list[j] == prev[j] by {}
        assert forall|k: int| 0 <= k < ms.len() && pr(#[trigger] ms[k]) implies {
            let name = slot_text(ms[k], source, last_pos(ms[k], name_idx));
            match def_capture(ms[k], name_idx, def_idx) {
                Some(p) => {
                    let r = (ms[k][p].start_byte, ms[k][p].end_byte);
                    strictly_within(r, outer) && !has_between(all, source, name_idx, def_idx, r, outer)
                        ==> listed(list, name, ms[k][p].kind, ms[k][p].start_row + 1)
                },
                None => true,
            }
        } by {
            let name = slot_text(ms[k], source, last_pos(ms[k], name_idx));
            if let Some(q) = def_capture(ms[k], name_idx, def_idx) {
                let r = (ms[k][q].start_byte, ms[k][q].end_byte);
                let kind = ms[k][q].kind;
                let line = ms[k][q].start_row + 1;
                if strictly_within(r, outer) && !has_between(all, source, name_idx, def_idx, r, outer) {
                    if k < ms.len() - 1 {
                        assert(pre[k] == ms[k]);
                        assert(listed(prev, name, kind, line));
                        let j = choose|j: int| 0 <= j < prev.len() && #[trigger] prev[j].name == name && prev[j].kind == kind && prev[j].line == line;
                        assert(list[j] == prev[j]);
                    } else {
                        assert(ms[k] == ms.last());
                        crate::tools::fields::lemma_slots_in_bounds(ms[k], name_idx, def_idx, None);
                        assert(def_range(ms[k], name_idx, def_idx) == Some(r));
                        assert(entry_of(ms[k], source, name_idx, def_idx) == Some((name, kind, line)));
                        assert(member_of(ms.last(), source, name_idx, def_idx, outer, all) == Some(((name, kind, line), r)));
                        if listed(prev, name, kind, line) {
                            let j = choose|j: int| 0 <= j < prev.len() && #[trigger] prev[j].name == name && prev[j].kind == kind && prev[j].line == line;
                            assert(list[j] == prev[j]);
                        } else {
                            assert(list[prev.len() as int].name == name && list[prev.len() as int].kind == kind && list[prev.len() as int].line == line);
                        }
                    }
                }
            }
        }
    }
}

/// `get_signature` and `get_definition` cut their text from the first
/// definition carrying the name exactly: from the first byte of its
/// definition capture to the first byte of its body capture, or to the end
/// of the definition capture when the query has no body capture or the
/// match has none, without trailing white space, whatever lines the name,
/// the definition and the body lie on.
pub proof fn lemma_signature_cut(
    ms: Seq<Seq<CaptureView>>,
    source: Seq<u8>,
    name_idx: u32,
    def_idx: u32,
    body_idx: Option<u32>,
    symbol: Seq<char>,
    i: int,
)
    requires
        first_named(ms, source, name_idx, symbol, i),
        def_capture(ms[i], name_idx, def_idx) is Some,
        body_idx matches Some(b) ==> b != name_idx && b != def_idx,
    ensures
        ({
            let m = ms[i];
            let def = m[def_capture(m, name_idx, def_idx).unwrap()];
            let end: int = match body_idx {
                Some(b) => match last_pos(m, b) {
                    Some(q) => m[q].start_byte as int,
                    None => def.end_byte as int,
                },
                None => def.end_byte as int,
            };
            signature_spec(ms, source, name_idx, def_idx, body_idx, symbol) == Some(
                trim_end_spec(utf8_or_empty(source.subrange(def.start_byte as int, end))),
            )
        }),
{
    let j = choose|j: int| first_named(ms, source, name_idx, symbol, j);
    lemma_first_named_unique_law(ms, source, name_idx, symbol, i, j);
}

/// Only one match is the first to carry a name.
proof fn lemma_first_named_unique_law(ms: Seq<Seq<CaptureView>>, source: Seq<u8>, name_idx: u32, symbol: Seq<char>, i: int, j: int)
    requires
        first_named(ms, source, name_idx, symbol, i),
        first_named(ms, source, name_idx, symbol, j),
    ensures
        i == j,
{
    if i < j {
        assert(match_name(ms[i], source, name_idx) != symbol);
    } else if j < i {
        assert(match_name(ms[j], source, name_idx) != symbol);
    }
}

} // verus!
