use vstd::prelude::*;

use crate::queries::queries_of_lang;

use crate::capture::{CaptureView, MatchData};
use crate::error::ToolError;
use crate::lang::Lang;
use crate::parser::ParseCache;
use crate::text::str_eq;
use crate::tools::fields::{capture_text_of, check_rows_fit, check_texts_fit, pick_slots, rows_fit, slot_text, slots, texts_fit};
use crate::tools::list_symbols::{check_symbols_fit, match_views, name_and_def_indices, symbols_fit};
use crate::queries::LangQueries;
use crate::ts::{capture_index, capture_index_of, collect_matches, new_query_cursor, query_matches, start_matches};
use crate::types::{models_item, models_items, models_leaf, models_leaves, FileStructure, ItemView, StructureItem};

verus! {

/// The method that one match of a methods query names, when the match lies
/// in the impl block or class called `parent`: the text of its method-name
/// capture with the kind and one-based start line of its method-definition
/// capture. `idx` holds the capture indices of the parent's name, the
/// method's name and the method's definition.
pub open spec fn method_of(m: Seq<CaptureView>, source: Seq<u8>, idx: (u32, u32, u32), parent: Seq<char>) -> Option<ItemView> {
    let s = slots(m, idx.0, idx.1, Some(idx.2));
    let owner = slot_text(m, source, s.0);
    let name = slot_text(m, source, s.1);
    if owner == parent && name.len() > 0 {
        Some(
            match s.2 {
                Some(d) => ItemView { name, kind: m[d].kind, line: m[d].start_row + 1, children: Seq::empty() },
                None => ItemView { name, kind: Seq::empty(), line: 0, children: Seq::empty() },
            },
        )
    } else {
        None
    }
}

/// The methods of `parent` among the matches, in match order.
pub open spec fn methods_list(ms: Seq<Seq<CaptureView>>, source: Seq<u8>, idx: (u32, u32, u32), parent: Seq<char>) -> Seq<ItemView>
    decreases ms.len(),
{
    if ms.len() == 0 {
        Seq::empty()
    } else {
        let prev = methods_list(ms.drop_last(), source, idx, parent);
        match method_of(ms.last(), source, idx, parent) {
            Some(v) => prev.push(v),
            None => prev,
        }
    }
}

/// The methods of `parent`; none when the methods query lacks one of the
/// three captures.
pub open spec fn methods_spec(ms: Seq<Seq<CaptureView>>, source: Seq<u8>, idx: Option<(u32, u32, u32)>, parent: Seq<char>) -> Seq<ItemView> {
    match idx {
        Some(t) => methods_list(ms, source, t, parent),
        None => Seq::empty(),
    }
}

/// Every capture that the method extraction reads lies within the source
/// and has rows that a one-based count can hold.
pub open spec fn methods_fit(ms: Seq<Seq<CaptureView>>, len: nat, idx: Option<(u32, u32, u32)>) -> bool {
    match idx {
        Some(t) => forall|i: int| 0 <= i < ms.len() ==> {
            &&& texts_fit(#[trigger] ms[i], t.0, len)
            &&& (t.1 != t.0 ==> texts_fit(ms[i], t.1, len))
            &&& (t.2 != t.0 && t.2 != t.1 ==> rows_fit(ms[i], t.2))
        },
        None => true,
    }
}

fn method_from_match(m: &MatchData, source: &[u8], idx: (u32, u32, u32), parent: &str) -> (r: Option<StructureItem>)
    requires
        texts_fit(m@, idx.0, source@.len()),
        idx.1 != idx.0 ==> texts_fit(m@, idx.1, source@.len()),
        idx.2 != idx.0 && idx.2 != idx.1 ==> rows_fit(m@, idx.2),
    ensures
        match method_of(m@, source@, idx, parent@) {
            Some(v) => r matches Some(item) && models_leaf(item, v),
            None => r is None,
        },
{
    let (po, pn, pd) = pick_slots(m, idx.0, idx.1, Some(idx.2));
    let owner = match po {
        Some(p) => capture_text_of(source, &m.captures[p]),
        None => String::new(),
    };
    let name = match pn {
        Some(p) => capture_text_of(source, &m.captures[p]),
        None => String::new(),
    };
    if !str_eq(owner.as_str(), parent) || name.as_str().is_empty() {
        return None;
    }
    match pd {
        Some(p) => {
            let c = &m.captures[p];
            Some(StructureItem { name, kind: c.kind.clone(), line: c.start_row + 1, children: Vec::new() })
        },
        None => Some(StructureItem { name, kind: String::new(), line: 0, children: Vec::new() }),
    }
}

/// The methods that the matches of a methods query place in the impl block
/// or class called `parent`, in match order, each without children; none
/// when `idx` is absent (the query lacks one of its captures).
pub fn get_methods(matches: &Vec<MatchData>, source: &[u8], idx: Option<(u32, u32, u32)>, parent: &str) -> (r: Vec<StructureItem>)
    requires
        methods_fit(match_views(matches@), source@.len(), idx),
    ensures
        models_leaves(r@, methods_spec(match_views(matches@), source@, idx, parent@)),
{
    let t = match idx {
        Some(t) => t,
        None => {
            return Vec::new();
        },
    };
    let ghost views = match_views(matches@);
    let mut out: Vec<StructureItem> = Vec::new();
    let mut i: usize = 0;
    while i < matches.len()
        invariant
            i <= matches@.len(),
            idx == Some(t),
            views == match_views(matches@),
            methods_fit(views, source@.len(), idx),
            models_leaves(out@, methods_list(views.take(i as int), source@, t, parent@)),
        decreases matches@.len() - i,
    {
        proof {
            assert(views[i as int] == matches@[i as int]@);
            assert(views.take(i + 1).drop_last() =~= views.take(i as int));
            assert(views.take(i + 1).last() == views[i as int]);
        }
        let found = method_from_match(&matches[i], source, t, parent);
        match found {
            Some(item) => { out.push(item); },
            None => {},
        }
        i = i + 1;
    }
    proof {
        assert(views.take(matches@.len() as int) =~= views);
    }
    out
}

/// The outline entry one match of a symbols query yields: the text of its
/// `name` capture with the kind and one-based start line of its `def`
/// capture. A match whose name is empty yields none.
pub open spec fn entry_of(m: Seq<CaptureView>, source: Seq<u8>, name_idx: u32, def_idx: u32) -> Option<(Seq<char>, Seq<char>, int)> {
    let s = slots(m, name_idx, def_idx, None);
    let name = slot_text(m, source, s.0);
    if name.len() == 0 {
        None
    } else {
        match s.1 {
            Some(d) => Some((name, m[d].kind, m[d].start_row + 1)),
            None => Some((name, Seq::empty(), 0)),
        }
    }
}

/// The kinds of definition that have methods: Rust impl blocks and
/// TypeScript and C# classes.
pub open spec fn holds_methods(kind: Seq<char>) -> bool {
    kind == "impl_item"@ || kind == "class_declaration"@
}

/// The kinds of definition that hold members: Rust modules and C#
/// namespaces.
pub open spec fn holds_members(kind: Seq<char>) -> bool {
    kind == "mod_item"@ || kind == "namespace_declaration"@
}

/// The byte range of a match's `def` capture, if it has one.
pub open spec fn def_range(m: Seq<CaptureView>, name_idx: u32, def_idx: u32) -> Option<(usize, usize)> {
    match slots(m, name_idx, def_idx, None).1 {
        Some(p) => Some((m[p].start_byte, m[p].end_byte)),
        None => None,
    }
}

/// The byte range `r` runs forward, lies inside `outer` and is not `outer`
/// itself.
pub open spec fn strictly_within(r: (usize, usize), outer: (usize, usize)) -> bool {
    outer.0 <= r.0 && r.0 <= r.1 && r.1 <= outer.1 && r != outer
}

/// The match names a module or namespace whose definition strictly
/// contains the byte range `r`.
pub open spec fn container_around(m: Seq<CaptureView>, source: Seq<u8>, name_idx: u32, def_idx: u32, r: (usize, usize)) -> bool {
    &&& entry_of(m, source, name_idx, def_idx) matches Some(e)
    &&& holds_members(e.1)
    &&& def_range(m, name_idx, def_idx) matches Some(o)
    &&& strictly_within(r, o)
}

/// Some module or namespace among the matches contains the byte range `r`.
pub open spec fn enclosed(all: Seq<Seq<CaptureView>>, source: Seq<u8>, name_idx: u32, def_idx: u32, r: (usize, usize)) -> bool {
    exists|k: int| 0 <= k < all.len() && #[trigger] container_around(all[k], source, name_idx, def_idx, r)
}

/// The match names a definition that lies strictly inside `outer` and
/// strictly contains `r`.
pub open spec fn definition_between(m: Seq<CaptureView>, source: Seq<u8>, name_idx: u32, def_idx: u32, r: (usize, usize), outer: (usize, usize)) -> bool {
    &&& entry_of(m, source, name_idx, def_idx) is Some
    &&& def_range(m, name_idx, def_idx) matches Some(o)
    &&& strictly_within(o, outer)
    &&& strictly_within(r, o)
}

/// Some named definition among the matches lies between `r` and `outer`.
pub open spec fn has_between(all: Seq<Seq<CaptureView>>, source: Seq<u8>, name_idx: u32, def_idx: u32, r: (usize, usize), outer: (usize, usize)) -> bool {
    exists|k: int| 0 <= k < all.len() && #[trigger] definition_between(all[k], source, name_idx, def_idx, r, outer)
}

/// The entry and definition range one symbol match yields as a member of a
/// container whose definition spans `outer`: when its definition lies
/// strictly inside `outer` and inside no other named definition that itself
/// lies inside `outer` (a direct member).
pub open spec fn member_of(
    m: Seq<CaptureView>,
    source: Seq<u8>,
    name_idx: u32,
    def_idx: u32,
    outer: (usize, usize),
    all: Seq<Seq<CaptureView>>,
) -> Option<((Seq<char>, Seq<char>, int), (usize, usize))> {
    match (entry_of(m, source, name_idx, def_idx), def_range(m, name_idx, def_idx)) {
        (Some(e), Some(r)) => if strictly_within(r, outer) && !has_between(all, source, name_idx, def_idx, r, outer) {
            Some((e, r))
        } else {
            None
        },
        _ => None,
    }
}

/// The direct members of a container spanning `outer`, in match order,
/// leaving out an entry whose name, kind and line an earlier one already
/// has: impl blocks and classes among them carry their methods, as found
/// among `method_ms`, and modules and namespaces their own direct members.
pub open spec fn members_tree(
    ms: Seq<Seq<CaptureView>>,
    source: Seq<u8>,
    name_idx: u32,
    def_idx: u32,
    method_ms: Seq<Seq<CaptureView>>,
    method_idx: Option<(u32, u32, u32)>,
    outer: (usize, usize),
    all: Seq<Seq<CaptureView>>,
) -> Seq<ItemView>
    decreases outer.1 - outer.0, ms.len(),
{
    if ms.len() == 0 {
        Seq::empty()
    } else {
        let prev = members_tree(ms.drop_last(), source, name_idx, def_idx, method_ms, method_idx, outer, all);
        match member_of(ms.last(), source, name_idx, def_idx, outer, all) {
            Some((e, r)) => if listed(prev, e.0, e.1, e.2) {
                prev
            } else {
                prev.push(ItemView {
                    name: e.0,
                    kind: e.1,
                    line: e.2,
                    children: if holds_methods(e.1) {
                        methods_spec(method_ms, source, method_idx, e.0)
                    } else if holds_members(e.1) {
                        members_tree(all, source, name_idx, def_idx, method_ms, method_idx, r, all)
                    } else {
                        Seq::empty()
                    },
                })
            },
            None => prev,
        }
    }
}

/// The match's definition lies inside a module or namespace, whose members
/// the outline lists under it instead of at the top.
pub open spec fn nested(m: Seq<CaptureView>, source: Seq<u8>, name_idx: u32, def_idx: u32, all: Seq<Seq<CaptureView>>) -> bool {
    def_range(m, name_idx, def_idx) matches Some(r) && enclosed(all, source, name_idx, def_idx, r)
}

/// Some entry among `items` has this name, kind and line.
pub open spec fn listed(items: Seq<ItemView>, name: Seq<char>, kind: Seq<char>, line: int) -> bool {
    exists|j: int| 0 <= j < items.len() && #[trigger] items[j].name == name && items[j].kind == kind && items[j].line == line
}

/// The outline that a sequence of symbol matches yields: one entry per
/// match with a name, in match order, leaving out an entry whose name, kind
/// and line an earlier one already has and an entry that lies inside a
/// module or namespace of `all`; impl blocks and classes carry their
/// methods, as found among `method_ms`, and modules and namespaces carry
/// their direct members, as found among `all`, each with its own children.
pub open spec fn outline_spec(
    ms: Seq<Seq<CaptureView>>,
    source: Seq<u8>,
    name_idx: u32,
    def_idx: u32,
    method_ms: Seq<Seq<CaptureView>>,
    method_idx: Option<(u32, u32, u32)>,
    all: Seq<Seq<CaptureView>>,
) -> Seq<ItemView>
    decreases ms.len(),
{
    if ms.len() == 0 {
        Seq::empty()
    } else {
        let prev = outline_spec(ms.drop_last(), source, name_idx, def_idx, method_ms, method_idx, all);
        match entry_of(ms.last(), source, name_idx, def_idx) {
            Some(e) => if listed(prev, e.0, e.1, e.2) || nested(ms.last(), source, name_idx, def_idx, all) {
                prev
            } else {
                prev.push(ItemView {
                    name: e.0,
                    kind: e.1,
                    line: e.2,
                    children: if holds_methods(e.1) {
                        methods_spec(method_ms, source, method_idx, e.0)
                    } else if holds_members(e.1) && def_range(ms.last(), name_idx, def_idx) is Some {
                        members_tree(all, source, name_idx, def_idx, method_ms, method_idx, def_range(ms.last(), name_idx, def_idx)->Some_0, all)
                    } else {
                        Seq::empty()
                    },
                })
            },
            None => prev,
        }
    }
}

/// Whether an item with this name, kind and line is already in `items`.
fn already_listed(items: &Vec<StructureItem>, name: &String, kind: &String, line: usize, Ghost(vs): Ghost<Seq<ItemView>>) -> (r: bool)
    requires
        models_items(items@, vs),
    ensures
        r == listed(vs, name@, kind@, line as int),
{
    let mut j: usize = 0;
    while j < items.len()
        invariant
            j <= items@.len(),
            models_items(items@, vs),
            forall|k: int| 0 <= k < j ==> !(vs[k].name == name@ && vs[k].kind == kind@ && vs[k].line == line as int),
        decreases items@.len() - j,
    {
        let it = &items[j];
        proof {
            assert(models_item(items@[j as int], vs[j as int]));
        }
        if it.name == *name && it.kind == *kind && it.line == line {
            assert(vs[j as int].name == name@ && vs[j as int].kind == kind@ && vs[j as int].line == line as int);
            return true;
        }
        j = j + 1;
    }
    false
}

/// The name, kind, line and definition range of one symbol match, when it
/// names something.
fn match_entry(m: &MatchData, source: &[u8], name_idx: u32, def_idx: u32) -> (r: Option<(String, String, usize, Option<(usize, usize)>)>)
    requires
        texts_fit(m@, name_idx, source@.len()),
        def_idx != name_idx ==> rows_fit(m@, def_idx),
    ensures
        match entry_of(m@, source@, name_idx, def_idx) {
            Some(e) => r matches Some(t) && t.0@ == e.0 && t.1@ == e.1 && t.2 as int == e.2 && t.3 == def_range(m@, name_idx, def_idx),
            None => r is None,
        },
{
    let (pn, pd, _) = pick_slots(m, name_idx, def_idx, None);
    let name = match pn {
        Some(p) => capture_text_of(source, &m.captures[p]),
        None => String::new(),
    };
    if name.as_str().is_empty() {
        return None;
    }
    match pd {
        Some(p) => {
            let c = &m.captures[p];
            Some((name, c.kind.clone(), c.start_row + 1, Some((c.start_byte, c.end_byte))))
        },
        None => Some((name, String::new(), 0, None)),
    }
}

fn within(r: (usize, usize), outer: (usize, usize)) -> (b: bool)
    ensures
        b == strictly_within(r, outer),
{
    outer.0 <= r.0 && r.0 <= r.1 && r.1 <= outer.1 && !(r.0 == outer.0 && r.1 == outer.1)
}

/// Whether some module or namespace among the matches contains `r`.
pub fn check_enclosed(matches: &Vec<MatchData>, source: &[u8], name_idx: u32, def_idx: u32, r: (usize, usize)) -> (b: bool)
    requires
        crate::tools::list_symbols::symbols_fit(match_views(matches@), source@.len(), name_idx, def_idx),
    ensures
        b == enclosed(match_views(matches@), source@, name_idx, def_idx, r),
{
    let ghost views = match_views(matches@);
    let mut k: usize = 0;
    while k < matches.len()
        invariant
            k <= matches@.len(),
            views == match_views(matches@),
            crate::tools::list_symbols::symbols_fit(views, source@.len(), name_idx, def_idx),
            forall|j: int| 0 <= j < k ==> !#[trigger] container_around(views[j], source@, name_idx, def_idx, r),
        decreases matches@.len() - k,
    {
        let m = &matches[k];
        proof {
            assert(views[k as int] == m@);
        }
        match match_entry(m, source, name_idx, def_idx) {
            Some((_, kind, _, Some(o))) => {
                if (str_eq(kind.as_str(), "mod_item") || str_eq(kind.as_str(), "namespace_declaration")) && within(r, o) {
                    assert(container_around(views[k as int], source@, name_idx, def_idx, r));
                    return true;
                }
            },
            _ => {},
        }
        k = k + 1;
    }
    false
}

/// Whether some named definition among the matches lies strictly inside
/// `outer` and strictly contains `r`.
pub fn check_between(matches: &Vec<MatchData>, source: &[u8], name_idx: u32, def_idx: u32, r: (usize, usize), outer: (usize, usize)) -> (b: bool)
    requires
        crate::tools::list_symbols::symbols_fit(match_views(matches@), source@.len(), name_idx, def_idx),
    ensures
        b == has_between(match_views(matches@), source@, name_idx, def_idx, r, outer),
{
    let ghost views = match_views(matches@);
    let mut k: usize = 0;
    while k < matches.len()
        invariant
            k <= matches@.len(),
            views == match_views(matches@),
            crate::tools::list_symbols::symbols_fit(views, source@.len(), name_idx, def_idx),
            forall|j: int| 0 <= j < k ==> !#[trigger] definition_between(views[j], source@, name_idx, def_idx, r, outer),
        decreases matches@.len() - k,
    {
        let m = &matches[k];
        proof {
            assert(views[k as int] == m@);
        }
        match match_entry(m, source, name_idx, def_idx) {
            Some((_, _, _, Some(o))) => {
                if within(o, outer) && within(r, o) {
                    assert(definition_between(views[k as int], source@, name_idx, def_idx, r, outer));
                    return true;
                }
            },
            _ => {},
        }
        k = k + 1;
    }
    false
}

/// The direct members of a module or namespace whose definition spans
/// `outer`: each named symbol match whose definition lies strictly inside
/// `outer` and inside no other named definition within `outer`, in match
/// order and without repeating a name, kind and line; impl blocks and
/// classes among them carry their methods, modules and namespaces their own
/// direct members.
pub fn get_members(
    matches: &Vec<MatchData>,
    source: &[u8],
    name_idx: u32,
    def_idx: u32,
    method_matches: &Vec<MatchData>,
    method_idx: Option<(u32, u32, u32)>,
    outer: (usize, usize),
) -> (r: Vec<StructureItem>)
    requires
        crate::tools::list_symbols::symbols_fit(match_views(matches@), source@.len(), name_idx, def_idx),
        methods_fit(match_views(method_matches@), source@.len(), method_idx),
    ensures
        models_items(
            r@,
            members_tree(match_views(matches@), source@, name_idx, def_idx, match_views(method_matches@), method_idx, outer, match_views(matches@)),
        ),
    decreases outer.1 - outer.0,
{
    let ghost views = match_views(matches@);
    let ghost mviews = match_views(method_matches@);
    let mut out: Vec<StructureItem> = Vec::new();
    let mut i: usize = 0;
    while i < matches.len()
        invariant
            i <= matches@.len(),
            views == match_views(matches@),
            mviews == match_views(method_matches@),
            crate::tools::list_symbols::symbols_fit(views, source@.len(), name_idx, def_idx),
            methods_fit(mviews, source@.len(), method_idx),
            models_items(out@, members_tree(views.take(i as int), source@, name_idx, def_idx, mviews, method_idx, outer, views)),
        decreases matches@.len() - i,
    {
        proof {
            assert(views[i as int] == matches@[i as int]@);
            assert(views.take(i + 1).drop_last() =~= views.take(i as int));
            assert(views.take(i + 1).last() == views[i as int]);
        }
        let ghost prev = members_tree(views.take(i as int), source@, name_idx, def_idx, mviews, method_idx, outer, views);
        let m = &matches[i];
        match match_entry(m, source, name_idx, def_idx) {
            Some((name, kind, line, Some(r))) => {
                if within(r, outer) && !check_between(matches, source, name_idx, def_idx, r, outer)
                    && !already_listed(&out, &name, &kind, line, Ghost(prev)) {
                    let children = if str_eq(kind.as_str(), "impl_item") || str_eq(kind.as_str(), "class_declaration") {
                        let found = get_methods(method_matches, source, method_idx, name.as_str());
                        proof {
                            crate::types::lemma_leaves_are_items(found@, methods_spec(mviews, source@, method_idx, name@));
                        }
                        found
                    } else if str_eq(kind.as_str(), "mod_item") || str_eq(kind.as_str(), "namespace_declaration") {
                        get_members(matches, source, name_idx, def_idx, method_matches, method_idx, r)
                    } else {
                        Vec::new()
                    };
                    let item = StructureItem { name, kind, line, children };
                    out.push(item);
                    proof {
                        let next = members_tree(views.take(i + 1), source@, name_idx, def_idx, mviews, method_idx, outer, views);
                        assert(models_item(out@[out@.len() - 1], next[next.len() - 1]));
                    }
                }
            },
            _ => {},
        }
        i = i + 1;
    }
    proof {
        assert(views.take(matches@.len() as int) =~= views);
    }
    out
}

/// The outline of a file from the matches of its symbols query and of its
/// methods query: one item per named symbol match, in match order, without
/// repeating a name, kind and line and leaving out what lies inside a module
/// or namespace; impl blocks and classes carry their methods as children,
/// modules and namespaces their direct members, each with its own children.
pub fn structure_from_matches(
    file: String,
    matches: &Vec<MatchData>,
    source: &[u8],
    name_idx: u32,
    def_idx: u32,
    method_matches: &Vec<MatchData>,
    method_idx: Option<(u32, u32, u32)>,
) -> (r: FileStructure)
    requires
        crate::tools::list_symbols::symbols_fit(match_views(matches@), source@.len(), name_idx, def_idx),
        methods_fit(match_views(method_matches@), source@.len(), method_idx),
    ensures
        r.file@ == file@,
        models_items(r.items@, outline_spec(match_views(matches@), source@, name_idx, def_idx, match_views(method_matches@), method_idx, match_views(matches@))),
{
    let ghost views = match_views(matches@);
    let ghost mviews = match_views(method_matches@);
    let mut items: Vec<StructureItem> = Vec::new();
    let mut i: usize = 0;
    while i < matches.len()
        invariant
            i <= matches@.len(),
            views == match_views(matches@),
            mviews == match_views(method_matches@),
            crate::tools::list_symbols::symbols_fit(views, source@.len(), name_idx, def_idx),
            methods_fit(mviews, source@.len(), method_idx),
            models_items(items@, outline_spec(views.take(i as int), source@, name_idx, def_idx, mviews, method_idx, views)),
        decreases matches@.len() - i,
    {
        proof {
            assert(views[i as int] == matches@[i as int]@);
            assert(views.take(i + 1).drop_last() =~= views.take(i as int));
            assert(views.take(i + 1).last() == views[i as int]);
        }
        let ghost prev = outline_spec(views.take(i as int), source@, name_idx, def_idx, mviews, method_idx, views);
        let m = &matches[i];
        match match_entry(m, source, name_idx, def_idx) {
            Some((name, kind, line, span)) => {
                let inside = match span {
                    Some(r) => check_enclosed(matches, source, name_idx, def_idx, r),
                    None => false,
                };
                if !inside && !already_listed(&items, &name, &kind, line, Ghost(prev)) {
                    let children = if str_eq(kind.as_str(), "impl_item") || str_eq(kind.as_str(), "class_declaration") {
                        let found = get_methods(method_matches, source, method_idx, name.as_str());
                        proof {
                            crate::types::lemma_leaves_are_items(found@, methods_spec(mviews, source@, method_idx, name@));
                        }
                        found
                    } else if str_eq(kind.as_str(), "mod_item") || str_eq(kind.as_str(), "namespace_declaration") {
                        match span {
                            Some(r) => get_members(matches, source, name_idx, def_idx, method_matches, method_idx, r),
                            None => Vec::new(),
                        }
                    } else {
                        Vec::new()
                    };
                    let item = StructureItem { name, kind, line, children };
                    items.push(item);
                }
            },
            None => {},
        }
        i = i + 1;
    }
    proof {
        assert(views.take(matches@.len() as int) =~= views);
    }
    FileStructure { file, items }
}

/// Whether every capture that the method extraction reads lies within a
/// source of `len` bytes and has rows that a one-based count can hold.
pub fn check_methods_fit(matches: &Vec<MatchData>, len: usize, idx: Option<(u32, u32, u32)>) -> (r: bool)
    ensures
        r == methods_fit(match_views(matches@), len as nat, idx),
{
    let t = match idx {
        Some(t) => t,
        None => {
            return true;
        },
    };
    let ghost views = match_views(matches@);
    let mut i: usize = 0;
    while i < matches.len()
        invariant
            i <= matches@.len(),
            idx == Some(t),
            views == match_views(matches@),
            forall|k: int| 0 <= k < i ==> {
                &&& texts_fit(#[trigger] views[k], t.0, len as nat)
                &&& (t.1 != t.0 ==> texts_fit(views[k], t.1, len as nat))
                &&& (t.2 != t.0 && t.2 != t.1 ==> rows_fit(views[k], t.2))
            },
        decreases matches@.len() - i,
    {
        let m = &matches[i];
        proof {
            assert(views[i as int] == m@);
        }
        if !check_texts_fit(m, t.0, len) {
            return false;
        }
        if t.1 != t.0 && !check_texts_fit(m, t.1, len) {
            return false;
        }
        if t.2 != t.0 && t.2 != t.1 && !check_rows_fit(m, t.2) {
            return false;
        }
        i = i + 1;
    }
    true
}

/// The capture that names the parent of a method in the methods query of
/// `lang`: `impl_name` for Rust, `class_name` for TypeScript and C#.
pub open spec fn owner_capture(lang: Lang) -> Seq<char> {
    match lang {
        Lang::Rust => "impl_name"@,
        Lang::TypeScript => "class_name"@,
        Lang::CSharp => "class_name"@,
    }
}

/// The indices of the parent's name, `@method_name` and `@method_def` among
/// the captures of a methods query of `lang`; none when one is missing.
pub open spec fn method_indices_of(query: tree_sitter::Query, lang: Lang) -> Option<(u32, u32, u32)> {
    match (
        capture_index_of(query, owner_capture(lang)),
        capture_index_of(query, "method_name"@),
        capture_index_of(query, "method_def"@),
    ) {
        (Some(a), Some(b), Some(c)) => Some((a, b, c)),
        _ => None,
    }
}

/// What outlining gives for the queries of `lang`, a tree and its source:
/// the outline of the symbols query's matches, with methods from the
/// methods query's matches, when the symbols query has `@name` and `@def`
/// and every capture read lies within the source; otherwise the error that
/// says which of these fails.
pub open spec fn outline_result(queries: LangQueries, lang: Lang, tree: tree_sitter::Tree, source: Seq<u8>) -> Result<Seq<ItemView>, ToolError> {
    match (capture_index_of(queries.symbols, "name"@), capture_index_of(queries.symbols, "def"@)) {
        (Some(n), Some(d)) => {
            let ms = query_matches(queries.symbols, tree, source);
            let midx = method_indices_of(queries.impl_methods, lang);
            let mms = if midx is Some { query_matches(queries.impl_methods, tree, source) } else { Seq::empty() };
            if !symbols_fit(ms, source.len(), n, d) {
                Err(ToolError::NodeOutOfRange)
            } else if !methods_fit(mms, source.len(), midx) {
                Err(ToolError::NodeOutOfRange)
            } else {
                Ok(outline_spec(ms, source, n, d, mms, midx, ms))
            }
        },
        (None, _) => Err(ToolError::MissingNameCapture),
        (Some(_), None) => Err(ToolError::MissingDefCapture),
    }
}

/// The capture indices of the methods query of `lang`: the parent's name
/// (`@impl_name` for Rust, `@class_name` for TypeScript and C#), `@method_name` and
/// `@method_def`; none when one is missing.
pub fn method_indices(query: &tree_sitter::Query, lang: Lang) -> (r: Option<(u32, u32, u32)>)
    ensures
        r == method_indices_of(*query, lang),
{
    let owner_label = match lang {
        Lang::Rust => "impl_name",
        Lang::TypeScript => "class_name",
        Lang::CSharp => "class_name",
    };
    let owner = capture_index(query, owner_label);
    let name = capture_index(query, "method_name");
    let def = capture_index(query, "method_def");
    match (owner, name, def) {
        (Some(a), Some(b), Some(c)) => Some((a, b, c)),
        _ => None,
    }
}

/// The outline of the file `file`, whose tree `tree` was parsed from
/// `source`: one item per named symbol that the symbols query of `lang`
/// finds outside every module and namespace, in match order, without
/// repeating a name, kind and line; impl blocks and classes (Rust,
/// TypeScript and C#) carry the methods that the methods query finds in
/// them, and Rust modules and C# namespaces carry their direct members,
/// each with its own children.
pub fn get_file_structure(
    cache: &ParseCache,
    lang: Lang,
    file: &str,
    tree: &tree_sitter::Tree,
    source: &[u8],
) -> (r: Result<FileStructure, ToolError>)
    ensures
        queries_of_lang(cache.queries_for(lang), lang),
        match outline_result(cache.queries_for(lang), lang, *tree, source@) {
            Ok(v) => r matches Ok(fs) && fs.file@ == file@ && models_items(fs.items@, v),
            Err(e) => r == Err::<FileStructure, ToolError>(e),
        },
        r matches Ok(fs) ==> {
            &&& forall|i: int| 0 <= i < fs.items@.len() ==> (#[trigger] fs.items@[i]).name@.len() > 0
            &&& forall|i: int, j: int| 0 <= i < j < fs.items@.len() ==> !(#[trigger] fs.items@[i].name@ == #[trigger] fs.items@[j].name@
                && fs.items@[i].kind@ == fs.items@[j].kind@ && fs.items@[i].line == fs.items@[j].line)
        },
{
    let queries = cache.queries(lang);
    let (name_idx, def_idx) = match name_and_def_indices(&queries.symbols) {
        Ok(ix) => ix,
        Err(e) => {
            return Err(e);
        },
    };
    let mut cursor = new_query_cursor();
    let mut stream = start_matches(&mut cursor, &queries.symbols, tree, source);
    let matches = collect_matches(&mut stream);
    if !check_symbols_fit(&matches, source.len(), name_idx, def_idx) {
        return Err(ToolError::NodeOutOfRange);
    }
    let method_idx = method_indices(&queries.impl_methods, lang);
    let method_matches = match method_idx {
        Some(_) => {
            let mut method_cursor = new_query_cursor();
            let mut method_stream = start_matches(&mut method_cursor, &queries.impl_methods, tree, source);
            collect_matches(&mut method_stream)
        },
        None => Vec::new(),
    };
    assert(match_views(method_matches@) == (if method_idx is Some {
        query_matches(queries.impl_methods, *tree, source@)
    } else {
        Seq::<Seq<CaptureView>>::empty()
    }));
    if !check_methods_fit(&method_matches, source.len(), method_idx) {
        return Err(ToolError::NodeOutOfRange);
    }
    let fs = structure_from_matches(file.to_owned(), &matches, source, name_idx, def_idx, &method_matches, method_idx);
    proof {
        crate::tools::laws::lemma_outline_distinct(match_views(matches@), source@, name_idx, def_idx, match_views(method_matches@), method_idx, match_views(matches@));
        let o = outline_spec(match_views(matches@), source@, name_idx, def_idx, match_views(method_matches@), method_idx, match_views(matches@));
        assert forall|i: int, j: int| 0 <= i < j < fs.items@.len() implies !(#[trigger] fs.items@[i].name@ == #[trigger] fs.items@[j].name@
            && fs.items@[i].kind@ == fs.items@[j].kind@ && fs.items@[i].line == fs.items@[j].line) by {
            assert(models_item(fs.items@[i], o[i]));
            assert(models_item(fs.items@[j], o[j]));
        }
        crate::tools::laws::lemma_outline_named(match_views(matches@), source@, name_idx, def_idx, match_views(method_matches@), method_idx, match_views(matches@));
        assert forall|i: int| 0 <= i < fs.items@.len() implies (#[trigger] fs.items@[i]).name@.len() > 0 by {
            assert(models_item(fs.items@[i], o[i]));
        }
    }
    let res: Result<FileStructure, ToolError> = Ok(fs);
    assert(models_items(res->Ok_0.items@, outline_spec(match_views(matches@), source@, name_idx, def_idx, match_views(method_matches@), method_idx, match_views(matches@))));
    res
}

} // verus!
