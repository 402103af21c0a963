use code_search_mcp::capture::{CaptureData, MatchData};
use code_search_mcp::error::ToolError;
use code_search_mcp::tools::get_file_structure::{get_methods, structure_from_matches};
use code_search_mcp::tools::get_signature::signature_from_matches;
use code_search_mcp::tools::list_symbols::symbols_from_matches;

fn cap(index: u32, kind: &str, start_byte: usize, end_byte: usize, start_row: usize, end_row: usize) -> CaptureData {
    CaptureData { index, kind: kind.to_string(), start_byte, end_byte, start_row, end_row }
}

fn one(captures: Vec<CaptureData>) -> MatchData {
    MatchData { captures }
}

const SRC: &[u8] = b"fn alpha() {}\nstruct Beta;\n";

fn symbol_matches() -> Vec<MatchData> {
    vec![
        one(vec![cap(1, "function_item", 0, 13, 0, 0), cap(0, "identifier", 3, 8, 0, 0)]),
        one(vec![cap(0, "type_identifier", 21, 25, 1, 1), cap(1, "struct_item", 14, 26, 1, 1)]),
        one(vec![cap(1, "struct_item", 14, 26, 1, 1)]),
        one(vec![cap(0, "type_identifier", 21, 25, 1, 1), cap(1, "struct_item", 14, 26, 1, 1)]),
    ]
}

#[test]
fn symbols_keep_named_matches_in_order() {
    let syms = symbols_from_matches(&symbol_matches(), SRC, 0, 1);
    let got: Vec<(String, String, usize, usize)> =
        syms.into_iter().map(|s| (s.name, s.kind, s.line, s.end_line)).collect();
    assert_eq!(
        got,
        vec![
            ("alpha".to_string(), "function_item".to_string(), 1, 1),
            ("Beta".to_string(), "struct_item".to_string(), 2, 2),
            ("Beta".to_string(), "struct_item".to_string(), 2, 2),
        ]
    );
}

#[test]
fn symbol_without_definition_has_no_kind_or_lines() {
    let ms = vec![one(vec![cap(0, "identifier", 3, 8, 0, 0)])];
    let syms = symbols_from_matches(&ms, SRC, 0, 1);
    assert_eq!(syms.len(), 1);
    assert_eq!(syms[0].name, "alpha");
    assert_eq!(syms[0].kind, "");
    assert_eq!((syms[0].line, syms[0].end_line), (0, 0));
}

#[test]
fn last_name_capture_wins() {
    let ms = vec![one(vec![cap(0, "identifier", 3, 8, 0, 0), cap(0, "type_identifier", 21, 25, 1, 1)])];
    let syms = symbols_from_matches(&ms, SRC, 0, 1);
    assert_eq!(syms[0].name, "Beta");
}

#[test]
fn name_and_def_sharing_an_index_count_as_name() {
    let ms = vec![one(vec![cap(0, "identifier", 3, 8, 0, 0)])];
    let syms = symbols_from_matches(&ms, SRC, 0, 0);
    assert_eq!(syms[0].kind, "");
    assert_eq!(syms[0].line, 0);
}

#[test]
fn outline_drops_repeated_entries() {
    let fs = structure_from_matches("a.rs".to_string(), &symbol_matches(), SRC, 0, 1, &Vec::new(), None);
    assert_eq!(fs.file, "a.rs");
    let got: Vec<(String, String, usize, usize)> =
        fs.items.iter().map(|i| (i.name.clone(), i.kind.clone(), i.line, i.children.len())).collect();
    assert_eq!(
        got,
        vec![
            ("alpha".to_string(), "function_item".to_string(), 1, 0),
            ("Beta".to_string(), "struct_item".to_string(), 2, 0),
        ]
    );
}

// "impl S { fn a() {} }\nimpl T { fn b() {} }\n"
const IMPLS: &[u8] = b"impl S { fn a() {} }\nimpl T { fn b() {} }\n";

fn method_matches() -> Vec<MatchData> {
    vec![
        one(vec![cap(0, "type_identifier", 5, 6, 0, 0), cap(2, "function_item", 9, 18, 0, 0), cap(1, "identifier", 12, 13, 0, 0)]),
        one(vec![cap(0, "type_identifier", 26, 27, 1, 1), cap(2, "function_item", 30, 39, 1, 1), cap(1, "identifier", 33, 34, 1, 1)]),
    ]
}

#[test]
fn methods_belong_to_their_parent() {
    let ms = method_matches();
    let s = get_methods(&ms, IMPLS, Some((0, 1, 2)), "S");
    assert_eq!(s.len(), 1);
    assert_eq!((s[0].name.as_str(), s[0].kind.as_str(), s[0].line), ("a", "function_item", 1));
    assert!(s[0].children.is_empty());
    let t = get_methods(&ms, IMPLS, Some((0, 1, 2)), "T");
    assert_eq!((t[0].name.as_str(), t[0].line), ("b", 2));
    assert!(get_methods(&ms, IMPLS, Some((0, 1, 2)), "U").is_empty());
    assert!(get_methods(&ms, IMPLS, None, "S").is_empty());
}

#[test]
fn impl_entries_carry_their_methods() {
    let symbols = vec![
        one(vec![cap(1, "impl_item", 0, 20, 0, 0), cap(0, "type_identifier", 5, 6, 0, 0)]),
        one(vec![cap(1, "function_item", 9, 18, 0, 0), cap(0, "identifier", 12, 13, 0, 0)]),
    ];
    let fs = structure_from_matches("b.rs".to_string(), &symbols, IMPLS, 0, 1, &method_matches(), Some((0, 1, 2)));
    assert_eq!(fs.items.len(), 2);
    assert_eq!(fs.items[0].name, "S");
    assert_eq!(fs.items[0].children.len(), 1);
    assert_eq!(fs.items[0].children[0].name, "a");
    assert!(fs.items[1].children.is_empty());
}

fn definition_matches() -> Vec<MatchData> {
    vec![
        one(vec![cap(1, "function_item", 0, 13, 0, 0), cap(0, "identifier", 3, 8, 0, 0), cap(2, "block", 11, 13, 0, 0)]),
        one(vec![cap(1, "struct_item", 14, 26, 1, 1), cap(0, "type_identifier", 21, 25, 1, 1)]),
    ]
}

#[test]
fn signature_stops_at_the_body() {
    let r = signature_from_matches(&definition_matches(), SRC, 0, 1, Some(2), "alpha");
    assert_eq!(r, Ok(Some("fn alpha()".to_string())));
}

#[test]
fn signature_without_body_is_whole_definition() {
    let r = signature_from_matches(&definition_matches(), SRC, 0, 1, Some(2), "Beta");
    assert_eq!(r, Ok(Some("struct Beta;".to_string())));
    let whole = signature_from_matches(&definition_matches(), SRC, 0, 1, None, "alpha");
    assert_eq!(whole, Ok(Some("fn alpha() {}".to_string())));
}

#[test]
fn signature_of_unknown_symbol_is_none() {
    assert_eq!(signature_from_matches(&definition_matches(), SRC, 0, 1, Some(2), "gamma"), Ok(None));
}

#[test]
fn signature_rejects_nodes_outside_the_source() {
    let ms = vec![one(vec![cap(0, "identifier", 3, 99, 0, 0)])];
    assert_eq!(signature_from_matches(&ms, SRC, 0, 1, None, "alpha"), Err(ToolError::NodeOutOfRange));
    let inverted = vec![one(vec![cap(1, "function_item", 12, 13, 0, 0), cap(0, "identifier", 3, 8, 0, 0), cap(2, "block", 11, 13, 0, 0)])];
    assert_eq!(signature_from_matches(&inverted, SRC, 0, 1, Some(2), "alpha"), Err(ToolError::NodeOutOfRange));
}

#[test]
fn first_match_with_the_name_is_taken() {
    let ms = vec![
        one(vec![cap(1, "struct_item", 14, 26, 1, 1), cap(0, "type_identifier", 21, 25, 1, 1)]),
        one(vec![cap(1, "struct_item", 14, 20, 1, 1), cap(0, "type_identifier", 21, 25, 1, 1)]),
    ];
    assert_eq!(signature_from_matches(&ms, SRC, 0, 1, None, "Beta"), Ok(Some("struct Beta;".to_string())));
}
