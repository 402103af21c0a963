use code_search_mcp::capture::{CaptureData, MatchData};
use code_search_mcp::lang::Lang;
use code_search_mcp::text::text_of_range;
use code_search_mcp::tools::get_signature::signature_from_matches;

#[test]
fn text_of_range_cuts_and_decodes() {
    let src = b"let x = 1;";
    assert_eq!(text_of_range(src, 4, 5), "x");
    assert_eq!(text_of_range(src, 0, 0), "");
    assert_eq!(text_of_range("é!".as_bytes(), 0, 2), "é");
}

#[test]
fn text_of_invalid_utf8_is_empty() {
    let bad = [b'a', 0xc3, b'b'];
    assert_eq!(text_of_range(&bad, 0, 2), "");
    assert_eq!(text_of_range(&bad, 0, 1), "a");
    assert_eq!(text_of_range(&[0xff, 0x41], 0, 2), "");
}

fn cap(index: u32, start_byte: usize, end_byte: usize) -> CaptureData {
    CaptureData { index, kind: "k".to_string(), start_byte, end_byte, start_row: 0, end_row: 0 }
}

#[test]
fn signature_loses_all_trailing_white_space() {
    let src = "fn f() \t\n\u{3000}{}".as_bytes();
    let body = src.len() - 2;
    let ms = vec![MatchData { captures: vec![cap(0, 3, 4), cap(1, 0, src.len()), cap(2, body, src.len())] }];
    assert_eq!(signature_from_matches(&ms, src, 0, 1, Some(2), "f"), Ok(Some("fn f()".to_string())));
}

#[test]
fn signature_keeps_leading_white_space() {
    let src = b"  x";
    let ms = vec![MatchData { captures: vec![cap(0, 2, 3), cap(1, 0, 3)] }];
    assert_eq!(signature_from_matches(&ms, src, 0, 1, None, "x"), Ok(Some("  x".to_string())));
}

#[test]
fn extension_comparison_is_exact() {
    assert_eq!(Lang::from_extension("rs"), Some(Lang::Rust));
    assert_eq!(Lang::from_extension("rsx"), None);
    assert_eq!(Lang::from_extension("r"), None);
}
