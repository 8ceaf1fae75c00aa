use rhai_learning::doc::parse_doc;

#[test]
fn doc_description_and_note() {
    let text = "# Title\n\nFirst line here.\nMore text\nNOTE:  be careful \nnote: second";
    let (description, note) = parse_doc(text);
    assert_eq!(description, "First line here.");
    assert_eq!(note, Some("be careful".to_string()));
}

#[test]
fn doc_empty_text() {
    let (description, note) = parse_doc("");
    assert_eq!(description, "");
    assert_eq!(note, None);
}

#[test]
fn doc_headings_and_blanks_only() {
    let (description, note) = parse_doc("# One\n\n   \n## Two\n");
    assert_eq!(description, "");
    assert_eq!(note, None);
}

#[test]
fn doc_first_line_is_description_even_if_note() {
    let (description, note) = parse_doc("Note: first\nplain\n");
    assert_eq!(description, "Note: first");
    assert_eq!(note, None);
}

#[test]
fn doc_crlf_and_indented_lines() {
    let (description, note) = parse_doc("  # heading\r\n\t hello there \r\n  nOtE:\tx y\r\n");
    assert_eq!(description, "hello there");
    assert_eq!(note, Some("x y".to_string()));
}

#[test]
fn doc_empty_note() {
    let (description, note) = parse_doc("desc\nnote:");
    assert_eq!(description, "desc");
    assert_eq!(note, Some(String::new()));
}

#[test]
fn doc_stops_at_first_note() {
    let (_, note) = parse_doc("desc\nnotes are not notes\nNote: one\nNote: two\n");
    assert_eq!(note, Some("one".to_string()));
}

#[test]
fn doc_unicode_whitespace_trimmed() {
    let (description, _) = parse_doc("\u{3000}wide\u{a0}\n");
    assert_eq!(description, "wide");
}
