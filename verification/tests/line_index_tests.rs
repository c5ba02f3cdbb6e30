use lp_diff::line_index::LineIndex;

#[test]
fn test_line_index_basic() {
    let source = "line1\nline2\nline3\n";
    let idx = LineIndex::new(source);
    // "line1" starts at byte 0 → line 1
    assert_eq!(idx.line_number(0), Some(1));
    // "line2" starts at byte 6 → line 2
    assert_eq!(idx.line_number(6), Some(2));
    // "line3" starts at byte 12 → line 3
    assert_eq!(idx.line_number(12), Some(3));
    // Middle of "line1" → still line 1
    assert_eq!(idx.line_number(3), Some(1));
}

#[test]
fn test_line_index_single_line() {
    let source = "no newlines";
    let idx = LineIndex::new(source);
    assert_eq!(idx.line_number(0), Some(1));
    assert_eq!(idx.line_number(5), Some(1));
}

#[test]
fn line_index_newline_byte_belongs_to_its_line() {
    let idx = LineIndex::new("a\nb");
    assert_eq!(idx.line_number(1), Some(1), "the newline ends line 1");
    assert_eq!(idx.line_number(2), Some(2));
    assert_eq!(idx.line_number(3), Some(2), "the end of the text is on the last line");
    assert_eq!(idx.line_number(4), None, "past the end of the text");
}
