//! Tests of the text store: line addressing, edits, and search.

use vibevim::buffer::Buffer;

fn lines_of(b: &Buffer) -> Vec<String> {
    let mut out = Vec::new();
    let mut i = 0;
    while i < b.line_count() {
        let cs = b.line_chars(i);
        out.push(cs.into_iter().collect());
        i += 1;
    }
    out
}

#[test]
fn empty_buffer_has_one_empty_line() {
    let b = Buffer::new();
    assert_eq!(b.line_count(), 1);
    assert_eq!(b.line_len(0), 0);
    assert!(b.is_empty());
    assert!(!b.modified);
    assert!(b.file_path.is_none());
}

#[test]
fn line_lengths_match_independent_split() {
    let b = Buffer::from_content("foo\nbar\nfoo\n", None);
    let expected: Vec<&str> = vec!["foo", "bar", "foo", ""];
    assert_eq!(b.line_count(), expected.len());
    for (i, e) in expected.iter().enumerate() {
        assert_eq!(b.line_len(i), e.len());
    }
    assert_eq!(lines_of(&b), expected);
}

#[test]
fn line_len_out_of_range_is_zero() {
    let b = Buffer::from_content("ab", None);
    assert_eq!(b.line_len(5), 0);
    assert!(b.line(5).is_none());
}

#[test]
fn insert_char_grows_line_and_sets_modified() {
    let mut b = Buffer::from_content("ac", None);
    b.insert_char(0, 1, 'b');
    assert_eq!(b.content(), "abc");
    assert!(b.modified);
}

#[test]
fn insert_newline_splits_line() {
    let mut b = Buffer::from_content("abcd", None);
    b.insert_newline(0, 2);
    assert_eq!(b.content(), "ab\ncd");
    assert_eq!(b.line_count(), 2);
    assert_eq!(b.line_len(0), 2);
    assert_eq!(b.line_len(1), 2);
}

#[test]
fn delete_char_inside_line() {
    let mut b = Buffer::from_content("abc\ndef", None);
    b.delete_char(0, 1);
    assert_eq!(b.content(), "ac\ndef");
}

#[test]
fn delete_char_at_line_end_joins_lines() {
    let mut b = Buffer::from_content("ab\ncd", None);
    b.delete_char(0, 2);
    assert_eq!(b.content(), "abcd");
    assert_eq!(b.line_count(), 1);
}

#[test]
fn delete_char_past_last_line_end_is_noop() {
    let mut b = Buffer::from_content("ab", None);
    b.delete_char(0, 2);
    assert_eq!(b.content(), "ab");
    assert!(!b.modified);
}

#[test]
fn delete_char_before_inside_line() {
    let mut b = Buffer::from_content("abc", None);
    let r = b.delete_char_before(0, 2);
    assert_eq!(r, Some((0, 1)));
    assert_eq!(b.content(), "ac");
}

#[test]
fn delete_char_before_at_line_start_joins() {
    let mut b = Buffer::from_content("ab\ncd", None);
    let r = b.delete_char_before(1, 0);
    assert_eq!(r, Some((0, 2)));
    assert_eq!(b.content(), "abcd");
}

#[test]
fn delete_char_before_at_origin_is_noop() {
    let mut b = Buffer::from_content("ab", None);
    let r = b.delete_char_before(0, 0);
    assert_eq!(r, None);
    assert_eq!(b.content(), "ab");
    assert!(!b.modified);
}

#[test]
fn content_round_trip_is_identical_and_unmodified() {
    let mut b = Buffer::from_content("alpha\nbeta\n", None);
    b.insert_char(1, 4, '!');
    let text = b.content();
    let reloaded = Buffer::from_content(text.as_str(), Some(String::from("somewhere")));
    assert_eq!(reloaded.content(), text);
    assert!(!reloaded.modified);
}

#[test]
fn find_forward_skips_current_position() {
    let b = Buffer::from_content("foo\nbar\nfoo\n", None);
    assert_eq!(b.find_forward(0, 0, "foo", true), Some((2, 0)));
}

#[test]
fn find_forward_wraps_to_start() {
    let b = Buffer::from_content("foo\nbar\nfoo\n", None);
    assert_eq!(b.find_forward(2, 0, "foo", true), Some((0, 0)));
    assert_eq!(b.find_forward(2, 0, "foo", false), None);
}

#[test]
fn find_forward_empty_pattern_never_matches() {
    let b = Buffer::from_content("foo", None);
    assert_eq!(b.find_forward(0, 0, "", true), None);
    assert_eq!(b.find_backward(0, 0, "", true), None);
}

#[test]
fn find_forward_within_line() {
    let b = Buffer::from_content("abab", None);
    assert_eq!(b.find_forward(0, 0, "ab", true), Some((0, 2)));
    assert_eq!(b.find_forward(0, 2, "ab", true), Some((0, 0)));
}

#[test]
fn find_backward_finds_previous_occurrence() {
    let b = Buffer::from_content("foo\nbar\nfoo\n", None);
    assert_eq!(b.find_backward(2, 0, "foo", true), Some((0, 0)));
    assert_eq!(b.find_backward(0, 0, "foo", false), None);
}

#[test]
fn find_backward_wraps_to_end() {
    let b = Buffer::from_content("foo\nbar\nfoo\n", None);
    assert_eq!(b.find_backward(0, 0, "foo", true), Some((2, 0)));
}

#[test]
fn find_does_not_match_across_lines() {
    let b = Buffer::from_content("ab\ncd", None);
    assert_eq!(b.find_forward(0, 0, "b\nc", true), None);
    assert_eq!(b.find_forward(0, 0, "bc", true), None);
}

#[test]
fn search_round_trip_returns_at_or_before_start() {
    let b = Buffer::from_content("xx foo yy foo zz", None);
    // An occurrence lies at or before the start position (0, 3).
    let hit = b.find_forward(0, 3, "foo", true).unwrap();
    let back = b.find_backward(hit.0, hit.1, "foo", true).unwrap();
    assert!(back.0 < 0 + 1 && back.1 <= 3);
}

#[test]
fn filename_takes_last_path_component() {
    let b = Buffer::from_content("", Some(String::from("/tmp/dir/note.txt")));
    assert_eq!(b.filename(), Some(String::from("note.txt")));
    let plain = Buffer::from_content("", Some(String::from("note.txt")));
    assert_eq!(plain.filename(), Some(String::from("note.txt")));
    let none = Buffer::new();
    assert_eq!(none.filename(), None);
}

#[test]
fn pattern_longer_than_line_never_matches() {
    let b = Buffer::from_content("ab\ncd", None);
    assert_eq!(b.find_forward(0, 0, "abcd", true), None);
}

#[test]
fn crlf_carriage_returns_stay_in_line_content() {
    let b = Buffer::from_content("ab\r\ncd", None);
    assert_eq!(b.line_count(), 2);
    assert_eq!(b.line_len(0), 3);
    assert_eq!(b.line_len(1), 2);
}

#[test]
fn delete_char_on_out_of_range_line_is_noop() {
    let mut b = Buffer::from_content("ab", None);
    b.delete_char(7, 0);
    assert_eq!(b.content(), "ab");
    assert!(!b.modified);
}

#[test]
fn find_from_out_of_range_line_scans_with_wrap_only() {
    let b = Buffer::from_content("foo\nbar", None);
    // Nothing lies after a start position beyond the buffer...
    assert_eq!(b.find_forward(9, 0, "foo", false), None);
    // ...but the wrap pass still covers the whole buffer.
    assert_eq!(b.find_forward(9, 0, "foo", true), Some((0, 0)));
    // Backward, everything lies before such a start position.
    assert_eq!(b.find_backward(9, 0, "bar", false), Some((1, 0)));
}
