use hecto::Row;

#[test]
fn from_counts_graphemes_not_scalars() {
    let row = Row::from("e\u{301}x");
    assert_eq!(row.len(), 2);
    assert_eq!(row.as_str(), "e\u{301}x");
    assert!(!row.is_empty());
}

#[test]
fn default_row_is_empty() {
    let row = Row::default();
    assert_eq!(row.len(), 0);
    assert!(row.is_empty());
    assert_eq!(row.as_str(), "");
    assert_eq!(row.as_bytes(), b"");
}

#[test]
fn as_bytes_is_utf8_of_text() {
    let row = Row::from("h\u{e9}");
    assert_eq!(row.as_bytes(), &[b'h', 0xc3, 0xa9]);
}

#[test]
fn insert_in_front_of_a_grapheme() {
    let mut row = Row::from("abc");
    row.insert(1, 'X');
    assert_eq!(row.as_str(), "aXbc");
    assert_eq!(row.len(), 4);
}

#[test]
fn insert_beyond_the_end_appends() {
    let mut row = Row::from("abc");
    row.insert(3, 'd');
    assert_eq!(row.as_str(), "abcd");
    row.insert(100, 'e');
    assert_eq!(row.as_str(), "abcde");
    assert_eq!(row.len(), 5);
}

#[test]
fn insert_keeps_clusters_whole() {
    let mut row = Row::from("e\u{301}\u{1f1f7}\u{1f1fa}z");
    assert_eq!(row.len(), 3);
    row.insert(1, '-');
    assert_eq!(row.as_str(), "e\u{301}-\u{1f1f7}\u{1f1fa}z");
    assert_eq!(row.len(), 4);
}

#[test]
fn insert_of_a_combining_mark_recounts() {
    let mut row = Row::from("ab");
    row.insert(1, '\u{301}');
    assert_eq!(row.as_str(), "a\u{301}b");
    assert_eq!(row.len(), 2);
    let mut row = Row::from("e");
    row.insert(1, '\u{301}');
    assert_eq!(row.as_str(), "e\u{301}");
    assert_eq!(row.len(), 1);
}

#[test]
fn delete_removes_a_whole_cluster() {
    let mut row = Row::from("ae\u{301}b");
    row.delete(1);
    assert_eq!(row.as_str(), "ab");
    assert_eq!(row.len(), 2);
}

#[test]
fn delete_beyond_the_end_does_nothing() {
    let mut row = Row::from("abc");
    row.delete(3);
    assert_eq!(row.as_str(), "abc");
    assert_eq!(row.len(), 3);
    row.delete(usize::MAX);
    assert_eq!(row.as_str(), "abc");
}

#[test]
fn delete_recounts_when_neighbours_join() {
    let mut row = Row::from("\u{1f1f7}x\u{1f1fa}");
    assert_eq!(row.len(), 3);
    row.delete(1);
    assert_eq!(row.as_str(), "\u{1f1f7}\u{1f1fa}");
    assert_eq!(row.len(), 1);
}

#[test]
fn insert_then_delete_is_identity_with_clusters() {
    let text = "a\u{310}e\u{301}o\u{308}\u{332}\u{1f1f7}\u{1f1fa}";
    let mut at = 0;
    while at <= 4 {
        let mut row = Row::from(text);
        let before = row.len();
        row.insert(at, 'x');
        assert_eq!(row.len(), before + 1);
        row.delete(at);
        assert_eq!(row.as_str(), text);
        assert_eq!(row.len(), before);
        at += 1;
    }
}

#[test]
fn split_then_append_gives_the_line_back() {
    let text = "he\u{301}llo \u{1f1f7}\u{1f1fa} w";
    let mut at = 0;
    while at <= 12 {
        let mut row = Row::from(text);
        let rest = row.split(at);
        row.append(&rest);
        assert_eq!(row.as_str(), text);
        assert_eq!(row.len(), 9);
        at += 1;
    }
}

#[test]
fn split_cuts_between_graphemes() {
    let mut row = Row::from("ae\u{301}bc");
    let rest = row.split(2);
    assert_eq!(row.as_str(), "ae\u{301}");
    assert_eq!(row.len(), 2);
    assert_eq!(rest.as_str(), "bc");
    assert_eq!(rest.len(), 2);
}

#[test]
fn split_at_the_ends() {
    let mut row = Row::from("abc");
    let rest = row.split(0);
    assert_eq!(row.as_str(), "");
    assert_eq!(row.len(), 0);
    assert_eq!(rest.as_str(), "abc");
    let mut row = Row::from("abc");
    let rest = row.split(7);
    assert_eq!(row.as_str(), "abc");
    assert_eq!(rest.as_str(), "");
    assert_eq!(rest.len(), 0);
}

#[test]
fn append_joins_and_recounts() {
    let mut row = Row::from("ab");
    row.append(&Row::from("cd"));
    assert_eq!(row.as_str(), "abcd");
    assert_eq!(row.len(), 4);
    let mut row = Row::from("e");
    row.append(&Row::from("\u{301}"));
    assert_eq!(row.as_str(), "e\u{301}");
    assert_eq!(row.len(), 1);
}

#[test]
fn render_expands_tabs_to_four_columns() {
    let row = Row::from("a\tb");
    assert_eq!(row.render(0, 3), "a    b");
    assert_eq!(row.render(1, 2), "    ");
}

#[test]
fn render_takes_a_window_of_graphemes() {
    let row = Row::from("he\u{301}llo");
    assert_eq!(row.render(1, 3), "e\u{301}l");
    assert_eq!(row.render(0, 5), "he\u{301}llo");
}

#[test]
fn render_clamps_its_bounds() {
    let row = Row::from("abc");
    assert_eq!(row.render(0, 100), "abc");
    assert_eq!(row.render(2, usize::MAX), "c");
    assert_eq!(row.render(5, 9), "");
    assert_eq!(row.render(2, 1), "");
    assert_eq!(Row::default().render(0, 10), "");
}

#[test]
fn find_gives_the_grapheme_position() {
    let row = Row::from("e\u{301}e\u{301} wor wor");
    assert_eq!(row.find("wor", 0), Some(3));
    assert_eq!(row.find("wor", 3), Some(3));
    assert_eq!(row.find("wor", 4), Some(7));
    assert_eq!(row.find("wor", 8), None);
    assert_eq!(row.find("xyz", 0), None);
}

#[test]
fn find_of_an_empty_query_is_none() {
    let row = Row::from("abc");
    assert_eq!(row.find("", 0), None);
}

#[test]
fn find_is_case_sensitive() {
    let row = Row::from("Word word");
    assert_eq!(row.find("word", 0), Some(5));
    assert_eq!(row.find("WORD", 0), None);
}

#[test]
fn find_beyond_the_line_is_none() {
    let row = Row::from("abc");
    assert_eq!(row.find("a", 3), None);
    assert_eq!(row.find("c", 2), Some(2));
    assert_eq!(row.find("c", 100), None);
}

#[test]
fn peek_white_stops_at_white_space() {
    let row = Row::from("foo bar");
    assert_eq!(row.peek_white(0), 3);
    assert_eq!(row.peek_white(3), 3);
    assert_eq!(row.peek_white(4), 7);
    assert_eq!(row.peek_white(7), 7);
    assert_eq!(row.peek_white(9), 9);
    let row = Row::from("a\u{a0}b\tc");
    assert_eq!(row.peek_white(0), 1);
    assert_eq!(row.peek_white(2), 3);
}

#[test]
fn peek_alpha_skips_what_is_not_alphabetic() {
    let row = Row::from("  12 \u{e9}t\u{e9}");
    assert_eq!(row.peek_alpha(0), 5);
    assert_eq!(row.peek_alpha(5), 5);
    let row = Row::from("123");
    assert_eq!(row.peek_alpha(0), 3);
    assert_eq!(row.peek_alpha(4), 4);
    assert_eq!(Row::default().peek_alpha(0), 0);
}

#[test]
fn a_new_row_has_no_highlighting() {
    let row = Row::from("let x = 1;");
    assert!(!row.is_highlighted());
    assert!(row.highlighting().is_empty());
}
