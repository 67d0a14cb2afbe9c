use hecto::highlighting::Type;
use hecto::{Document, Position};

fn doc_of(lines: &[&str]) -> Document {
    let mut text = String::new();
    for line in lines {
        text.push_str(line);
        text.push('\n');
    }
    Document::open("test.txt", &text)
}

fn rust_doc_of(lines: &[&str]) -> Document {
    let mut text = String::new();
    for line in lines {
        text.push_str(line);
        text.push('\n');
    }
    Document::open("test.rs", &text)
}

fn lines_of(doc: &Document) -> Vec<String> {
    let mut out = Vec::new();
    let mut i = 0;
    while let Some(row) = doc.row(i) {
        out.push(row.as_str().to_string());
        i += 1;
    }
    assert_eq!(i, doc.len());
    out
}

fn at(x: usize, y: usize) -> Position {
    Position { x, y }
}

#[test]
fn default_document_is_empty_and_clean() {
    let doc = Document::default();
    assert!(doc.is_empty());
    assert_eq!(doc.len(), 0);
    assert!(!doc.is_dirty());
    assert!(doc.file_name.is_none());
    assert_eq!(doc.file_type(), "No filetype");
    assert!(doc.row(0).is_none());
}

#[test]
fn open_splits_on_newlines() {
    let doc = Document::open("a.txt", "abc\ndef\n");
    assert_eq!(lines_of(&doc), vec!["abc", "def"]);
    assert!(!doc.is_dirty());
    assert_eq!(doc.file_name, Some("a.txt".to_string()));
    assert_eq!(doc.file_type(), "No filetype");
}

#[test]
fn open_takes_a_last_line_without_newline() {
    let doc = Document::open("a.txt", "abc\ndef");
    assert_eq!(lines_of(&doc), vec!["abc", "def"]);
}

#[test]
fn open_keeps_empty_lines() {
    let doc = Document::open("a.txt", "\n\nx\n\n");
    assert_eq!(lines_of(&doc), vec!["", "", "x", ""]);
    let doc = Document::open("a.txt", "");
    assert!(doc.is_empty());
    let doc = Document::open("a.txt", "\n");
    assert_eq!(lines_of(&doc), vec![""]);
}

#[test]
fn open_drops_the_carriage_return_before_a_newline() {
    let doc = Document::open("a.txt", "ab\r\ncd\r\n");
    assert_eq!(lines_of(&doc), vec!["ab", "cd"]);
    let doc = Document::open("a.txt", "a\rb\r\r\nc\r");
    assert_eq!(lines_of(&doc), vec!["a\rb\r", "c\r"]);
}

#[test]
fn open_agrees_with_std_lines() {
    let samples = [
        "", "\n", "a", "a\n", "a\nb", "a\r\nb\r\n", "\r\n", "a\r", "\r", "x\n\ny", "a\r\r\n",
    ];
    for sample in samples {
        let doc = Document::open("s", sample);
        let expected: Vec<String> = sample.lines().map(|l| l.to_string()).collect();
        assert_eq!(lines_of(&doc), expected);
    }
}

#[test]
fn open_derives_the_file_type() {
    let doc = Document::open("lib.rs", "fn main() {}\n");
    assert_eq!(doc.file_type(), "Rust");
}

#[test]
fn contents_ends_every_line_with_a_newline() {
    let doc = Document::open("a.txt", "abc\ndef");
    assert_eq!(doc.contents(), "abc\ndef\n");
    assert_eq!(Document::default().contents(), "");
    assert_eq!(doc_of(&["", "x"]).contents(), "\nx\n");
}

#[test]
fn save_clears_dirty_after_a_write_that_went_well() {
    let mut doc = doc_of(&["abc"]);
    doc.insert(&at(0, 0), 'x');
    assert!(doc.is_dirty());
    doc.save(false);
    assert!(doc.is_dirty());
    doc.save(true);
    assert!(!doc.is_dirty());
    assert_eq!(lines_of(&doc), vec!["xabc"]);
}

#[test]
fn save_derives_the_file_type_from_the_name() {
    let mut doc = doc_of(&["abc"]);
    assert_eq!(doc.file_type(), "No filetype");
    doc.file_name = Some("now.rs".to_string());
    doc.save(false);
    assert_eq!(doc.file_type(), "No filetype");
    doc.save(true);
    assert_eq!(doc.file_type(), "Rust");
}

#[test]
fn save_without_a_file_name_changes_nothing() {
    let mut doc = Document::default();
    doc.insert(&at(0, 0), 'x');
    doc.save(true);
    assert!(doc.is_dirty());
    assert_eq!(doc.file_type(), "No filetype");
}

#[test]
fn insert_newline_splits_the_line() {
    let mut doc = doc_of(&["abc", "def"]);
    assert!(!doc.is_dirty());
    doc.insert(&at(1, 0), '\n');
    assert_eq!(lines_of(&doc), vec!["a", "bc", "def"]);
    assert!(doc.is_dirty());
}

#[test]
fn insert_newline_past_the_last_line_adds_an_empty_line() {
    let mut doc = doc_of(&["abc"]);
    doc.insert(&at(0, 1), '\n');
    assert_eq!(lines_of(&doc), vec!["abc", ""]);
    assert!(doc.is_dirty());
}

#[test]
fn insert_newline_at_the_ends_of_a_line() {
    let mut doc = doc_of(&["abc"]);
    doc.insert(&at(0, 0), '\n');
    assert_eq!(lines_of(&doc), vec!["", "abc"]);
    doc.insert(&at(9, 1), '\n');
    assert_eq!(lines_of(&doc), vec!["", "abc", ""]);
}

#[test]
fn insert_character_in_place() {
    let mut doc = doc_of(&["abc", "def"]);
    doc.insert(&at(1, 1), 'X');
    assert_eq!(lines_of(&doc), vec!["abc", "dXef"]);
    doc.insert(&at(50, 0), '!');
    assert_eq!(lines_of(&doc), vec!["abc!", "dXef"]);
    assert!(doc.is_dirty());
}

#[test]
fn insert_character_past_the_last_line_adds_a_line() {
    let mut doc = doc_of(&["abc"]);
    doc.insert(&at(0, 1), 'z');
    assert_eq!(lines_of(&doc), vec!["abc", "z"]);
    let mut doc = Document::default();
    doc.insert(&at(7, 0), 'q');
    assert_eq!(lines_of(&doc), vec!["q"]);
    assert!(doc.is_dirty());
}

#[test]
fn insert_beyond_the_buffer_does_nothing() {
    let mut doc = doc_of(&["abc"]);
    doc.insert(&at(0, 2), 'z');
    assert_eq!(lines_of(&doc), vec!["abc"]);
    assert!(!doc.is_dirty());
    doc.insert(&at(0, usize::MAX), '\n');
    assert_eq!(lines_of(&doc), vec!["abc"]);
    assert!(!doc.is_dirty());
}

#[test]
fn delete_in_place() {
    let mut doc = doc_of(&["hello world"]);
    doc.delete(&at(5, 0));
    assert_eq!(lines_of(&doc), vec!["helloworld"]);
    assert!(doc.is_dirty());
}

#[test]
fn delete_at_the_end_of_a_line_joins_the_next() {
    let mut doc = doc_of(&["abc", "def", "ghi"]);
    doc.delete(&at(3, 0));
    assert_eq!(lines_of(&doc), vec!["abcdef", "ghi"]);
    assert_eq!(doc.len(), 2);
    assert_eq!(doc.row(0).unwrap().len(), 6);
}

#[test]
fn delete_at_the_end_of_the_last_line_changes_no_text() {
    let mut doc = doc_of(&["abc", "def"]);
    doc.delete(&at(3, 1));
    assert_eq!(lines_of(&doc), vec!["abc", "def"]);
    assert!(doc.is_dirty());
}

#[test]
fn delete_beyond_the_buffer_does_nothing() {
    let mut doc = doc_of(&["abc"]);
    doc.delete(&at(0, 1));
    assert_eq!(lines_of(&doc), vec!["abc"]);
    assert!(!doc.is_dirty());
    let mut doc = Document::default();
    doc.delete(&at(0, 0));
    assert!(doc.is_empty());
    assert!(!doc.is_dirty());
}

#[test]
fn delete_takes_a_whole_grapheme() {
    let mut doc = doc_of(&["ae\u{301}b"]);
    doc.delete(&at(1, 0));
    assert_eq!(lines_of(&doc), vec!["ab"]);
}

#[test]
fn find_from_a_position() {
    let doc = doc_of(&["foo bar", "wor wor", "baz"]);
    assert_eq!(doc.find("wor", &at(0, 0)), Some(at(0, 1)));
    assert_eq!(doc.find("wor", &at(0, 1)), Some(at(0, 1)));
    assert_eq!(doc.find("wor", &at(1, 1)), Some(at(4, 1)));
    assert_eq!(doc.find("wor", &at(5, 1)), None);
    assert_eq!(doc.find("wor", &at(0, 2)), None);
}

#[test]
fn find_starts_later_lines_at_column_zero() {
    let doc = doc_of(&["ab", "ab"]);
    assert_eq!(doc.find("a", &at(1, 0)), Some(at(0, 1)));
    assert_eq!(doc.find("b", &at(1, 0)), Some(at(1, 0)));
}

#[test]
fn find_does_not_wrap_around() {
    let doc = doc_of(&["needle", "hay"]);
    assert_eq!(doc.find("needle", &at(0, 1)), None);
    assert_eq!(doc.find("needle", &at(1, 0)), None);
    assert_eq!(doc.find("hay", &at(0, 5)), None);
}

#[test]
fn find_of_an_empty_query_finds_nothing() {
    let doc = doc_of(&["abc"]);
    assert_eq!(doc.find("", &at(0, 0)), None);
    assert!(doc.find_all("").is_empty());
}

#[test]
fn find_all_gives_one_match_per_line() {
    let doc = doc_of(&["foo bar", "wor wor", "baz"]);
    assert_eq!(doc.find_all("wor"), vec![at(0, 1)]);
    assert_eq!(doc.find_all("ba"), vec![at(4, 0), at(0, 2)]);
    assert!(doc.find_all("nothing").is_empty());
}

#[test]
fn find_all_columns_point_at_the_query() {
    let doc = doc_of(&["e\u{301}e\u{301}xy", "", "xy", "a xy xy"]);
    let results = doc.find_all("xy");
    assert_eq!(results, vec![at(2, 0), at(0, 2), at(2, 3)]);
    for p in results {
        let row = doc.row(p.y).unwrap();
        assert_eq!(row.render(p.x, p.x + 2), "xy");
    }
}

#[test]
fn highlight_threads_the_carry_through_the_lines() {
    let mut doc = rust_doc_of(&["a /* b", "c", "d */ 1", "2"]);
    doc.highlight(&None, None);
    let kinds = |i: usize| doc.row(i).unwrap().highlighting().clone();
    let comment = Type::MultilineComment;
    assert_eq!(
        kinds(0),
        vec![Type::Plain, Type::Plain, comment, comment, comment, comment]
    );
    assert_eq!(kinds(1), vec![Type::MultilineComment]);
    assert_eq!(
        kinds(2),
        vec![comment, comment, comment, comment, Type::Plain, Type::Number]
    );
    assert_eq!(kinds(3), vec![Type::Number]);
    for i in 0..4 {
        assert!(doc.row(i).unwrap().is_highlighted());
    }
}

#[test]
fn highlight_stops_behind_the_named_line() {
    let mut doc = rust_doc_of(&["1", "2", "3", "4"]);
    doc.highlight(&None, Some(1));
    assert!(doc.row(0).unwrap().is_highlighted());
    assert!(doc.row(1).unwrap().is_highlighted());
    assert!(!doc.row(2).unwrap().is_highlighted());
    assert!(!doc.row(3).unwrap().is_highlighted());
    assert!(doc.row(2).unwrap().highlighting().is_empty());
    doc.highlight(&None, Some(0));
    assert!(!doc.row(2).unwrap().is_highlighted());
    doc.highlight(&None, Some(100));
    assert!(doc.row(3).unwrap().is_highlighted());
    doc.highlight(&None, Some(usize::MAX));
    assert!(doc.row(3).unwrap().is_highlighted());
}

#[test]
fn highlight_marks_the_search_word() {
    let mut doc = doc_of(&["foo wor"]);
    doc.highlight(&Some("wor".to_string()), None);
    assert_eq!(
        doc.row(0).unwrap().highlighting(),
        &vec![
            Type::Plain,
            Type::Plain,
            Type::Plain,
            Type::Plain,
            Type::Match,
            Type::Match,
            Type::Match
        ]
    );
}

#[test]
fn highlight_leaves_text_and_dirty_alone() {
    let mut doc = rust_doc_of(&["let a = 1;", "/* x"]);
    doc.highlight(&None, None);
    assert_eq!(lines_of(&doc), vec!["let a = 1;", "/* x"]);
    assert!(!doc.is_dirty());
    assert_eq!(doc.file_type(), "Rust");
}

#[test]
fn an_edit_makes_highlighting_stale_from_the_line_before() {
    let mut doc = rust_doc_of(&["1", "2", "3", "4"]);
    doc.highlight(&None, None);
    doc.insert(&at(0, 2), 'x');
    assert!(doc.row(0).unwrap().is_highlighted());
    assert!(!doc.row(1).unwrap().is_highlighted());
    assert!(!doc.row(2).unwrap().is_highlighted());
    assert!(!doc.row(3).unwrap().is_highlighted());
    doc.highlight(&None, None);
    doc.delete(&at(0, 3));
    assert!(doc.row(1).unwrap().is_highlighted());
    assert!(!doc.row(2).unwrap().is_highlighted());
    assert!(!doc.row(3).unwrap().is_highlighted());
    doc.highlight(&None, None);
    doc.insert(&at(0, 0), 'y');
    for i in 0..4 {
        assert!(!doc.row(i).unwrap().is_highlighted());
    }
}

#[test]
fn an_edit_that_does_nothing_keeps_highlighting() {
    let mut doc = rust_doc_of(&["1", "2"]);
    doc.highlight(&None, None);
    doc.insert(&at(0, 3), 'x');
    doc.delete(&at(0, 2));
    assert!(doc.row(0).unwrap().is_highlighted());
    assert!(doc.row(1).unwrap().is_highlighted());
}

#[test]
fn row_gives_the_line_or_none() {
    let doc = doc_of(&["abc", "de"]);
    assert_eq!(doc.row(0).unwrap().as_str(), "abc");
    assert_eq!(doc.row(1).unwrap().len(), 2);
    assert!(doc.row(2).is_none());
    assert!(!doc.is_empty());
    assert_eq!(doc.len(), 2);
}
