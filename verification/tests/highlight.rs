use hecto::filetype::HighlightingOptions;
use hecto::highlighting::{Rgb, Type};
use hecto::syntax::classify;
use hecto::{FileType, Row};

fn rust() -> FileType {
    FileType::from("main.rs")
}

fn classes(text: &str, word: Option<&str>, carry_in: bool) -> (Vec<Type>, bool) {
    let mut row = Row::from(text);
    let file_type = rust();
    let word = word.map(|w| w.to_string());
    let carry = row.highlight(file_type.highlighting_options(), &word, carry_in);
    assert!(row.is_highlighted());
    (row.highlighting().clone(), carry)
}

fn runs(parts: &[(Type, usize)]) -> Vec<Type> {
    let mut out = Vec::new();
    for (kind, count) in parts {
        for _ in 0..*count {
            out.push(*kind);
        }
    }
    out
}

#[test]
fn plain_text_is_plain() {
    let (spans, carry) = classes("hello world", None, false);
    assert_eq!(spans, runs(&[(Type::Plain, 11)]));
    assert!(!carry);
}

#[test]
fn one_class_for_each_grapheme() {
    let text = "le\u{301}t x = \"e\u{301}\"; // \u{1f1f7}\u{1f1fa}";
    let (spans, _) = classes(text, None, false);
    assert_eq!(spans.len(), Row::from(text).len());
    let (spans, _) = classes(text, Some("x"), true);
    assert_eq!(spans.len(), Row::from(text).len());
}

#[test]
fn empty_line_has_no_spans() {
    let (spans, carry) = classes("", None, false);
    assert!(spans.is_empty());
    assert!(!carry);
    let (spans, carry) = classes("", None, true);
    assert!(spans.is_empty());
    assert!(carry);
}

#[test]
fn line_comment_takes_the_rest_of_the_line() {
    let (spans, carry) = classes("a // b \"c\" 1", None, false);
    assert_eq!(spans, runs(&[(Type::Plain, 2), (Type::Comment, 10)]));
    assert!(!carry);
}

#[test]
fn multiline_comment_closed_on_the_line() {
    let (spans, carry) = classes("a /* b */ c", None, false);
    assert_eq!(
        spans,
        runs(&[(Type::Plain, 2), (Type::MultilineComment, 7), (Type::Plain, 2)])
    );
    assert!(!carry);
}

#[test]
fn multiline_comment_left_open_carries() {
    let (spans, carry) = classes("a /* b", None, false);
    assert_eq!(spans, runs(&[(Type::Plain, 2), (Type::MultilineComment, 4)]));
    assert!(carry);
}

#[test]
fn opener_is_not_its_own_closer() {
    let (spans, carry) = classes("/*/", None, false);
    assert_eq!(spans, runs(&[(Type::MultilineComment, 3)]));
    assert!(carry);
}

#[test]
fn carry_in_is_comment_body_up_to_the_closer() {
    let (spans, carry) = classes("still */ let", None, true);
    assert_eq!(
        spans,
        runs(&[(Type::MultilineComment, 8), (Type::Plain, 1), (Type::PrimaryKeywords, 3)])
    );
    assert!(!carry);
}

#[test]
fn carry_in_without_closer_carries_on() {
    let (spans, carry) = classes("let x = 1; // no end", None, true);
    assert_eq!(spans, runs(&[(Type::MultilineComment, 20)]));
    assert!(carry);
}

#[test]
fn carry_in_closed_and_opened_again() {
    let (spans, carry) = classes("*/ /* x", None, true);
    assert_eq!(
        spans,
        runs(&[(Type::MultilineComment, 2), (Type::Plain, 1), (Type::MultilineComment, 4)])
    );
    assert!(carry);
}

#[test]
fn carry_threads_through_two_lines() {
    let (_, carry) = classes("let a = 1; /* start", None, false);
    assert!(carry);
    let (spans, carry) = classes("end */ 42", None, carry);
    assert_eq!(
        spans,
        runs(&[(Type::MultilineComment, 6), (Type::Plain, 1), (Type::Number, 2)])
    );
    assert!(!carry);
}

#[test]
fn string_literal_runs_to_the_closing_quote() {
    let (spans, carry) = classes("x \"a b\" y", None, false);
    assert_eq!(spans, runs(&[(Type::Plain, 2), (Type::Str, 5), (Type::Plain, 2)]));
    assert!(!carry);
}

#[test]
fn unterminated_string_runs_to_the_end_without_carry() {
    let (spans, carry) = classes("x \"a b", None, false);
    assert_eq!(spans, runs(&[(Type::Plain, 2), (Type::Str, 4)]));
    assert!(!carry);
}

#[test]
fn string_hides_comment_openers() {
    let (spans, carry) = classes("\"/* //\"", None, false);
    assert_eq!(spans, runs(&[(Type::Str, 7)]));
    assert!(!carry);
}

#[test]
fn character_literal_runs_to_the_closing_quote() {
    let (spans, carry) = classes("c = 'x';", None, false);
    assert_eq!(spans, runs(&[(Type::Plain, 4), (Type::Character, 3), (Type::Plain, 1)]));
    assert!(!carry);
}

#[test]
fn unterminated_character_runs_to_the_end_without_carry() {
    let (spans, carry) = classes("c = 'x", None, false);
    assert_eq!(spans, runs(&[(Type::Plain, 4), (Type::Character, 2)]));
    assert!(!carry);
}

#[test]
fn number_takes_digits_and_full_stops() {
    let (spans, _) = classes("x = 3.14;", None, false);
    assert_eq!(spans, runs(&[(Type::Plain, 4), (Type::Number, 4), (Type::Plain, 1)]));
    let (spans, _) = classes("42", None, false);
    assert_eq!(spans, runs(&[(Type::Number, 2)]));
}

#[test]
fn keywords_need_word_boundaries() {
    let (spans, _) = classes("let letx xlet let", None, false);
    assert_eq!(
        spans,
        runs(&[(Type::PrimaryKeywords, 3), (Type::Plain, 11), (Type::PrimaryKeywords, 3)])
    );
    let (spans, _) = classes("(fn)", None, false);
    assert_eq!(
        spans,
        runs(&[(Type::Plain, 1), (Type::PrimaryKeywords, 2), (Type::Plain, 1)])
    );
    let (spans, _) = classes("my_fn", None, false);
    assert_eq!(spans, runs(&[(Type::Plain, 5)]));
}

#[test]
fn secondary_keywords_are_type_names() {
    let (spans, _) = classes("x: usize", None, false);
    assert_eq!(spans, runs(&[(Type::Plain, 3), (Type::SecondaryKeywords, 5)]));
    let (spans, _) = classes("bool", None, false);
    assert_eq!(spans, runs(&[(Type::SecondaryKeywords, 4)]));
}

#[test]
fn search_word_is_highlighted_as_match() {
    let (spans, _) = classes("foo wor wor", Some("wor"), false);
    assert_eq!(
        spans,
        runs(&[(Type::Plain, 4), (Type::Match, 3), (Type::Plain, 1), (Type::Match, 3)])
    );
}

#[test]
fn search_word_goes_before_keywords() {
    let (spans, _) = classes("let", Some("le"), false);
    assert_eq!(spans, runs(&[(Type::Match, 2), (Type::Plain, 1)]));
    let (spans, _) = classes("let", Some("let"), false);
    assert_eq!(spans, runs(&[(Type::Match, 3)]));
}

#[test]
fn search_word_is_case_sensitive() {
    let (spans, _) = classes("Wor wor", Some("wor"), false);
    assert_eq!(spans, runs(&[(Type::Plain, 4), (Type::Match, 3)]));
}

#[test]
fn empty_search_word_highlights_nothing() {
    let (with_empty, _) = classes("let x = 1;", Some(""), false);
    let (without, _) = classes("let x = 1;", None, false);
    assert_eq!(with_empty, without);
    assert!(!with_empty.contains(&Type::Match));
}

#[test]
fn search_word_with_clusters_counts_graphemes() {
    let (spans, _) = classes("ae\u{301}b", Some("e\u{301}"), false);
    assert_eq!(spans, runs(&[(Type::Plain, 1), (Type::Match, 1), (Type::Plain, 1)]));
    let (spans, _) = classes("ae\u{301}b", Some("e"), false);
    assert_eq!(spans, runs(&[(Type::Plain, 3)]));
}

#[test]
fn a_cluster_is_no_delimiter() {
    let (spans, carry) = classes("/\u{301}/ x", None, false);
    assert_eq!(spans, runs(&[(Type::Plain, 4)]));
    assert!(!carry);
}

#[test]
fn plain_rules_recognise_nothing() {
    let mut row = Row::from("let x = \"1\"; // /* c");
    let opts = HighlightingOptions::plain();
    let carry = row.highlight(&opts, &None, false);
    assert!(!carry);
    assert_eq!(row.highlighting(), &runs(&[(Type::Plain, 20)]));
}

#[test]
fn custom_keywords_are_used() {
    let mut opts = HighlightingOptions::plain();
    opts.add_primary_keyword("begin");
    opts.add_secondary_keyword("int");
    let mut row = Row::from("begin int x");
    row.highlight(&opts, &None, false);
    assert_eq!(
        row.highlighting(),
        &runs(&[
            (Type::PrimaryKeywords, 5),
            (Type::Plain, 1),
            (Type::SecondaryKeywords, 3),
            (Type::Plain, 2)
        ])
    );
}

#[test]
fn highlight_replaces_what_was_stored() {
    let file_type = rust();
    let mut row = Row::from("let");
    row.highlight(file_type.highlighting_options(), &Some("let".to_string()), false);
    assert_eq!(row.highlighting(), &runs(&[(Type::Match, 3)]));
    row.highlight(file_type.highlighting_options(), &None, false);
    assert_eq!(row.highlighting(), &runs(&[(Type::PrimaryKeywords, 3)]));
    row.highlight(file_type.highlighting_options(), &None, true);
    assert_eq!(row.highlighting(), &runs(&[(Type::MultilineComment, 3)]));
}

#[test]
fn an_edit_drops_the_highlighting() {
    let file_type = rust();
    let mut row = Row::from("let");
    row.highlight(file_type.highlighting_options(), &None, false);
    assert!(row.is_highlighted());
    row.insert(0, 'x');
    assert!(!row.is_highlighted());
    row.highlight(file_type.highlighting_options(), &None, false);
    row.unhighlight();
    assert!(!row.is_highlighted());
    assert_eq!(row.highlighting().len(), 4);
}

#[test]
fn classify_works_on_given_graphemes() {
    let units: Vec<Vec<char>> = "/* a */ 7".chars().map(|c| vec![c]).collect();
    let word: Vec<Vec<char>> = Vec::new();
    let file_type = rust();
    let (spans, carry) = classify(&units, file_type.highlighting_options(), &word, false);
    assert_eq!(
        spans,
        runs(&[(Type::MultilineComment, 7), (Type::Plain, 1), (Type::Number, 1)])
    );
    assert!(!carry);
}

#[test]
fn colors_of_the_classes() {
    assert_eq!(Type::Plain.to_color(), Rgb { r: 255, g: 255, b: 255 });
    assert_eq!(Type::Number.to_color(), Rgb { r: 177, g: 98, b: 134 });
    assert_eq!(Type::Match.to_color(), Rgb { r: 38, g: 139, b: 210 });
    assert_eq!(Type::Str.to_color(), Rgb { r: 152, g: 151, b: 26 });
    assert_eq!(Type::Character.to_color(), Rgb { r: 177, g: 98, b: 134 });
    assert_eq!(Type::Comment.to_color(), Rgb { r: 146, g: 131, b: 116 });
    assert_eq!(Type::MultilineComment.to_color(), Rgb { r: 146, g: 131, b: 116 });
    assert_eq!(Type::PrimaryKeywords.to_color(), Rgb { r: 251, g: 73, b: 52 });
    assert_eq!(Type::SecondaryKeywords.to_color(), Rgb { r: 215, g: 153, b: 33 });
}

#[test]
fn file_type_goes_by_the_extension() {
    assert_eq!(FileType::from("main.rs").name(), "Rust");
    assert_eq!(FileType::from("notes.txt").name(), "No filetype");
    assert_eq!(FileType::from("rs").name(), "No filetype");
    assert_eq!(FileType::from(".rs").name(), "Rust");
    assert_eq!(FileType::from("").name(), "No filetype");
    assert_eq!(FileType::default().name(), "No filetype");
    assert!(FileType::from("a.rs").highlighting_options().numbers);
    assert!(!FileType::from("a.c").highlighting_options().numbers);
}
