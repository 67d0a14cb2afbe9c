use hecto::grapheme::chars_of;
use hecto::units::{
    delete_at, find_from, insert_at, push_units, render, skip_to_alpha, skip_to_space, split_at,
};

fn units_of(parts: &[&str]) -> Vec<Vec<char>> {
    parts.iter().map(|p| p.chars().collect()).collect()
}

#[test]
fn chars_of_gives_the_scalar_values() {
    assert_eq!(chars_of("he\u{301}"), vec!['h', 'e', '\u{301}']);
    assert!(chars_of("").is_empty());
}

#[test]
fn push_units_appends_a_window() {
    let units = units_of(&["a", "e\u{301}", "c"]);
    let mut text = "x".to_string();
    push_units(&mut text, &units, 1, 3);
    assert_eq!(text, "xe\u{301}c");
    push_units(&mut text, &units, 0, 0);
    assert_eq!(text, "xe\u{301}c");
}

#[test]
fn insert_at_goes_in_front_of_the_grapheme() {
    let units = units_of(&["a", "e\u{301}", "c"]);
    assert_eq!(insert_at(&units, 0, 'x'), "xae\u{301}c");
    assert_eq!(insert_at(&units, 2, 'x'), "ae\u{301}xc");
    assert_eq!(insert_at(&units, 3, 'x'), "ae\u{301}cx");
    assert_eq!(insert_at(&units, 99, 'x'), "ae\u{301}cx");
    assert_eq!(insert_at(&units_of(&[]), 0, 'x'), "x");
}

#[test]
fn delete_at_takes_one_grapheme() {
    let units = units_of(&["a", "e\u{301}", "c"]);
    assert_eq!(delete_at(&units, 1), "ac");
    assert_eq!(delete_at(&units, 2), "ae\u{301}");
    assert_eq!(delete_at(&units, 3), "ae\u{301}c");
}

#[test]
fn split_at_gives_both_sides() {
    let units = units_of(&["a", "e\u{301}", "c"]);
    assert_eq!(split_at(&units, 1), ("a".to_string(), "e\u{301}c".to_string()));
    assert_eq!(split_at(&units, 0), (String::new(), "ae\u{301}c".to_string()));
    assert_eq!(split_at(&units, 8), ("ae\u{301}c".to_string(), String::new()));
}

#[test]
fn render_shows_a_tab_as_four_spaces() {
    let units = units_of(&["\t", "a", "\t\u{301}"]);
    assert_eq!(render(&units, 0, 2), "    a");
    assert_eq!(render(&units, 2, 3), "\t\u{301}");
    assert_eq!(render(&units, 3, 2), "");
}

#[test]
fn find_from_gives_grapheme_positions() {
    let units = units_of(&["e\u{301}", "x", "y", "x", "y"]);
    assert_eq!(find_from(&units, "xy", 0), Some(1));
    assert_eq!(find_from(&units, "xy", 2), Some(3));
    assert_eq!(find_from(&units, "xy", 4), None);
    assert_eq!(find_from(&units, "", 0), None);
    assert_eq!(find_from(&units, "\u{301}x", 0), None);
    assert_eq!(find_from(&units, "e\u{301}x", 0), Some(0));
}

#[test]
fn skips_stop_at_the_class_of_the_first_scalar_value() {
    let units = units_of(&["1", " \u{301}", "e\u{301}", " "]);
    assert_eq!(skip_to_space(&units, 0), 1);
    assert_eq!(skip_to_space(&units, 2), 3);
    assert_eq!(skip_to_space(&units, 4), 4);
    assert_eq!(skip_to_alpha(&units, 0), 2);
    assert_eq!(skip_to_alpha(&units, 3), 4);
    assert_eq!(skip_to_alpha(&units, 7), 7);
}
