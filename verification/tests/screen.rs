use hecto::editor::Key;
use hecto::screen::{
    file_label, is_control, prompt_key, prompt_result, status_line, truncated, welcome_line,
    PromptStep,
};

#[test]
fn is_control_agrees_with_std() {
    let mut code: u32 = 0;
    while code <= 0x10ffff {
        if let Some(c) = char::from_u32(code) {
            assert_eq!(is_control(c), c.is_control());
        }
        code += 1;
    }
}

#[test]
fn truncated_counts_scalar_values() {
    assert_eq!(truncated("hello", 3), "hel");
    assert_eq!(truncated("hello", 5), "hello");
    assert_eq!(truncated("hello", 9), "hello");
    assert_eq!(truncated("hello", 0), "");
    assert_eq!(truncated("h\u{e9}llo", 2), "h\u{e9}");
}

#[test]
fn status_line_pushes_the_right_part_to_the_edge() {
    assert_eq!(status_line("ab", "cd", 10), "ab      cd");
    assert_eq!(status_line("ab", "cd", 5), "ab cd");
    assert_eq!(status_line("ab", "cd", 4), "abcd");
    assert_eq!(status_line("", "", 3), "   ");
    assert_eq!(status_line("", "x", 3), "  x");
}

#[test]
fn status_line_is_cut_to_the_width() {
    assert_eq!(status_line("ab", "cd", 3), "abc");
    assert_eq!(status_line("abcdef", "gh", 4), "abcd");
    assert_eq!(status_line("ab", "cd", 0), "");
    assert_eq!(status_line("ab", "cd", 2), "ab");
}

#[test]
fn welcome_line_is_a_tilde_and_the_message_cut() {
    assert_eq!(welcome_line("hello", 80), "~hell");
    assert_eq!(welcome_line("hello", 3), "~he");
    assert_eq!(welcome_line("hello", 0), "");
    assert_eq!(welcome_line("", 80), "");
}

#[test]
fn file_label_is_the_name_cut_to_twenty() {
    assert_eq!(file_label(&None), "[No Name]");
    assert_eq!(file_label(&Some("main.rs".to_string())), "main.rs");
    assert_eq!(
        file_label(&Some("abcdefghijklmnopqrstuvwxyz".to_string())),
        "abcdefghijklmnopqrst"
    );
}

#[test]
fn prompt_takes_characters() {
    let mut line = String::new();
    assert_eq!(prompt_key(&mut line, Key::Char('w')), PromptStep::Continue);
    assert_eq!(prompt_key(&mut line, Key::Char('\u{e9}')), PromptStep::Continue);
    assert_eq!(line, "w\u{e9}");
    assert_eq!(prompt_key(&mut line, Key::Char('\t')), PromptStep::Continue);
    assert_eq!(prompt_key(&mut line, Key::Char('\u{7f}')), PromptStep::Continue);
    assert_eq!(prompt_key(&mut line, Key::Up), PromptStep::Continue);
    assert_eq!(prompt_key(&mut line, Key::Other), PromptStep::Continue);
    assert_eq!(line, "w\u{e9}");
}

#[test]
fn prompt_backspace_takes_the_last_scalar_value() {
    let mut line = "w\u{e9}".to_string();
    assert_eq!(prompt_key(&mut line, Key::Backspace), PromptStep::Continue);
    assert_eq!(line, "w");
    prompt_key(&mut line, Key::Backspace);
    assert_eq!(line, "");
    prompt_key(&mut line, Key::Backspace);
    assert_eq!(line, "");
}

#[test]
fn prompt_newline_accepts_and_escape_cancels() {
    let mut line = "wq".to_string();
    assert_eq!(prompt_key(&mut line, Key::Char('\n')), PromptStep::Accept);
    assert_eq!(line, "wq");
    assert_eq!(prompt_key(&mut line, Key::Esc), PromptStep::Cancel);
    assert_eq!(line, "");
}

#[test]
fn prompt_result_is_none_for_an_empty_line() {
    assert_eq!(prompt_result(String::new()), None);
    assert_eq!(prompt_result("q".to_string()), Some("q".to_string()));
}
