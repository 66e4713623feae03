use saelora::config::{Agent, Provider};
use saelora::tui::order::{cmp_i64, cmp_str};
use saelora::tui::{
    col_at_x, format_ctx, mask_key, move_table_selection, slice_chars, sort_label,
    toggle_agent_provider, trunc, wrap_segment, EditorKey, PromptEditor,
};
use std::cmp::Ordering;

fn chars(s: &str) -> Vec<char> {
    s.chars().collect()
}

#[test]
fn editor_round_trips_text() {
    let e = PromptEditor::from_text("a\nbc\n", "hint");
    assert_eq!(e.text(), "a\nbc\n");
    assert_eq!(e.cursor(), (0, 0));
    assert_eq!(e.placeholder(), "hint");
    assert_eq!(e.line_len_chars(1), 2);
    assert_eq!(e.line_len_chars(9), 0);
}

#[test]
fn editor_insert_backspace_newline() {
    let mut e = PromptEditor::from_text("ab", "");
    e.handle_key(EditorKey::Right);
    e.handle_key(EditorKey::Char('x'));
    assert_eq!(e.text(), "axb");
    assert_eq!(e.cursor(), (0, 2));
    e.handle_key(EditorKey::Backspace);
    assert_eq!(e.text(), "ab");
    assert_eq!(e.cursor(), (0, 1));
    e.handle_key(EditorKey::Enter);
    assert_eq!(e.text(), "a\nb");
    assert_eq!(e.cursor(), (1, 0));
    e.handle_key(EditorKey::Backspace);
    assert_eq!(e.text(), "ab");
    assert_eq!(e.cursor(), (0, 1));
    e.handle_key(EditorKey::ChordChar('q'));
    assert_eq!(e.text(), "ab");
    e.handle_key(EditorKey::End);
    assert_eq!(e.cursor(), (0, 2));
    e.handle_key(EditorKey::Home);
    assert_eq!(e.cursor(), (0, 0));
    e.handle_key(EditorKey::Left);
    assert_eq!(e.cursor(), (0, 0));
}

#[test]
fn editor_moves_across_lines() {
    let mut e = PromptEditor::from_text("ab\ncd", "");
    e.move_end();
    e.move_right();
    assert_eq!(e.cursor(), (1, 0));
    e.move_left();
    assert_eq!(e.cursor(), (0, 2));
    e.move_visual(1);
    assert_eq!(e.cursor(), (1, 2));
    e.move_visual(-5);
    assert_eq!(e.cursor().0, 0);
}

#[test]
fn editor_wraps_and_lays_out() {
    let mut e = PromptEditor::from_text("hello world foo", "hint");
    let v = e.visual_lines(6);
    let texts: Vec<&str> = v.iter().map(|l| l.text.as_str()).collect();
    assert_eq!(texts, vec!["hello", " world", " foo"]);
    assert_eq!((v[0].start_col, v[0].end_col), (0, 5));
    let l = e.layout(6, 2);
    assert_eq!(l.lines, vec!["hello ".to_string(), " world".to_string()]);
    assert!(!l.placeholder);
    assert_eq!(l.cursor, Some((0, 0)));
    let mut empty = PromptEditor::from_text("", "type here");
    let l = empty.layout(10, 3);
    assert!(l.placeholder);
    assert_eq!(l.lines, vec!["type here".to_string()]);
    let l = empty.layout(0, 3);
    assert!(l.lines.is_empty());
    e.set_text("x");
    assert_eq!(e.text(), "x");
}

#[test]
fn wrapping_helpers() {
    let c = chars("ab cd");
    assert_eq!(wrap_segment(&c, 0, 4), (2, "ab".to_string()));
    assert_eq!(wrap_segment(&c, 2, 4), (5, " cd".to_string()));
    assert_eq!(wrap_segment(&c, 0, 0), (1, "a".to_string()));
    assert_eq!(slice_chars(&c, 1, 3), chars("b "));
    assert_eq!(slice_chars(&c, 4, 2), chars(""));
    assert_eq!(slice_chars(&c, 9, 12), chars(""));
    assert_eq!(col_at_x(&c, 0, 5, 3), 3);
    assert_eq!(col_at_x(&c, 1, 3, 10), 3);
    assert_eq!(col_at_x(&chars("日本"), 0, 2, 3), 1);
}

#[test]
fn table_formatters() {
    assert_eq!(mask_key("  secret "), "******");
    assert_eq!(mask_key("   "), "");
    assert_eq!(mask_key(&"k".repeat(40)).len(), 32);
    assert_eq!(format_ctx(0), "");
    assert_eq!(format_ctx(128000), "128000");
    assert_eq!(trunc("  hello world ", 8), "hello...");
    assert_eq!(trunc("hello", 3), "hel");
    assert_eq!(trunc("hi", 0), "hi");
    assert_eq!(sort_label(2, false), "Prompt/$1M desc");
    assert_eq!(sort_label(9, true), "? asc");
    assert_eq!(move_table_selection(0, Some(3), 1), None);
    assert_eq!(move_table_selection(5, Some(4), 1), Some(4));
    assert_eq!(move_table_selection(5, None, -1), Some(0));
    assert_eq!(move_table_selection(5, Some(1), 2), Some(3));
}

#[test]
fn orderings() {
    assert_eq!(cmp_str("a", "b", true), Ordering::Less);
    assert_eq!(cmp_str("a", "b", false), Ordering::Greater);
    assert_eq!(cmp_str("ab", "a", true), Ordering::Greater);
    assert_eq!(cmp_str("é", "z", true), "é".cmp("z"));
    assert_eq!(cmp_i64(3, 3, false), Ordering::Equal);
    assert_eq!(cmp_i64(-1, 2, false), Ordering::Greater);
}

#[test]
fn toggling_provider_sets_local_base() {
    let mut a = Agent {
        name: "a".to_string(),
        provider: Provider::OpenRouter,
        model: String::new(),
        base_url: " ".to_string(),
        api_key: String::new(),
        http_referer: String::new(),
        x_title: String::new(),
    };
    toggle_agent_provider(&mut a);
    assert_eq!(a.provider, Provider::Ollama);
    assert_eq!(a.base_url, "http://localhost:11434/v1");
    toggle_agent_provider(&mut a);
    assert_eq!(a.provider, Provider::OpenRouter);
    assert_eq!(a.base_url, "http://localhost:11434/v1");
}
