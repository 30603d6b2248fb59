use mikoshi::selection::{Position, Selection};
use mikoshi::terminal_state::{Color, TerminalState};

fn rows(s: &TerminalState) -> Vec<String> {
    s.get_visible_content().into_iter().map(|(t, _)| t).collect()
}

fn state_with_rows(visible: u32) -> TerminalState {
    TerminalState::new(800, 20 * visible, 20)
}

#[test]
fn normalize_orders_forward_drag() {
    let s = Selection { start: Position { line: 1, column: 2 }, end: Position { line: 3, column: 0 } };
    let (a, b) = s.normalize();
    assert_eq!((a.line, a.column, b.line, b.column), (1, 2, 3, 0));
}

#[test]
fn normalize_orders_backward_drag() {
    let s = Selection { start: Position { line: 3, column: 0 }, end: Position { line: 1, column: 2 } };
    let (a, b) = s.normalize();
    assert_eq!((a.line, a.column, b.line, b.column), (1, 2, 3, 0));
    let t = Selection { start: Position { line: 2, column: 7 }, end: Position { line: 2, column: 4 } };
    let (c, d) = t.normalize();
    assert_eq!((c.line, c.column, d.line, d.column), (2, 4, 2, 7));
}

#[test]
fn new_state_geometry_and_settings() {
    let s = TerminalState::new(1000, 800, 19);
    let v = s.get_viewport();
    assert_eq!(v.visible_lines, 42);
    assert_eq!(v.offset, 0);
    assert_eq!((v.width, v.height, v.line_height), (1000, 800, 19));
    let settings = s.get_settings();
    assert_eq!(settings.prompt, "$ ");
    assert_eq!(settings.font_size, 16);
    assert_eq!(settings.colors.text, Color::rgb(0, 255, 170));
    assert_eq!(settings.colors.input, Color::rgb(200, 200, 255));
    assert!(s.get_selection().is_none());
}

#[test]
fn fresh_state_shows_only_prompt_row() {
    let s = state_with_rows(5);
    let content = s.get_visible_content();
    assert_eq!(content.len(), 1);
    assert_eq!(content[0].0, "$ ");
    assert_eq!(content[0].1, s.get_settings().colors.input);
}

#[test]
fn typed_input_appears_on_prompt_row() {
    let mut s = state_with_rows(5);
    s.add_input("ls");
    s.add_input(" -l");
    assert_eq!(rows(&s), vec!["$ ls -l"]);
}

#[test]
fn backspace_removes_one_character() {
    let mut s = state_with_rows(5);
    s.add_input("né");
    s.handle_backspace();
    assert_eq!(rows(&s), vec!["$ n"]);
    s.handle_backspace();
    s.handle_backspace();
    assert_eq!(rows(&s), vec!["$ "]);
}

#[test]
fn commit_echoes_line_and_clears_input() {
    let mut s = state_with_rows(5);
    s.add_input("echo hi");
    s.commit_input();
    let content = s.get_visible_content();
    assert_eq!(content.len(), 2);
    assert_eq!(content[0].0, "$ echo hi");
    assert_eq!(content[0].1, s.get_settings().colors.text);
    assert_eq!(content[1].0, "$ ");
}

#[test]
fn commit_empty_input_adds_no_history() {
    let mut s = state_with_rows(5);
    s.commit_input();
    assert_eq!(rows(&s), vec!["$ ", "$ "]);
    s.handle_key_up();
    assert_eq!(rows(&s).last().unwrap(), "$ ");
}

#[test]
fn key_up_walks_history_newest_to_oldest() {
    let mut s = state_with_rows(10);
    for cmd in ["a", "b", "c"] {
        s.add_input(cmd);
        s.commit_input();
    }
    let mut seen = Vec::new();
    for _ in 0..4 {
        s.handle_key_up();
        seen.push(rows(&s).last().unwrap().clone());
    }
    assert_eq!(seen, vec!["$ c", "$ b", "$ a", "$ a"]);
    s.handle_key_down();
    assert_eq!(rows(&s).last().unwrap(), "$ b");
    s.handle_key_down();
    assert_eq!(rows(&s).last().unwrap(), "$ c");
    s.handle_key_down();
    assert_eq!(rows(&s).last().unwrap(), "$ ");
    s.handle_key_down();
    assert_eq!(rows(&s).last().unwrap(), "$ ");
}

#[test]
fn key_up_does_not_change_stored_entries() {
    let mut s = state_with_rows(10);
    s.add_input("make");
    s.commit_input();
    s.handle_key_up();
    s.add_input(" test");
    s.commit_input();
    s.handle_key_up();
    assert_eq!(rows(&s).last().unwrap(), "$ make test");
    s.handle_key_up();
    assert_eq!(rows(&s).last().unwrap(), "$ make");
}

#[test]
fn editing_leaves_history_browsing() {
    let mut s = state_with_rows(10);
    s.add_input("one");
    s.commit_input();
    s.handle_key_up();
    s.handle_backspace();
    assert_eq!(rows(&s).last().unwrap(), "$ on");
    s.handle_key_down();
    assert_eq!(rows(&s).last().unwrap(), "$ on");
}

#[test]
fn command_history_drops_oldest_past_capacity() {
    let mut s = state_with_rows(10);
    for i in 0..101 {
        s.add_input(&format!("cmd{}", i));
        s.commit_input();
    }
    for _ in 0..150 {
        s.handle_key_up();
    }
    assert_eq!(rows(&s).last().unwrap(), "$ cmd1");
}

#[test]
fn visible_window_follows_tail_and_scrolls() {
    let mut s = state_with_rows(3);
    s.add_output("a\nb\nc\n");
    assert_eq!(rows(&s), vec!["b", "c", "$ "]);
    s.scroll_up(1);
    assert_eq!(s.get_viewport().offset, 1);
    assert_eq!(rows(&s), vec!["a", "b"]);
}

#[test]
fn window_of_two_rows_shows_one_scrollback_line() {
    let mut s = state_with_rows(2);
    s.add_output("a\nb\nc\n");
    assert_eq!(rows(&s), vec!["c", "$ "]);
    s.scroll_up(1);
    assert_eq!(rows(&s), vec!["b"]);
}

#[test]
fn clear_sequence_wipes_scrollback() {
    let mut s = state_with_rows(4);
    s.add_output("x\ny\nz\n");
    s.scroll_up(1);
    s.add_output("ab\x1b[H\x1b[2Jcd\n");
    assert_eq!(s.get_viewport().offset, 0);
    assert_eq!(rows(&s), vec!["$ "]);
}

#[test]
fn form_feed_wipes_scrollback() {
    let mut s = state_with_rows(4);
    s.add_output("x\ny\n");
    s.add_output("\x0c");
    assert_eq!(rows(&s), vec!["$ "]);
}

#[test]
fn clear_resets_view() {
    let mut s = state_with_rows(3);
    s.add_output("1\n2\n3\n4\n");
    s.scroll_up(2);
    s.clear();
    assert_eq!(s.get_viewport().offset, 0);
    assert_eq!(rows(&s), vec!["$ "]);
}

#[test]
fn output_lines_split_and_strip_carriage_return() {
    let mut s = state_with_rows(10);
    s.add_output("one\r\ntwo\n\nthree");
    assert_eq!(rows(&s), vec!["one", "two", "", "three", "$ "]);
    s.add_output("");
    assert_eq!(rows(&s).len(), 5);
}

#[test]
fn scrollback_keeps_newest_thousand_lines() {
    let mut s = state_with_rows(3);
    let mut text = String::new();
    for i in 0..1005 {
        text.push_str(&format!("line{}\n", i));
    }
    s.add_output(&text);
    s.scroll_up(usize::MAX);
    assert_eq!(s.get_viewport().offset, 998);
    assert_eq!(rows(&s), vec!["line5", "line6"]);
    s.scroll_down(usize::MAX);
    assert_eq!(rows(&s), vec!["line1003", "line1004", "$ "]);
}

#[test]
fn scrolled_back_view_stays_put_on_new_output() {
    let mut s = state_with_rows(3);
    s.add_output("a\nb\nc\nd\n");
    s.scroll_up(1);
    assert_eq!(rows(&s), vec!["b", "c"]);
    s.add_output("e\n");
    assert_eq!(s.get_viewport().offset, 1);
    assert_eq!(rows(&s), vec!["c", "d"]);
}

#[test]
fn scroll_up_then_down_returns_to_offset() {
    let mut s = state_with_rows(3);
    s.add_output("1\n2\n3\n4\n5\n6\n");
    s.scroll_up(1);
    s.scroll_up(2);
    assert_eq!(s.get_viewport().offset, 3);
    s.scroll_down(2);
    assert_eq!(s.get_viewport().offset, 1);
    s.scroll_up(10);
    assert_eq!(s.get_viewport().offset, 4);
    s.scroll_down(10);
    assert_eq!(s.get_viewport().offset, 0);
}

#[test]
fn visible_rows_never_exceed_window() {
    let mut s = state_with_rows(4);
    for i in 0..10 {
        s.add_output(&format!("{}\n", i));
        assert!(s.get_visible_content().len() <= 4);
    }
    assert_eq!(rows(&s).last().unwrap(), "$ ");
    s.scroll_up(3);
    assert!(s.get_visible_content().len() <= 4);
    assert!(!rows(&s).contains(&"$ ".to_string()));
}

#[test]
fn select_within_one_row() {
    let mut s = state_with_rows(5);
    s.add_output("hello world\n");
    s.start_selection(0, 6);
    s.update_selection(0, 11);
    assert_eq!(s.get_selected_text(), "world");
    s.start_selection(0, 5);
    s.update_selection(0, 0);
    assert_eq!(s.get_selected_text(), "hello");
}

#[test]
fn select_across_rows() {
    let mut s = state_with_rows(5);
    s.add_output("abc\ndef\nghi\n");
    s.start_selection(2, 1);
    s.update_selection(0, 2);
    assert_eq!(s.get_selected_text(), "c\ndef\ng");
    let sel = s.get_selection().unwrap();
    assert_eq!((sel.start.line, sel.start.column), (2, 1));
    assert_eq!((sel.end.line, sel.end.column), (0, 2));
}

#[test]
fn selection_clamps_rows_and_columns() {
    let mut s = state_with_rows(5);
    s.add_output("abc\nde\n");
    s.start_selection(0, 99);
    let sel = s.get_selection().unwrap();
    assert_eq!(sel.start.column, 3);
    s.update_selection(99, 99);
    let sel = s.get_selection().unwrap();
    assert_eq!((sel.end.line, sel.end.column), (2, 2));
    assert_eq!(s.get_selected_text(), "\nde\n$ ");
}

#[test]
fn selection_outside_content_is_ignored() {
    let mut s = state_with_rows(5);
    s.start_selection(3, 0);
    assert!(s.get_selection().is_none());
    s.update_selection(0, 1);
    assert!(s.get_selection().is_none());
    assert_eq!(s.get_selected_text(), "");
}

#[test]
fn scrolling_clears_selection() {
    let mut s = state_with_rows(3);
    s.add_output("a\nb\nc\n");
    s.start_selection(0, 0);
    s.update_selection(0, 1);
    s.scroll_up(1);
    assert!(s.get_selection().is_none());
    s.start_selection(0, 0);
    s.scroll_down(1);
    assert!(s.get_selection().is_none());
}

#[test]
fn raw_output_bytes_decode_or_drop() {
    let mut s = state_with_rows(5);
    s.add_output_bytes("héllo\n".as_bytes().to_vec());
    assert_eq!(rows(&s), vec!["héllo", "$ "]);
    s.add_output_bytes(vec![b'x', 0xff, b'\n']);
    assert_eq!(rows(&s), vec!["héllo", "$ "]);
    s.start_selection(0, 1);
    s.add_output_bytes(Vec::new());
    assert!(s.get_selection().is_some());
}

#[test]
fn pointer_pixels_map_to_cells() {
    let p = mikoshi::selection::cell_at_pixel(37, 45, 20, 8);
    assert_eq!((p.line, p.column), (2, 4));
    let q = mikoshi::selection::cell_at_pixel(0, 19, 20, 8);
    assert_eq!((q.line, q.column), (0, 0));
}

#[test]
fn editing_clears_selection() {
    let mut s = state_with_rows(5);
    s.add_output("abc\n");
    s.start_selection(0, 0);
    s.update_selection(0, 2);
    s.add_input("x");
    assert!(s.get_selection().is_none());
    assert_eq!(s.get_selected_text(), "");
    s.start_selection(0, 1);
    s.handle_backspace();
    assert!(s.get_selection().is_none());
    s.start_selection(0, 1);
    s.handle_backspace();
    assert!(s.get_selection().is_some());
}
