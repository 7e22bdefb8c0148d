use zepto::config::Config;
use zepto::editor::{Editor, ScreenArea};

fn cs(s: &str) -> Vec<char> {
    s.chars().collect()
}

fn rows(v: &[&str]) -> Vec<Vec<char>> {
    v.iter().map(|s| s.chars().collect()).collect()
}

fn ed(lines: &[&str]) -> Editor {
    let mut e = Editor::new(&Config::default());
    e.buffer = rows(lines);
    e.baseline = rows(lines);
    e
}

fn area() -> ScreenArea {
    ScreenArea { width: 80, height: 24 }
}

#[test]
fn load_splits_lines() {
    let mut e = Editor::new(&Config::default());
    e.open_loaded(cs("t.txt"), &cs("alpha\nbeta"));
    assert_eq!(e.buffer, rows(&["alpha", "beta"]));
    assert!(!e.is_dirty());
    assert!(e.filename.is_some());
    assert_eq!(e.cursor_x, 0);
    assert_eq!(e.cursor_y, 0);
}

#[test]
fn round_trip_plain_text() {
    let mut e = Editor::new(&Config::default());
    e.open_loaded(cs("t.txt"), &cs("alpha\nbeta"));
    assert_eq!(e.serialize(), cs("alpha\nbeta"));
}

#[test]
fn round_trip_trailing_newline() {
    let mut e = Editor::new(&Config::default());
    e.open_loaded(cs("t.txt"), &cs("alpha\n"));
    assert_eq!(e.buffer, rows(&["alpha", ""]));
    assert_eq!(e.serialize(), cs("alpha\n"));
}

#[test]
fn load_empty_text_gives_one_empty_line() {
    let mut e = Editor::new(&Config::default());
    e.open_loaded(cs("t.txt"), &cs(""));
    assert_eq!(e.buffer, rows(&[""]));
    assert_eq!(e.serialize(), cs(""));
}

#[test]
fn insert_newline_scenario() {
    let mut e = ed(&["hello", "world"]);
    e.cursor_x = 5;
    e.insert_newline(area());
    assert_eq!(e.buffer, rows(&["hello", "", "world"]));
    assert_eq!(e.cursor_y, 1);
    assert_eq!(e.cursor_x, 0);
}

#[test]
fn delete_backward_at_origin_is_noop() {
    let mut e = ed(&["abc"]);
    e.delete_char_backward(area());
    assert_eq!(e.buffer, rows(&["abc"]));
    assert_eq!(e.cursor_x, 0);
    assert_eq!(e.cursor_y, 0);
}

#[test]
fn delete_backward_merges_lines() {
    let mut e = ed(&["ab", "cd"]);
    e.cursor_y = 1;
    e.cursor_x = 0;
    e.delete_char_backward(area());
    assert_eq!(e.buffer, rows(&["abcd"]));
    assert_eq!(e.cursor_y, 0);
    assert_eq!(e.cursor_x, 2);
}

#[test]
fn delete_forward_merges_lines() {
    let mut e = ed(&["ab", "cd"]);
    e.cursor_x = 2;
    e.delete_char_forward(area());
    assert_eq!(e.buffer, rows(&["abcd"]));
}

#[test]
fn word_right_scenario() {
    let mut e = ed(&["foo bar"]);
    e.move_cursor_word_right(area(), false);
    assert_eq!(e.cursor_x, 4);
    assert_eq!(e.cursor_y, 0);
}

#[test]
fn word_left_lands_at_word_start() {
    let mut e = ed(&["foo bar"]);
    e.cursor_x = 7;
    e.move_cursor_word_left(area(), false);
    assert_eq!(e.cursor_x, 4);
}

#[test]
fn word_right_crosses_line_end() {
    let mut e = ed(&["ab", "cd"]);
    e.cursor_x = 2;
    e.move_cursor_word_right(area(), false);
    assert_eq!(e.cursor_y, 1);
    assert_eq!(e.cursor_x, 2);
}

#[test]
fn selection_extract_scenario() {
    let mut e = ed(&["abcd", "efgh"]);
    e.selection_start = Some((0, 0));
    e.selection_end = Some((1, 2));
    assert_eq!(e.get_selected_text(), Some(cs("abcd\nef")));
}

#[test]
fn selection_extract_is_order_independent() {
    let mut e = ed(&["abcd", "efgh"]);
    e.selection_start = Some((1, 2));
    e.selection_end = Some((0, 0));
    assert_eq!(e.get_selected_text(), Some(cs("abcd\nef")));
}

#[test]
fn cut_scenario() {
    let mut e = ed(&["abcd", "efgh"]);
    e.selection_start = Some((0, 0));
    e.selection_end = Some((1, 2));
    e.cut_selection(area());
    assert_eq!(e.buffer, rows(&["gh"]));
    assert_eq!(e.cursor_y, 0);
    assert_eq!(e.cursor_x, 0);
    assert_eq!(e.clipboard, cs("abcd\nef"));
    assert_eq!(e.status_message, cs("Cut 7 characters."));
}

#[test]
fn copy_reports_character_count() {
    let mut e = ed(&["abcd"]);
    e.selection_start = Some((0, 0));
    e.selection_end = Some((0, 3));
    e.copy_selection();
    assert_eq!(e.clipboard, cs("abc"));
    assert_eq!(e.status_message, cs("Copied 3 characters."));
    assert_eq!(e.buffer, rows(&["abcd"]));
}

#[test]
fn copy_without_selection_reports() {
    let mut e = ed(&["abcd"]);
    e.copy_selection();
    assert_eq!(e.status_message, cs("No selection to copy."));
    assert!(e.clipboard.is_empty());
}

#[test]
fn paste_empty_clipboard_reports() {
    let mut e = ed(&["abcd"]);
    e.paste(area());
    assert_eq!(e.status_message, cs("Clipboard is empty."));
    assert_eq!(e.buffer, rows(&["abcd"]));
}

#[test]
fn paste_multiline_splices() {
    let mut e = ed(&["ab"]);
    e.cursor_x = 1;
    e.clipboard = cs("X\nY");
    e.paste(area());
    assert_eq!(e.buffer, rows(&["aX", "Yb"]));
    assert_eq!(e.cursor_y, 1);
    assert_eq!(e.cursor_x, 1);
    assert_eq!(e.status_message, cs("Pasted 3 characters."));
}

#[test]
fn paste_replaces_selection() {
    let mut e = ed(&["abcd"]);
    e.selection_start = Some((0, 1));
    e.selection_end = Some((0, 3));
    e.clipboard = cs("Z");
    e.paste(area());
    assert_eq!(e.buffer, rows(&["aZd"]));
}

#[test]
fn dirty_flag_lifecycle() {
    let mut e = Editor::new(&Config::default());
    assert!(!e.is_dirty());
    e.open_loaded(cs("t.txt"), &cs("a"));
    assert!(!e.is_dirty());
    e.insert_char('x', area());
    assert!(e.is_dirty());
    e.save_succeeded();
    assert!(!e.is_dirty());
    assert_eq!(e.status_message, cs("Saved 1 lines to t.txt"));
}

#[test]
fn viewport_normalization_is_idempotent() {
    let mut e = ed(&["one", "two", "three"]);
    e.scroll_y = 17;
    e.scroll_x = 40;
    e.ensure_cursor_in_view(area());
    let once = (e.scroll_x, e.scroll_y, e.cursor_x, e.cursor_y);
    e.ensure_cursor_in_view(area());
    assert_eq!((e.scroll_x, e.scroll_y, e.cursor_x, e.cursor_y), once);
}

#[test]
fn viewport_scrolls_down_to_cursor() {
    let lines: Vec<String> = (0..30).map(|i| format!("line{}", i)).collect();
    let refs: Vec<&str> = lines.iter().map(|s| s.as_str()).collect();
    let mut e = ed(&refs);
    e.cursor_y = 25;
    let a = ScreenArea { width: 80, height: 12 };
    e.ensure_cursor_in_view(a);
    assert_eq!(e.scroll_y, 16);
}

#[test]
fn viewport_scrolls_right_to_cursor() {
    let long: String = "x".repeat(100);
    let mut e = ed(&[long.as_str()]);
    e.cursor_x = 90;
    e.ensure_cursor_in_view(area());
    // 80 columns minus 2 for the frame minus 6 for the gutter leaves 72.
    assert_eq!(e.scroll_x, 90 - 72 + 1);
}

#[test]
fn move_left_crosses_to_previous_line_end() {
    let mut e = ed(&["ab", "cd"]);
    e.cursor_y = 1;
    e.move_cursor_left(area(), false);
    assert_eq!(e.cursor_y, 0);
    assert_eq!(e.cursor_x, 2);
}

#[test]
fn move_right_crosses_to_next_line_start() {
    let mut e = ed(&["ab", "cd"]);
    e.cursor_x = 2;
    e.move_cursor_right(area(), false);
    assert_eq!(e.cursor_y, 1);
    assert_eq!(e.cursor_x, 0);
}

#[test]
fn move_down_clamps_column() {
    let mut e = ed(&["abcdef", "ab"]);
    e.cursor_x = 5;
    e.move_cursor_down(area(), false);
    assert_eq!(e.cursor_y, 1);
    assert_eq!(e.cursor_x, 2);
}

#[test]
fn shift_move_anchors_at_pre_move_cursor() {
    let mut e = ed(&["abc"]);
    e.move_cursor_right(area(), true);
    assert_eq!(e.selection_start, Some((0, 0)));
    assert_eq!(e.selection_end, Some((0, 1)));
    assert_eq!(e.get_selected_text(), Some(cs("a")));
}

#[test]
fn plain_move_clears_selection() {
    let mut e = ed(&["abc"]);
    e.selection_start = Some((0, 0));
    e.selection_end = Some((0, 2));
    e.move_cursor_right(area(), false);
    assert_eq!(e.selection_start, None);
    assert_eq!(e.selection_end, None);
}

#[test]
fn cursor_invariant_after_operation_sequence() {
    let mut e = ed(&["hello", "wide world", ""]);
    let a = area();
    e.move_cursor_down(a, false);
    e.move_cursor_word_right(a, true);
    e.insert_char('!', a);
    e.insert_newline(a);
    e.delete_char_backward(a);
    e.move_cursor_up(a, true);
    e.delete_char_forward(a);
    e.paste(a);
    assert!(e.cursor_y < e.buffer.len());
    assert!(e.cursor_x <= e.buffer[e.cursor_y].len());
    assert!(e.scroll_y < e.buffer.len());
}

#[test]
fn position_selected_covers_span() {
    let mut e = ed(&["abcd", "efgh"]);
    e.selection_start = Some((1, 2));
    e.selection_end = Some((0, 1));
    assert!(!e.is_position_selected(0, 0));
    assert!(e.is_position_selected(0, 1));
    assert!(e.is_position_selected(0, 3));
    assert!(e.is_position_selected(1, 0));
    assert!(e.is_position_selected(1, 1));
    assert!(!e.is_position_selected(1, 2));
}

#[test]
fn copy_reports_two_digit_count() {
    let mut e = ed(&["abcdefghijkl"]);
    e.selection_start = Some((0, 0));
    e.selection_end = Some((0, 12));
    e.copy_selection();
    assert_eq!(e.status_message, cs("Copied 12 characters."));
}

#[test]
fn word_right_at_buffer_end_is_noop() {
    let mut e = ed(&["ab"]);
    e.cursor_x = 2;
    e.move_cursor_word_right(area(), false);
    assert_eq!(e.cursor_y, 0);
    assert_eq!(e.cursor_x, 2);
}

#[test]
fn word_left_at_buffer_start_is_noop() {
    let mut e = ed(&["ab"]);
    e.move_cursor_word_left(area(), false);
    assert_eq!(e.cursor_y, 0);
    assert_eq!(e.cursor_x, 0);
}

#[test]
fn insert_text_single_line_splices() {
    let mut e = ed(&["ad"]);
    e.cursor_x = 1;
    e.insert_text_at_cursor(&cs("bc"), area());
    assert_eq!(e.buffer, rows(&["abcd"]));
    assert_eq!(e.cursor_x, 3);
}

#[test]
fn delete_selection_same_row() {
    let mut e = ed(&["abcdef"]);
    e.selection_start = Some((0, 1));
    e.selection_end = Some((0, 4));
    e.delete_selected_text(area());
    assert_eq!(e.buffer, rows(&["aef"]));
    assert_eq!(e.cursor_x, 1);
    assert_eq!(e.selection_start, None);
}

#[test]
fn delete_selection_spanning_three_rows() {
    let mut e = ed(&["abc", "def", "ghi"]);
    e.selection_start = Some((0, 2));
    e.selection_end = Some((2, 1));
    e.delete_selected_text(area());
    assert_eq!(e.buffer, rows(&["abhi"]));
    assert_eq!(e.cursor_y, 0);
    assert_eq!(e.cursor_x, 2);
}

#[test]
fn save_failed_reports_and_returns_to_editing() {
    let mut e = ed(&["a"]);
    e.save_failed(&cs("disk full"));
    assert_eq!(e.status_message, cs("Error saving: disk full"));
    assert!(matches!(
        e.application_mode,
        zepto::keys::ApplicationMode::Editing
    ));
}

#[test]
fn open_failed_reports() {
    let mut e = ed(&["a"]);
    e.note_open_failed(&cs("no such file"));
    assert_eq!(e.status_message, cs("Error opening file: no such file"));
}
