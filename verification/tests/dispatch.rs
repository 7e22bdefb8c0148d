use zepto::config::Config;
use zepto::editor::{Editor, ScreenArea};
use zepto::keys::{Action, ApplicationMode, InputMode, Key, KeyInput};

fn cs(s: &str) -> Vec<char> {
    s.chars().collect()
}

fn rows(v: &[&str]) -> Vec<Vec<char>> {
    v.iter().map(|s| s.chars().collect()).collect()
}

fn vim_ed(lines: &[&str]) -> Editor {
    let mut c = Config::default();
    c.editor_behavior.vim = true;
    let mut e = Editor::new(&c);
    e.buffer = rows(lines);
    e.baseline = rows(lines);
    e
}

fn nano_ed(lines: &[&str]) -> Editor {
    let mut e = Editor::new(&Config::default());
    e.buffer = rows(lines);
    e.baseline = rows(lines);
    e
}

fn key(code: Key) -> KeyInput {
    KeyInput { code, shift: false, control: false }
}

fn ctrl(code: Key) -> KeyInput {
    KeyInput { code, shift: false, control: true }
}

fn area() -> ScreenArea {
    ScreenArea { width: 80, height: 24 }
}

#[test]
fn initial_mode_follows_config() {
    let nano = Editor::new(&Config::default());
    assert!(matches!(nano.input_mode, InputMode::Insert));
    assert_eq!(nano.status_message, cs("Ctrl+X Exit | Ctrl+W Save | Ctrl+H Help"));
    let vim = vim_ed(&[""]);
    assert!(matches!(vim.input_mode, InputMode::Normal));
    assert_eq!(vim.status_message, cs("-- NORMAL --"));
}

#[test]
fn nano_typing_inserts() {
    let mut e = nano_ed(&[""]);
    let r = e.handle_key_input(key(Key::Char('h')), area());
    assert!(matches!(r, Action::Continue));
    let r = e.handle_key_input(key(Key::Char('i')), area());
    assert!(matches!(r, Action::Continue));
    assert_eq!(e.buffer, rows(&["hi"]));
    assert_eq!(e.cursor_x, 2);
}

#[test]
fn vim_i_enters_insert_mode() {
    let mut e = vim_ed(&["ab"]);
    e.handle_key_input(key(Key::Char('i')), area());
    assert!(matches!(e.input_mode, InputMode::Insert));
    assert_eq!(e.status_message, cs("-- INSERT --"));
}

#[test]
fn vim_esc_returns_to_normal_and_trims_cursor() {
    let mut e = vim_ed(&["ab"]);
    e.input_mode = InputMode::Insert;
    e.cursor_x = 2;
    e.handle_key_input(key(Key::Esc), area());
    assert!(matches!(e.input_mode, InputMode::Normal));
    assert_eq!(e.cursor_x, 1);
    assert_eq!(e.status_message, cs("-- NORMAL --"));
}

#[test]
fn vim_a_clamps_at_line_end() {
    let mut e = vim_ed(&["ab"]);
    e.cursor_x = 2;
    e.handle_key_input(key(Key::Char('a')), area());
    assert!(matches!(e.input_mode, InputMode::Insert));
    assert_eq!(e.cursor_x, 2);
}

#[test]
fn vim_o_opens_line_below() {
    let mut e = vim_ed(&["ab", "cd"]);
    e.handle_key_input(key(Key::Char('o')), area());
    assert_eq!(e.buffer, rows(&["ab", "", "cd"]));
    assert_eq!(e.cursor_y, 1);
    assert_eq!(e.cursor_x, 0);
    assert!(matches!(e.input_mode, InputMode::Insert));
}

#[test]
fn vim_open_above_keeps_line_whole() {
    let mut e = vim_ed(&["ab"]);
    e.cursor_x = 1;
    e.handle_key_input(key(Key::Char('O')), area());
    assert_eq!(e.buffer, rows(&["", "ab"]));
    assert_eq!(e.cursor_y, 0);
    assert_eq!(e.cursor_x, 0);
    assert!(matches!(e.input_mode, InputMode::Insert));
}

#[test]
fn vim_x_deletes_under_cursor() {
    let mut e = vim_ed(&["abc"]);
    e.cursor_x = 1;
    e.handle_key_input(key(Key::Char('x')), area());
    assert_eq!(e.buffer, rows(&["ac"]));
}

#[test]
fn vim_word_motion_keys() {
    let mut e = vim_ed(&["foo bar"]);
    e.handle_key_input(key(Key::Char('w')), area());
    assert_eq!(e.cursor_x, 4);
    e.handle_key_input(key(Key::Char('b')), area());
    assert_eq!(e.cursor_x, 0);
}

#[test]
fn vim_line_start_and_end_keys() {
    let mut e = vim_ed(&["abcd"]);
    e.handle_key_input(key(Key::Char('$')), area());
    assert_eq!(e.cursor_x, 4);
    e.handle_key_input(key(Key::Char('0')), area());
    assert_eq!(e.cursor_x, 0);
}

#[test]
fn ctrl_x_clean_buffer_exits() {
    let mut e = nano_ed(&["ab"]);
    let r = e.handle_key_input(ctrl(Key::Char('x')), area());
    assert!(matches!(r, Action::Exit));
}

#[test]
fn ctrl_x_dirty_buffer_prompts() {
    let mut e = nano_ed(&["ab"]);
    e.handle_key_input(key(Key::Char('z')), area());
    assert!(e.is_dirty());
    let r = e.handle_key_input(ctrl(Key::Char('x')), area());
    assert!(matches!(r, Action::Continue));
    assert!(matches!(e.application_mode, ApplicationMode::PromptSave { .. }));
    assert_eq!(e.prompt_message, cs("Save modified buffer? (Y/N)"));
}

#[test]
fn ctrl_x_with_selection_cuts_instead() {
    let mut e = nano_ed(&["abcd"]);
    e.selection_start = Some((0, 0));
    e.selection_end = Some((0, 2));
    let r = e.handle_key_input(ctrl(Key::Char('x')), area());
    assert!(matches!(r, Action::Continue));
    assert_eq!(e.buffer, rows(&["cd"]));
    assert_eq!(e.clipboard, cs("ab"));
}

#[test]
fn ctrl_q_dirty_buffer_prompts_discard() {
    let mut e = nano_ed(&["ab"]);
    e.handle_key_input(key(Key::Char('z')), area());
    let r = e.handle_key_input(ctrl(Key::Char('q')), area());
    assert!(matches!(r, Action::Continue));
    assert_eq!(e.prompt_message, cs("Quit without saving? (Y/N)"));
}

#[test]
fn ctrl_q_clean_buffer_exits() {
    let mut e = nano_ed(&["ab"]);
    let r = e.handle_key_input(ctrl(Key::Char('q')), area());
    assert!(matches!(r, Action::Exit));
}

#[test]
fn prompt_n_exits_discarding() {
    let mut e = nano_ed(&["ab"]);
    e.handle_key_input(key(Key::Char('z')), area());
    e.handle_key_input(ctrl(Key::Char('x')), area());
    let r = e.handle_key_input(key(Key::Char('n')), area());
    assert!(matches!(r, Action::Exit));
}

#[test]
fn prompt_esc_cancels_back_to_editing() {
    let mut e = nano_ed(&["ab"]);
    e.handle_key_input(key(Key::Char('z')), area());
    e.handle_key_input(ctrl(Key::Char('x')), area());
    let r = e.handle_key_input(key(Key::Esc), area());
    assert!(matches!(r, Action::Continue));
    assert!(matches!(e.application_mode, ApplicationMode::Editing));
    assert_eq!(e.status_message, cs("Ctrl+X Exit | Ctrl+W Save | Ctrl+H Help"));
}

#[test]
fn prompt_y_without_filename_reports() {
    let mut e = nano_ed(&["ab"]);
    e.handle_key_input(key(Key::Char('z')), area());
    e.handle_key_input(ctrl(Key::Char('x')), area());
    let r = e.handle_key_input(key(Key::Char('y')), area());
    assert!(matches!(r, Action::Continue));
    assert!(matches!(e.application_mode, ApplicationMode::Editing));
    assert_eq!(
        e.status_message,
        cs("No filename. Cannot save. (Implement :w <filename>)")
    );
}

#[test]
fn prompt_y_with_filename_requests_save_and_exit() {
    let mut e = nano_ed(&["ab"]);
    e.open_loaded(cs("t.txt"), &cs("ab"));
    e.handle_key_input(key(Key::Char('z')), area());
    e.handle_key_input(ctrl(Key::Char('x')), area());
    let r = e.handle_key_input(key(Key::Char('y')), area());
    assert!(matches!(r, Action::Save { and_exit: true }));
}

#[test]
fn ctrl_w_without_filename_reports() {
    let mut e = nano_ed(&["ab"]);
    let r = e.handle_key_input(ctrl(Key::Char('w')), area());
    assert!(matches!(r, Action::Continue));
    assert_eq!(
        e.status_message,
        cs("No filename. Cannot save. (Implement :w <filename>)")
    );
}

#[test]
fn ctrl_w_with_filename_requests_save() {
    let mut e = nano_ed(&[""]);
    e.open_loaded(cs("t.txt"), &cs("ab"));
    let r = e.handle_key_input(ctrl(Key::Char('w')), area());
    assert!(matches!(r, Action::Save { and_exit: false }));
}

#[test]
fn help_opens_and_any_key_returns() {
    let mut e = vim_ed(&["ab"]);
    let r = e.handle_key_input(ctrl(Key::Char('h')), area());
    assert!(matches!(r, Action::Continue));
    assert!(matches!(e.application_mode, ApplicationMode::Help));
    assert_eq!(e.status_message, cs("-- HELP --"));
    let r = e.handle_key_input(key(Key::Char('q')), area());
    assert!(matches!(r, Action::Continue));
    assert!(matches!(e.application_mode, ApplicationMode::Editing));
    assert_eq!(e.status_message, cs("-- NORMAL --"));
}

#[test]
fn shift_arrow_selects_in_insert_mode() {
    let mut e = nano_ed(&["abc"]);
    let shifted = KeyInput { code: Key::Right, shift: true, control: false };
    e.handle_key_input(shifted, area());
    assert_eq!(e.selection_start, Some((0, 0)));
    assert_eq!(e.selection_end, Some((0, 1)));
}

#[test]
fn ctrl_arrow_jumps_words_in_insert_mode() {
    let mut e = nano_ed(&["foo bar"]);
    e.handle_key_input(ctrl(Key::Right), area());
    assert_eq!(e.cursor_x, 4);
}

#[test]
fn normal_esc_clears_selection_and_trims() {
    let mut e = vim_ed(&["ab"]);
    e.cursor_x = 2;
    e.selection_start = Some((0, 0));
    e.selection_end = Some((0, 2));
    let shifted_esc = KeyInput { code: Key::Esc, shift: true, control: false };
    e.handle_key_input(shifted_esc, area());
    assert_eq!(e.selection_start, None);
    assert_eq!(e.cursor_x, 1);
}

#[test]
fn home_and_end_keys() {
    let mut e = nano_ed(&["abcd", "ef"]);
    e.handle_key_input(key(Key::End), area());
    assert_eq!(e.cursor_x, 4);
    e.handle_key_input(key(Key::Home), area());
    assert_eq!(e.cursor_x, 0);
    e.handle_key_input(ctrl(Key::End), area());
    assert_eq!(e.cursor_y, 1);
    assert_eq!(e.cursor_x, 2);
    e.handle_key_input(ctrl(Key::Home), area());
    assert_eq!(e.cursor_y, 0);
    assert_eq!(e.cursor_x, 0);
}

#[test]
fn page_down_and_up_move_a_screen() {
    let lines: Vec<String> = (0..100).map(|i| format!("l{}", i)).collect();
    let refs: Vec<&str> = lines.iter().map(|s| s.as_str()).collect();
    let mut e = nano_ed(&refs);
    let a = ScreenArea { width: 80, height: 12 };
    e.handle_key_input(key(Key::PageDown), a);
    assert_eq!(e.cursor_y, 10);
    assert_eq!(e.scroll_y, 10);
    e.handle_key_input(key(Key::PageUp), a);
    assert_eq!(e.cursor_y, 0);
    assert_eq!(e.scroll_y, 0);
}

#[test]
fn vim_normal_plain_motion_clears_selection() {
    let mut e = vim_ed(&["abc"]);
    e.selection_start = Some((0, 0));
    e.selection_end = Some((0, 2));
    e.handle_key_input(key(Key::Char('l')), area());
    assert_eq!(e.selection_start, None);
}
