//! The modal input dispatcher.
//!
//! One keystroke at a time is routed to the engine: global requests
//! (exit, save, quit, help) are checked first while editing; otherwise the
//! current mode's handler runs. The whole step is specified by
//! [`input_step`]: given the abstract state and the keystroke, it yields
//! exactly the next state and what the event loop must do.

use vstd::prelude::*;
use crate::editor::{
    Editor, EdModel, ScreenArea, imin, isub0, view_fixed, sel_updated, sel_cleared, vis_height,
    op_move_left, op_move_right, op_move_up, op_move_down, op_insert_char, op_insert_newline,
    op_delete_backward, op_delete_forward, op_copy, op_cut, op_paste, msg_normal_mode,
    msg_insert_mode, msg_help_mode, msg_editing, msg_no_filename, msg_prompt_exit,
    msg_prompt_discard,
};
use crate::words::{op_word_left, op_word_right};
use crate::keys::{Key, KeyInput, InputMode, ApplicationMode, PromptIntent, Action};
use crate::text::chars_of_str;

verus! {

/// The larger of `a` and `b`.
pub open spec fn imax(a: int, b: int) -> int {
    if a >= b {
        a
    } else {
        b
    }
}

/// `k` is the character `c` with the control modifier held.
pub open spec fn is_ctrl_char(k: KeyInput, c: char) -> bool {
    k.control && match k.code {
        Key::Char(d) => d == c,
        _ => false,
    }
}

/// Entering insert mode: the sub-mode switches and the status shows it.
pub open spec fn with_insert_mode(m: EdModel) -> EdModel {
    EdModel { input_mode: InputMode::Insert, status: msg_insert_mode(), ..m }
}

/// Escape in insert mode under modal editing: back to normal mode,
/// selection dropped, and the cursor trimmed to the last column when it
/// was one past the end of its line.
pub open spec fn op_insert_esc(m: EdModel) -> EdModel {
    if m.vim {
        let len = m.cur_line().len() as int;
        let cx = if m.cursor_x == len && len > 0 {
            len - 1
        } else {
            m.cursor_x
        };
        EdModel {
            input_mode: InputMode::Normal,
            status: msg_normal_mode(),
            sel_start: None,
            sel_end: None,
            cursor_x: cx,
            ..m
        }
    } else {
        m
    }
}

/// Jump to the start of the document, resetting both scroll offsets.
pub open spec fn op_doc_home(m: EdModel, shift: bool) -> EdModel {
    sel_updated(
        EdModel { cursor_x: 0, cursor_y: 0, scroll_x: 0, scroll_y: 0, ..m },
        (m.cursor_y, m.cursor_x),
        shift,
    )
}

/// Jump to the end of the document.
pub open spec fn op_doc_end(m: EdModel, area: ScreenArea, shift: bool) -> EdModel {
    let y = m.lines.len() - 1;
    view_fixed(
        sel_updated(
            EdModel { cursor_y: y, cursor_x: m.lines[y].len() as int, ..m },
            (m.cursor_y, m.cursor_x),
            shift,
        ),
        area,
    )
}

/// Jump to the start of the line, resetting the horizontal scroll.
pub open spec fn op_line_home(m: EdModel, area: ScreenArea, shift: bool) -> EdModel {
    view_fixed(
        sel_updated(EdModel { cursor_x: 0, scroll_x: 0, ..m }, (m.cursor_y, m.cursor_x), shift),
        area,
    )
}

/// Jump to the end of the line.
pub open spec fn op_line_end(m: EdModel, area: ScreenArea, shift: bool) -> EdModel {
    view_fixed(
        sel_updated(
            EdModel { cursor_x: m.cur_line().len() as int, ..m },
            (m.cursor_y, m.cursor_x),
            shift,
        ),
        area,
    )
}

/// Scroll one screen up, carrying the cursor along.
pub open spec fn op_page_up(m: EdModel, area: ScreenArea, shift: bool) -> EdModel {
    let vh = vis_height(area);
    let sy = isub0(m.scroll_y, vh);
    let cy = imax(isub0(m.cursor_y, vh), sy);
    let cx = imin(m.cursor_x, m.lines[cy].len() as int);
    view_fixed(
        sel_updated(
            EdModel { scroll_y: sy, cursor_y: cy, cursor_x: cx, ..m },
            (m.cursor_y, m.cursor_x),
            shift,
        ),
        area,
    )
}

/// Scroll one screen down, carrying the cursor along.
pub open spec fn op_page_down(m: EdModel, area: ScreenArea, shift: bool) -> EdModel {
    let vh = vis_height(area);
    let maxr = m.lines.len() - 1;
    let sy = imin(m.scroll_y + vh, maxr);
    let cy = imin(m.cursor_y + vh, maxr);
    let cx = imin(m.cursor_x, m.lines[cy].len() as int);
    view_fixed(
        sel_updated(
            EdModel { scroll_y: sy, cursor_y: cy, cursor_x: cx, ..m },
            (m.cursor_y, m.cursor_x),
            shift,
        ),
        area,
    )
}

/// One keystroke in insert mode.
pub open spec fn insert_mode_step(m: EdModel, k: KeyInput, area: ScreenArea) -> EdModel {
    match k.code {
        Key::Esc => op_insert_esc(m),
        Key::Char(c) => if !k.control {
            op_insert_char(m, c, area)
        } else {
            m
        },
        Key::Enter => op_insert_newline(m, area),
        Key::Backspace => op_delete_backward(m, area),
        Key::Delete => op_delete_forward(m, area),
        Key::Left => if k.control {
            op_word_left(m, area, k.shift)
        } else {
            op_move_left(m, area, k.shift)
        },
        Key::Right => if k.control {
            op_word_right(m, area, k.shift)
        } else {
            op_move_right(m, area, k.shift)
        },
        Key::Up => op_move_up(m, area, k.shift),
        Key::Down => op_move_down(m, area, k.shift),
        Key::Home => if k.control {
            op_doc_home(m, k.shift)
        } else {
            op_line_home(m, area, k.shift)
        },
        Key::End => if k.control {
            op_doc_end(m, area, k.shift)
        } else {
            op_line_end(m, area, k.shift)
        },
        Key::PageUp => op_page_up(m, area, k.shift),
        Key::PageDown => op_page_down(m, area, k.shift),
        _ => m,
    }
}

/// Entering normal-mode handling: a plain (non-extending) key first drops
/// any active selection.
pub open spec fn normal_entry(m: EdModel, shift: bool) -> EdModel {
    if !shift && m.sel_start is Some {
        sel_cleared(m)
    } else {
        m
    }
}

/// One keystroke in normal mode (after `normal_entry`).
pub open spec fn normal_mode_step(m0: EdModel, k: KeyInput, area: ScreenArea) -> EdModel {
    let m = normal_entry(m0, k.shift);
    match k.code {
        Key::Char(c) => if c == 'i' {
            with_insert_mode(m)
        } else if c == 'a' {
            with_insert_mode(
                EdModel { cursor_x: imin(m.cursor_x + 1, m.cur_line().len() as int), ..m },
            )
        } else if c == 'o' {
            with_insert_mode(
                op_insert_newline(EdModel { cursor_x: m.cur_line().len() as int, ..m }, area),
            )
        } else if c == 'O' {
            let t = op_insert_newline(EdModel { cursor_x: 0, ..m }, area);
            with_insert_mode(EdModel { cursor_y: t.cursor_y - 1, ..t })
        } else if c == 'h' {
            op_move_left(m, area, k.shift)
        } else if c == 'j' {
            op_move_down(m, area, k.shift)
        } else if c == 'k' {
            op_move_up(m, area, k.shift)
        } else if c == 'l' {
            op_move_right(m, area, k.shift)
        } else if c == 'b' {
            op_word_left(m, area, k.shift)
        } else if c == 'w' {
            op_word_right(m, area, k.shift)
        } else if c == '0' {
            view_fixed(EdModel { cursor_x: 0, ..m }, area)
        } else if c == '$' {
            view_fixed(EdModel { cursor_x: m.cur_line().len() as int, ..m }, area)
        } else if c == 'x' {
            op_delete_forward(m, area)
        } else if c == 'c' && k.control {
            op_copy(m)
        } else if c == 'u' && k.control {
            op_cut(m, area)
        } else if c == 'v' && k.control {
            op_paste(m, area)
        } else {
            m
        },
        Key::Left => op_move_left(m, area, k.shift),
        Key::Down => op_move_down(m, area, k.shift),
        Key::Up => op_move_up(m, area, k.shift),
        Key::Right => op_move_right(m, area, k.shift),
        Key::Esc => {
            let len = m.cur_line().len() as int;
            let cx = if m.cursor_x > 0 && m.cursor_x == len && len > 0 {
                m.cursor_x - 1
            } else {
                m.cursor_x
            };
            EdModel { sel_start: None, sel_end: None, cursor_x: cx, ..m }
        },
        _ => m,
    }
}

/// Any keystroke leaves the help screen, restoring the editing status.
pub open spec fn help_step(m: EdModel) -> EdModel {
    EdModel { app_mode: ApplicationMode::Editing, status: msg_editing(m.vim, m.input_mode), ..m }
}

/// One keystroke at the save prompt: `y` attempts the save (exiting on
/// success), `n` exits discarding changes, escape cancels back to editing.
pub open spec fn prompt_step(m: EdModel, k: KeyInput) -> (EdModel, Action) {
    match k.code {
        Key::Char(c) => if c == 'y' || c == 'Y' {
            if m.filename is Some {
                (m, Action::Save { and_exit: true })
            } else {
                (
                    EdModel {
                        status: msg_no_filename(),
                        app_mode: ApplicationMode::Editing,
                        ..m
                    },
                    Action::Continue,
                )
            }
        } else if c == 'n' || c == 'N' {
            (m, Action::Exit)
        } else {
            (m, Action::Continue)
        },
        Key::Esc => (
            EdModel {
                app_mode: ApplicationMode::Editing,
                status: msg_editing(m.vim, m.input_mode),
                ..m
            },
            Action::Continue,
        ),
        _ => (m, Action::Continue),
    }
}

/// The whole dispatcher: global requests while editing, then the current
/// mode's handler.
pub open spec fn input_step(m: EdModel, k: KeyInput, area: ScreenArea) -> (EdModel, Action) {
    if is_ctrl_char(k, 'x') && m.app_mode is Editing {
        if m.sel_start is Some {
            (op_cut(m, area), Action::Continue)
        } else if m.dirty() {
            (
                EdModel {
                    app_mode: ApplicationMode::PromptSave { intent: PromptIntent::Exit },
                    prompt: msg_prompt_exit(),
                    ..m
                },
                Action::Continue,
            )
        } else {
            (m, Action::Exit)
        }
    } else if is_ctrl_char(k, 'w') && m.app_mode is Editing {
        if m.filename is Some {
            (m, Action::Save { and_exit: false })
        } else {
            (EdModel { status: msg_no_filename(), ..m }, Action::Continue)
        }
    } else if is_ctrl_char(k, 'q') && m.app_mode is Editing {
        if m.dirty() {
            (
                EdModel {
                    app_mode: ApplicationMode::PromptSave { intent: PromptIntent::Discard },
                    prompt: msg_prompt_discard(),
                    ..m
                },
                Action::Continue,
            )
        } else {
            (m, Action::Exit)
        }
    } else if is_ctrl_char(k, 'h') && m.app_mode is Editing {
        (
            EdModel {
                app_mode: ApplicationMode::Help,
                status: if m.vim {
                    msg_help_mode()
                } else {
                    m.status
                },
                ..m
            },
            Action::Continue,
        )
    } else {
        match m.app_mode {
            ApplicationMode::Editing => (
                match m.input_mode {
                    InputMode::Insert => insert_mode_step(m, k, area),
                    InputMode::Normal => normal_mode_step(m, k, area),
                },
                Action::Continue,
            ),
            ApplicationMode::Help => (help_step(m), Action::Continue),
            ApplicationMode::PromptSave { .. } => prompt_step(m, k),
        }
    }
}

impl Editor {
    /// Jump to the start of the document.
    pub fn goto_doc_home(&mut self, shift: bool)
        requires
            old(self).wf(),
        ensures
            final(self).model() == op_doc_home(old(self).model(), shift),
            final(self).wf(),
    {
        let ghost m = old(self).model();
        let anchor = (self.cursor_y, self.cursor_x);
        self.cursor_y = 0;
        self.cursor_x = 0;
        self.scroll_y = 0;
        self.scroll_x = 0;
        proof {
            assert(self.model() =~~= (EdModel {
                cursor_x: 0,
                cursor_y: 0,
                scroll_x: 0,
                scroll_y: 0,
                ..m
            }));
        }
        self.update_selection_on_move(anchor, shift);
    }

    /// Jump to the end of the document.
    pub fn goto_doc_end(&mut self, area: ScreenArea, shift: bool)
        requires
            old(self).wf(),
        ensures
            final(self).model() == op_doc_end(old(self).model(), area, shift),
            final(self).wf(),
    {
        let ghost m = old(self).model();
        let anchor = (self.cursor_y, self.cursor_x);
        self.cursor_y = self.buffer.len() - 1;
        self.cursor_x = self.buffer[self.cursor_y].len();
        proof {
            assert(self.model() =~~= (EdModel {
                cursor_y: m.lines.len() - 1,
                cursor_x: m.lines[m.lines.len() - 1].len() as int,
                ..m
            }));
        }
        self.update_selection_on_move(anchor, shift);
        self.ensure_cursor_in_view(area);
    }

    /// Jump to the start of the line.
    pub fn goto_line_home(&mut self, area: ScreenArea, shift: bool)
        requires
            old(self).wf(),
        ensures
            final(self).model() == op_line_home(old(self).model(), area, shift),
            final(self).wf(),
    {
        let ghost m = old(self).model();
        let anchor = (self.cursor_y, self.cursor_x);
        self.cursor_x = 0;
        self.scroll_x = 0;
        proof {
            assert(self.model() =~~= (EdModel { cursor_x: 0, scroll_x: 0, ..m }));
        }
        self.update_selection_on_move(anchor, shift);
        self.ensure_cursor_in_view(area);
    }

    /// Jump to the end of the line.
    pub fn goto_line_end(&mut self, area: ScreenArea, shift: bool)
        requires
            old(self).wf(),
        ensures
            final(self).model() == op_line_end(old(self).model(), area, shift),
            final(self).wf(),
    {
        let ghost m = old(self).model();
        let anchor = (self.cursor_y, self.cursor_x);
        self.cursor_x = self.buffer[self.cursor_y].len();
        proof {
            assert(self.model() =~~= (EdModel { cursor_x: m.cur_line().len() as int, ..m }));
        }
        self.update_selection_on_move(anchor, shift);
        self.ensure_cursor_in_view(area);
    }

    /// Scroll one screen up, carrying the cursor along.
    pub fn page_up(&mut self, area: ScreenArea, shift: bool)
        requires
            old(self).wf(),
        ensures
            final(self).model() == op_page_up(old(self).model(), area, shift),
            final(self).wf(),
    {
        let ghost m = old(self).model();
        let anchor = (self.cursor_y, self.cursor_x);
        let vh = Self::sat_sub(area.height as usize, 2);
        self.scroll_y = Self::sat_sub(self.scroll_y, vh);
        let cy = Self::sat_sub(self.cursor_y, vh);
        self.cursor_y = if cy > self.scroll_y {
            cy
        } else {
            self.scroll_y
        };
        let len = self.buffer[self.cursor_y].len();
        if self.cursor_x > len {
            self.cursor_x = len;
        }
        proof {
            let vhs = vis_height(area);
            let sy = isub0(m.scroll_y, vhs);
            let cys = imax(isub0(m.cursor_y, vhs), sy);
            assert(self.model() =~~= (EdModel {
                scroll_y: sy,
                cursor_y: cys,
                cursor_x: imin(m.cursor_x, m.lines[cys].len() as int),
                ..m
            }));
        }
        self.update_selection_on_move(anchor, shift);
        self.ensure_cursor_in_view(area);
    }

    /// Scroll one screen down, carrying the cursor along.
    pub fn page_down(&mut self, area: ScreenArea, shift: bool)
        requires
            old(self).wf(),
        ensures
            final(self).model() == op_page_down(old(self).model(), area, shift),
            final(self).wf(),
    {
        let ghost m = old(self).model();
        let anchor = (self.cursor_y, self.cursor_x);
        let vh = Self::sat_sub(area.height as usize, 2);
        let maxr = self.buffer.len() - 1;
        self.scroll_y = if maxr - self.scroll_y >= vh {
            self.scroll_y + vh
        } else {
            maxr
        };
        self.cursor_y = if maxr - self.cursor_y >= vh {
            self.cursor_y + vh
        } else {
            maxr
        };
        let len = self.buffer[self.cursor_y].len();
        if self.cursor_x > len {
            self.cursor_x = len;
        }
        proof {
            let vhs = vis_height(area);
            let maxrs = m.lines.len() - 1;
            let sy = imin(m.scroll_y + vhs, maxrs);
            let cys = imin(m.cursor_y + vhs, maxrs);
            assert(self.model() =~~= (EdModel {
                scroll_y: sy,
                cursor_y: cys,
                cursor_x: imin(m.cursor_x, m.lines[cys].len() as int),
                ..m
            }));
        }
        self.update_selection_on_move(anchor, shift);
        self.ensure_cursor_in_view(area);
    }

    /// One keystroke in insert mode.
    #[verifier::rlimit(100)]
    pub fn handle_key_insert_mode(&mut self, k: KeyInput, area: ScreenArea)
        requires
            old(self).wf(),
        ensures
            final(self).model() == insert_mode_step(old(self).model(), k, area),
            final(self).wf(),
    {
        let ghost m = old(self).model();
        match k.code {
            Key::Esc => {
                if self.vim_enabled {
                    self.input_mode = InputMode::Normal;
                    self.status_message = chars_of_str("-- NORMAL --");
                    self.selection_start = None;
                    self.selection_end = None;
                    let len = self.buffer[self.cursor_y].len();
                    if self.cursor_x == len && len > 0 {
                        self.cursor_x = len - 1;
                    }
                }
                proof {
                    assert(self.model() =~~= op_insert_esc(m));
                }
            },
            Key::Char(c) => {
                if !k.control {
                    self.insert_char(c, area);
                }
            },
            Key::Enter => {
                self.insert_newline(area);
            },
            Key::Backspace => {
                self.delete_char_backward(area);
            },
            Key::Delete => {
                self.delete_char_forward(area);
            },
            Key::Left => {
                if k.control {
                    self.move_cursor_word_left(area, k.shift);
                } else {
                    self.move_cursor_left(area, k.shift);
                }
            },
            Key::Right => {
                if k.control {
                    self.move_cursor_word_right(area, k.shift);
                } else {
                    self.move_cursor_right(area, k.shift);
                }
            },
            Key::Up => {
                self.move_cursor_up(area, k.shift);
            },
            Key::Down => {
                self.move_cursor_down(area, k.shift);
            },
            Key::Home => {
                if k.control {
                    self.goto_doc_home(k.shift);
                } else {
                    self.goto_line_home(area, k.shift);
                }
            },
            Key::End => {
                if k.control {
                    self.goto_doc_end(area, k.shift);
                } else {
                    self.goto_line_end(area, k.shift);
                }
            },
            Key::PageUp => {
                self.page_up(area, k.shift);
            },
            Key::PageDown => {
                self.page_down(area, k.shift);
            },
        }
    }

    /// One keystroke in normal mode.
    #[verifier::rlimit(100)]
    pub fn handle_key_normal_mode(&mut self, k: KeyInput, area: ScreenArea)
        requires
            old(self).wf(),
        ensures
            final(self).model() == normal_mode_step(old(self).model(), k, area),
            final(self).wf(),
    {
        if !k.shift && self.selection_start.is_some() {
            self.clear_selection();
        }
        let ghost m = normal_entry(old(self).model(), k.shift);
        proof {
            assert(self.model() =~~= m);
        }
        match k.code {
            Key::Char(c) => {
                if c == 'i' {
                    self.input_mode = InputMode::Insert;
                    self.status_message = chars_of_str("-- INSERT --");
                    proof {
                        assert(self.model() =~~= with_insert_mode(m));
                    }
                } else if c == 'a' {
                    let len = self.buffer[self.cursor_y].len();
                    if self.cursor_x < len {
                        self.cursor_x = self.cursor_x + 1;
                    }
                    self.input_mode = InputMode::Insert;
                    self.status_message = chars_of_str("-- INSERT --");
                    proof {
                        assert(self.model() =~~= with_insert_mode(
                            EdModel {
                                cursor_x: imin(m.cursor_x + 1, m.cur_line().len() as int),
                                ..m
                            },
                        ));
                    }
                } else if c == 'o' {
                    self.cursor_x = self.buffer[self.cursor_y].len();
                    proof {
                        assert(self.model() =~~= (EdModel {
                            cursor_x: m.cur_line().len() as int,
                            ..m
                        }));
                    }
                    self.insert_newline(area);
                    self.input_mode = InputMode::Insert;
                    self.status_message = chars_of_str("-- INSERT --");
                } else if c == 'O' {
                    self.cursor_x = 0;
                    proof {
                        assert(self.model() =~~= (EdModel { cursor_x: 0, ..m }));
                    }
                    self.insert_newline(area);
                    self.cursor_y = self.cursor_y - 1;
                    self.input_mode = InputMode::Insert;
                    self.status_message = chars_of_str("-- INSERT --");
                    proof {
                        let t = op_insert_newline(EdModel { cursor_x: 0, ..m }, area);
                        assert(self.model() =~~= with_insert_mode(
                            EdModel { cursor_y: t.cursor_y - 1, ..t },
                        ));
                    }
                } else if c == 'h' {
                    self.move_cursor_left(area, k.shift);
                } else if c == 'j' {
                    self.move_cursor_down(area, k.shift);
                } else if c == 'k' {
                    self.move_cursor_up(area, k.shift);
                } else if c == 'l' {
                    self.move_cursor_right(area, k.shift);
                } else if c == 'b' {
                    self.move_cursor_word_left(area, k.shift);
                } else if c == 'w' {
                    self.move_cursor_word_right(area, k.shift);
                } else if c == '0' {
                    self.cursor_x = 0;
                    self.ensure_cursor_in_view(area);
                } else if c == '$' {
                    self.cursor_x = self.buffer[self.cursor_y].len();
                    proof {
                        assert(self.model() =~~= (EdModel {
                            cursor_x: m.cur_line().len() as int,
                            ..m
                        }));
                    }
                    self.ensure_cursor_in_view(area);
                } else if c == 'x' {
                    self.delete_char_forward(area);
                } else if c == 'c' && k.control {
                    self.copy_selection();
                } else if c == 'u' && k.control {
                    self.cut_selection(area);
                } else if c == 'v' && k.control {
                    self.paste(area);
                }
            },
            Key::Left => {
                self.move_cursor_left(area, k.shift);
            },
            Key::Down => {
                self.move_cursor_down(area, k.shift);
            },
            Key::Up => {
                self.move_cursor_up(area, k.shift);
            },
            Key::Right => {
                self.move_cursor_right(area, k.shift);
            },
            Key::Esc => {
                self.selection_start = None;
                self.selection_end = None;
                let len = self.buffer[self.cursor_y].len();
                if self.cursor_x > 0 && self.cursor_x == len && len > 0 {
                    self.cursor_x -= 1;
                }
                proof {
                    assert(self.model() =~~= normal_mode_step(old(self).model(), k, area));
                }
            },
            _ => {},
        }
    }

    /// Any keystroke leaves the help screen.
    pub fn handle_key_help_mode(&mut self, _k: KeyInput)
        requires
            old(self).wf(),
        ensures
            final(self).model() == help_step(old(self).model()),
            final(self).wf(),
    {
        self.application_mode = ApplicationMode::Editing;
        if self.vim_enabled {
            self.status_message = match self.input_mode {
                InputMode::Normal => chars_of_str("-- NORMAL --"),
                InputMode::Insert => chars_of_str("-- INSERT --"),
            };
        } else {
            self.status_message = chars_of_str("Ctrl+X Exit | Ctrl+W Save | Ctrl+H Help");
        }
        proof {
            assert(final(self).model() =~~= help_step(old(self).model()));
        }
    }

    /// One keystroke at the save prompt.
    pub fn handle_key_prompt_save_mode(&mut self, k: KeyInput) -> (r: Action)
        requires
            old(self).wf(),
        ensures
            final(self).model() == prompt_step(old(self).model(), k).0,
            r == prompt_step(old(self).model(), k).1,
            final(self).wf(),
    {
        let ghost m = old(self).model();
        match k.code {
            Key::Char(c) => {
                if c == 'y' || c == 'Y' {
                    if self.filename.is_some() {
                        Action::Save { and_exit: true }
                    } else {
                        self.status_message = chars_of_str(
                            "No filename. Cannot save. (Implement :w <filename>)",
                        );
                        self.application_mode = ApplicationMode::Editing;
                        proof {
                            assert(final(self).model() =~~= prompt_step(m, k).0);
                        }
                        Action::Continue
                    }
                } else if c == 'n' || c == 'N' {
                    Action::Exit
                } else {
                    Action::Continue
                }
            },
            Key::Esc => {
                self.application_mode = ApplicationMode::Editing;
                if self.vim_enabled {
                    self.status_message = match self.input_mode {
                        InputMode::Normal => chars_of_str("-- NORMAL --"),
                        InputMode::Insert => chars_of_str("-- INSERT --"),
                    };
                } else {
                    self.status_message = chars_of_str("Ctrl+X Exit | Ctrl+W Save | Ctrl+H Help");
                }
                proof {
                    assert(final(self).model() =~~= prompt_step(m, k).0);
                }
                Action::Continue
            },
            _ => Action::Continue,
        }
    }

    /// Route one keystroke: global requests first while editing, then the
    /// current mode's handler. The answer tells the event loop whether to
    /// keep running, exit, or perform a save.
    #[verifier::rlimit(100)]
    pub fn handle_key_input(&mut self, k: KeyInput, area: ScreenArea) -> (r: Action)
        requires
            old(self).wf(),
        ensures
            final(self).model() == input_step(old(self).model(), k, area).0,
            r == input_step(old(self).model(), k, area).1,
            final(self).wf(),
    {
        let ghost m = old(self).model();
        let editing = matches!(self.application_mode, ApplicationMode::Editing);
        let is_char_x = k.control && matches!(k.code, Key::Char('x'));
        let is_char_w = k.control && matches!(k.code, Key::Char('w'));
        let is_char_q = k.control && matches!(k.code, Key::Char('q'));
        let is_char_h = k.control && matches!(k.code, Key::Char('h'));
        if is_char_x && editing {
            if self.selection_start.is_some() {
                self.cut_selection(area);
                Action::Continue
            } else if self.is_dirty() {
                self.application_mode = ApplicationMode::PromptSave {
                    intent: PromptIntent::Exit,
                };
                self.prompt_message = chars_of_str("Save modified buffer? (Y/N)");
                proof {
                    assert(final(self).model() =~~= input_step(m, k, area).0);
                }
                Action::Continue
            } else {
                Action::Exit
            }
        } else if is_char_w && editing {
            if self.filename.is_some() {
                Action::Save { and_exit: false }
            } else {
                self.status_message = chars_of_str(
                    "No filename. Cannot save. (Implement :w <filename>)",
                );
                proof {
                    assert(final(self).model() =~~= input_step(m, k, area).0);
                }
                Action::Continue
            }
        } else if is_char_q && editing {
            if self.is_dirty() {
                self.application_mode = ApplicationMode::PromptSave {
                    intent: PromptIntent::Discard,
                };
                self.prompt_message = chars_of_str("Quit without saving? (Y/N)");
                proof {
                    assert(final(self).model() =~~= input_step(m, k, area).0);
                }
                Action::Continue
            } else {
                Action::Exit
            }
        } else if is_char_h && editing {
            self.application_mode = ApplicationMode::Help;
            if self.vim_enabled {
                self.status_message = chars_of_str("-- HELP --");
            }
            proof {
                assert(final(self).model() =~~= input_step(m, k, area).0);
            }
            Action::Continue
        } else {
            match self.application_mode {
                ApplicationMode::Editing => {
                    match self.input_mode {
                        InputMode::Insert => self.handle_key_insert_mode(k, area),
                        InputMode::Normal => self.handle_key_normal_mode(k, area),
                    }
                    Action::Continue
                },
                ApplicationMode::Help => {
                    self.handle_key_help_mode(k);
                    Action::Continue
                },
                ApplicationMode::PromptSave { .. } => self.handle_key_prompt_save_mode(k),
            }
        }
    }
}

} // verus!
